//! GSDML: the file name, escaping, and the structure of the rendered document.

use pnio::config::{DeviceConfig, Slot};
use pnio::data::FieldType::{Bool, Dint, Int, Real};
use pnio::eth::MacAddr;
use pnio::gsdml::{escape, file_name, render, GsdmlMeta};
use pnio::im::Im0;

fn sample() -> DeviceConfig {
    DeviceConfig::builder("pnio-dev")
        .input(Slot(1), &[Real; 16])
        .input(Slot(2), &[Bool; 32])
        .output(Slot(3), &[Real; 16])
        .output(Slot(4), &[Bool; 32])
        .im0(Im0 {
            order_id: "PNIO-SAMPLE".into(),
            ..Im0::default()
        })
        .build()
        .unwrap()
}

fn meta() -> GsdmlMeta {
    GsdmlMeta {
        vendor_name: "Core Engineering".into(),
        product_family: "pnio".into(),
        info_text: "pnio sample device: 16 REAL + 32 BOOL per direction".into(),
        date: (2026, 8, 29),
    }
}

#[test]
fn file_name_follows_the_tia_pattern() {
    assert_eq!(
        file_name(&meta()),
        "GSDML-V2.4-CoreEngineering-pnio-20260829.xml"
    );
}

#[test]
fn escape_handles_the_five_xml_specials() {
    assert_eq!(escape("a<b&c>\"d'"), "a&lt;b&amp;c&gt;&quot;d&apos;");
}

#[test]
fn render_is_well_formed_and_structurally_consistent() {
    let cfg = sample();
    let xml = render(&cfg, &meta());
    let doc = roxmltree::Document::parse(&xml).expect("well-formed");
    let find = |name: &str| {
        doc.descendants()
            .filter(move |n| n.has_tag_name(name))
            .collect::<Vec<_>>()
    };
    let ident = find("DeviceIdentity")[0];
    assert_eq!(ident.attribute("VendorID"), Some("0xFFFF"));
    assert_eq!(ident.attribute("DeviceID"), Some("0x0001"));
    let dap = find("DeviceAccessPointItem")[0];
    assert_eq!(dap.attribute("DNS_CompatibleName"), Some("pnio-dev"));
    assert_eq!(dap.attribute("MinDeviceInterval"), Some("32"));
    assert_eq!(dap.attribute("PhysicalSlots"), Some("0..4"));
    // Input/Output CR C-SDU lengths including the IOPS/IOCS bytes (the same
    // accounting `config::check_total_csdu` guards), not the plain data sums
    // (64 + 4 = 68): 3 (DAP IOPS) + (64+1) [slot1 in] + (4+1) [slot2 in] +
    // 1 [slot3 out-only IOCS] + 1 [slot4 out-only IOCS] = 75, symmetrically for
    // output.
    let ioconfig = find("IOConfigData")[0];
    assert_eq!(ioconfig.attribute("MaxInputLength"), Some("75"));
    assert_eq!(ioconfig.attribute("MaxOutputLength"), Some("75"));
    assert_eq!(ioconfig.attribute("MaxDataLength"), Some("150"));
    // Required on DeviceAccessPointItem.
    assert_eq!(dap.attribute("CheckDeviceID_Allowed"), Some("true"));
    assert_eq!(dap.attribute("NameOfStationNotTransferable"), Some("false"));
    // V2.3, not V2.4: engineering tools mandate LLDP/PTP-DCP boundary/ResetToFactory/
    // CertificationInfo claims from PNIO_Version >= "V2.31", none of which the device
    // implements (see the module doc).
    assert_eq!(dap.attribute("PNIO_Version"), Some("V2.3"));
    let iface = find("InterfaceSubmoduleItem")[0];
    // The v2.4 XSD makes SupportedProtocols required; an empty value is the honest
    // declaration since the device implements neither SNMP nor LLDP.
    assert_eq!(iface.attribute("SupportedProtocols"), Some(""));
    for id in [
        "LLDP_NoD_Supported",
        "ResetToFactoryModes",
        "CertificationInfo",
    ] {
        assert!(
            !xml.contains(id),
            "unimplemented feature claim {id} must not appear in the document"
        );
    }
    for tag in ["Input", "Output"] {
        for n in find(tag) {
            assert_eq!(
                n.attribute("Consistency"),
                Some("All items consistency"),
                "{tag}"
            );
        }
    }
    let modules = find("ModuleItem");
    assert_eq!(modules.len(), 4);
    let mac = MacAddr([0; 6]);
    let model = cfg.model(mac);
    for (m, s) in modules.iter().zip(&model.slots[1..]) {
        assert_eq!(
            m.attribute("ModuleIdentNumber"),
            Some(format!("0x{:08X}", s.module_ident).as_str())
        );
    }
    let refs = find("ModuleItemRef");
    let allowed: Vec<_> = refs
        .iter()
        .map(|r| r.attribute("AllowedInSlots").unwrap())
        .collect();
    assert_eq!(allowed, vec!["1", "2", "3", "4"]);
    // 16 REAL -> 16 Float32 DataItems; 32 BOOL -> 4 Unsigned8 UseAsBits with 8 BitDataItems each
    let items = find("DataItem");
    assert_eq!(
        items
            .iter()
            .filter(|i| i.attribute("DataType") == Some("Float32"))
            .count(),
        32
    );
    let bit_items: Vec<_> = items
        .iter()
        .filter(|i| i.attribute("UseAsBits") == Some("true"))
        .collect();
    assert_eq!(bit_items.len(), 8);
    for b in &bit_items {
        let offsets: Vec<_> = b
            .children()
            .filter(|c| c.has_tag_name("BitDataItem"))
            .map(|c| c.attribute("BitOffset").unwrap().to_string())
            .collect();
        assert_eq!(offsets, ["0", "1", "2", "3", "4", "5", "6", "7"]);
    }
    // every TextId is defined
    let defined: std::collections::HashSet<_> = find("Text")
        .iter()
        .map(|t| t.attribute("TextId").unwrap().to_string())
        .collect();
    for n in doc.descendants() {
        if let Some(id) = n.attribute("TextId") {
            if !n.has_tag_name("Text") {
                assert!(defined.contains(id), "TextId {id} undefined");
            }
        }
    }
    let timing = find("TimingProperties")[0];
    assert_eq!(timing.attribute("SendClock"), Some("32"));
    let dap_sm = find("VirtualSubmoduleItem")[0];
    assert_eq!(dap_sm.attribute("ID"), Some("DAP1_SM"));
    assert_eq!(dap_sm.attribute("Writeable_IM_Records"), Some("1 2 3"));
    // Every ModuleInfo — the DAP's and each module's — carries the *same* wire
    // identity as the I&M0 record: no per-module OrderNumber suffix, so what TIA
    // reads from the GSDML is what the device answers on 0xAFF0.
    let infos: Vec<_> = find("ModuleInfo")
        .into_iter()
        .filter(|n| {
            n.parent().is_some_and(|p| {
                p.has_tag_name("DeviceAccessPointItem") || p.has_tag_name("ModuleItem")
            })
        })
        .collect();
    assert_eq!(
        infos.len(),
        5,
        "1 DAP + 4 modules (a VirtualSubmoduleItem's own ModuleInfo carries names only)"
    );
    for info in &infos {
        let value = |tag: &str| {
            info.children()
                .find(|c| c.has_tag_name(tag))
                .unwrap_or_else(|| panic!("{tag} missing from a ModuleInfo"))
                .attribute("Value")
                .map(str::to_string)
        };
        assert_eq!(value("OrderNumber"), Some(cfg.im0().order_id.clone()));
        assert_eq!(
            value("HardwareRelease"),
            Some(cfg.im0().hardware_revision.to_string())
        );
        assert_eq!(value("SoftwareRelease"), Some("V0.1.0".to_string()));
    }
}

#[test]
fn interval_16_declares_both_send_clocks() {
    let cfg = DeviceConfig::builder("a")
        .min_device_interval(16)
        .input(Slot(1), &[Int])
        .build()
        .unwrap();
    let xml = render(&cfg, &meta());
    assert!(xml.contains("MinDeviceInterval=\"16\""));
    assert!(xml.contains("SendClock=\"16 32\""));
}

#[test]
fn mixed_submodule_renders_input_and_output_lists_and_a_partial_bit_group() {
    let cfg = DeviceConfig::builder("a")
        .submodule(Slot(5), "mixed", &[Int, Bool, Bool, Bool], &[Dint])
        .build()
        .unwrap();
    let xml = render(&cfg, &meta());
    let doc = roxmltree::Document::parse(&xml).unwrap();
    let input = doc.descendants().find(|n| n.has_tag_name("Input")).unwrap();
    let items: Vec<_> = input
        .children()
        .filter(|c| c.has_tag_name("DataItem"))
        .collect();
    assert_eq!(items[0].attribute("DataType"), Some("Integer16"));
    assert_eq!(items[1].attribute("DataType"), Some("Unsigned8"));
    assert_eq!(
        items[1]
            .children()
            .filter(|c| c.has_tag_name("BitDataItem"))
            .count(),
        3
    );
    let output = doc
        .descendants()
        .find(|n| n.has_tag_name("Output"))
        .unwrap();
    assert_eq!(
        output
            .children()
            .find(|c| c.has_tag_name("DataItem"))
            .unwrap()
            .attribute("DataType"),
        Some("Integer32")
    );
}

#[test]
fn names_are_escaped_in_the_document() {
    let cfg = DeviceConfig::builder("a")
        .submodule(Slot(1), "Tom & \"Jerry\" <1>", &[Int], &[])
        .build()
        .unwrap();
    let xml = render(&cfg, &meta());
    assert!(xml.contains("Tom &amp; &quot;Jerry&quot; &lt;1&gt;"));
    let doc = roxmltree::Document::parse(&xml).unwrap();
    assert!(doc
        .descendants()
        .any(|n| n.attribute("Value") == Some("Tom & \"Jerry\" <1>")));
}

#[test]
fn the_document_names_the_modules_of_the_model() {
    let cfg = sample();
    let doc = render(&cfg, &meta());
    let model = cfg.model(MacAddr([2, 0, 0, 0, 0, 1]));
    assert!(doc.contains(&format!("VendorID=\"0x{:04X}\"", model.vendor_id)));
    assert!(doc.contains(&format!("DeviceID=\"0x{:04X}\"", model.device_id)));
    assert_eq!(model.slots.len(), 5);
    for slot in &model.slots[1..] {
        let sub = &slot.submodules[0];
        assert!(doc.contains(&format!("ModuleIdentNumber=\"0x{:08X}\"", slot.module_ident)));
        assert!(doc.contains(&format!(
            "Slot {}: {} input bytes, {} output bytes",
            slot.slot, sub.input_len, sub.output_len
        )));
    }
}

/// The bytes that the `DataItem`s under a node declare.
fn data_bytes(node: roxmltree::Node) -> u16 {
    node.descendants()
        .filter(|n| n.has_tag_name("DataItem"))
        .map(|n| match n.attribute("DataType").unwrap() {
            "Unsigned8" => 1,
            "Integer16" | "Unsigned16" => 2,
            "Integer32" | "Float32" => 4,
            other => panic!("{other}"),
        })
        .sum()
}

#[test]
fn the_items_of_a_module_take_the_bytes_of_the_model() {
    let mixed = DeviceConfig::builder("mixed")
        .submodule(Slot(2), "all", &[Bool, Int, Bool, Real], &[Dint])
        .submodule(Slot(7), "<ModuleItem bits", &[Bool; 17], &[])
        .build()
        .unwrap();
    for cfg in [sample(), mixed] {
        let xml = render(&cfg, &meta());
        let doc = roxmltree::Document::parse(&xml).unwrap();
        let model = cfg.model(MacAddr([2, 0, 0, 0, 0, 1]));
        let items: Vec<_> = doc
            .descendants()
            .filter(|n| n.has_tag_name("ModuleItem"))
            .collect();
        assert_eq!(items.len(), model.slots.len() - 1);
        assert_eq!(xml.matches("<ModuleItem ").count(), items.len());
        for (item, slot) in items.iter().zip(&model.slots[1..]) {
            assert_eq!(
                item.attribute("ModuleIdentNumber"),
                Some(format!("0x{:08X}", slot.module_ident).as_str())
            );
            let sum = |tag: &str| -> u16 {
                item.descendants()
                    .filter(|n| n.has_tag_name(tag))
                    .map(data_bytes)
                    .sum()
            };
            assert_eq!(sum("Input"), slot.submodules[0].input_len);
            assert_eq!(sum("Output"), slot.submodules[0].output_len);
        }
    }
}

#[test]
fn the_text_table_holds_each_referenced_text_once() {
    let xml = render(&sample(), &meta());
    let doc = roxmltree::Document::parse(&xml).unwrap();
    let (texts, others): (Vec<_>, Vec<_>) = doc
        .descendants()
        .filter(|n| n.has_attribute("TextId"))
        .partition(|n| n.has_tag_name("Text"));
    let ids = |nodes: &[roxmltree::Node]| -> Vec<String> {
        let mut v: Vec<String> = nodes
            .iter()
            .map(|n| n.attribute("TextId").unwrap().to_string())
            .collect();
        v.sort();
        v
    };
    let defined = ids(&texts);
    let mut once = defined.clone();
    once.dedup();
    assert_eq!(defined, once);
    let mut referenced = ids(&others);
    referenced.dedup();
    assert_eq!(defined, referenced);
}

#[test]
fn text_ids_read_back_whatever_the_names() {
    let cfg = DeviceConfig::builder("a")
        .submodule(Slot(1), "<Text TextId=\"M9_Name", &[Int, Bool], &[])
        .submodule(Slot(7), " TextId=", &[], &[Bool, Bool])
        .build()
        .unwrap();
    let names = GsdmlMeta {
        vendor_name: "V TextId=".into(),
        product_family: "\" TextId=\"".into(),
        info_text: "<Text TextId=".into(),
        date: (2026, 8, 29),
    };
    let xml = render(&cfg, &names);
    // outside and inside of quotes take turns
    let parts: Vec<&str> = xml.split('"').collect();
    assert_eq!(parts.len() % 2, 1);
    let (mut refers, mut defines) = (vec![], vec![]);
    for pair in parts.chunks_exact(2) {
        if pair[0].ends_with("<Text TextId=") {
            defines.push(pair[1]);
        } else if pair[0].ends_with(" TextId=") {
            refers.push(pair[1]);
        }
    }
    let device = ["T_InfoText", "T_DAP_Name", "T_DAP_Info"];
    let again = ["T_DAP_Name", "T_DAP_Info", "T_Interface", "T_Port1"];
    let first = ["M1_Name", "M1_Info", "M1_In0", "M1_In1_bits", "M1_In1_b", "M1_Name", "M1_Info"];
    let second = ["M7_Name", "M7_Info", "M7_Out0_bits", "M7_Out0_b", "M7_Out1_b"];
    let end = ["M7_Name", "M7_Info"];
    assert_eq!(refers, [&device[..], &again[..], &first[..], &second[..], &end[..]].concat());
    let table = ["T_InfoText", "T_DAP_Name", "T_DAP_Info", "T_Interface", "T_Port1"];
    assert_eq!(defines, [&table[..], &first[..5], &second[..]].concat());
}
