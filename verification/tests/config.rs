//! Device configurations: layouts, checks, and what is derived from them.
#![allow(dead_code)]

use pnio::cm::{validate, ConnectReq, DeviceModel, SubmoduleModel};
use pnio::config::{
    layout, order_id_from_station_type, ConfigError, DeviceConfig, DeviceConfigBuilder, Direction,
    FieldRef, Slot, MAX_SUBMODULE_BYTES,
};
use pnio::data::FieldType::{self, Bool, Dint, Int, Real};
use pnio::eth::MacAddr;
use pnio::im::{Im0, ImError, SwRevision};
use pnio::rpc::Drep;
use pnio::rt::Layout;

/// The device and the controller of the reference exchange.
const MAC: MacAddr = MacAddr([0x8c, 0xf3, 0x19, 0xcd, 0x19, 0xf8]);
const CPU_MAC: MacAddr = MacAddr([0xec, 0x1c, 0x5d, 0x61, 0xe7, 0x3f]);
const AR_UUID: &str = "e5e1aecc-b133-4b4d-b187-cc68b0211ed2";
const READ_AR_UUID: &str = "ef796d60-ef2b-9946-b39e-8531f5b7f966";
const OBJECT: &str = "dea00000-6c97-11d1-8271-000100020493";
const CPU_OBJECT: &str = "dea00000-6c97-11d1-8271-1064010e002a";
const DEVICE_IF: &str = "dea00001-6c97-11d1-8271-00a02442df7d";
const CONTROLLER_IF: &str = "dea00002-6c97-11d1-8271-00a02442df7d";
const CPU_ACTIVITY: &str = "5c6e1f6a-0000-1010-a8c0-ec1c5d61e73f";
const SEED: &str = "14af198a-1234-1056-8079-8cf319cd19f8";

fn uuid_bytes(text: &str, little: bool) -> Vec<u8> {
    let hex: Vec<u8> = text.bytes().filter(|c| *c != b'-').collect();
    let mut b: Vec<u8> = hex
        .chunks(2)
        .map(|p| u8::from_str_radix(std::str::from_utf8(p).unwrap(), 16).unwrap())
        .collect();
    if little {
        b[..4].reverse();
        b[4..6].reverse();
        b[6..8].reverse();
    }
    b
}

fn put16(b: &mut Vec<u8>, v: u16) {
    b.extend_from_slice(&v.to_be_bytes());
}

fn put32(b: &mut Vec<u8>, v: u32) {
    b.extend_from_slice(&v.to_be_bytes());
}

fn block(block_type: u16, body: &[u8]) -> Vec<u8> {
    let mut b = Vec::new();
    put16(&mut b, block_type);
    put16(&mut b, body.len() as u16 + 2);
    b.extend_from_slice(&[1, 0]);
    b.extend_from_slice(body);
    b
}

fn iocr(kind: u16, frame_id: u16, data: &[(u16, u16, u16)], iocs: &[(u16, u16, u16)]) -> Vec<u8> {
    let mut b = Vec::new();
    for v in [kind, kind, 0x8892] {
        put16(&mut b, v);
    }
    put32(&mut b, 2);
    for v in [40, frame_id, 32, 32, 1, 0] {
        put16(&mut b, v);
    }
    put32(&mut b, 0xffff_ffff);
    for v in [3, 3, 0xc000, 0, 0, 0, 1] {
        put16(&mut b, v);
    }
    put32(&mut b, 0);
    for list in [data, iocs] {
        put16(&mut b, list.len() as u16);
        for o in list {
            put16(&mut b, o.0);
            put16(&mut b, o.1);
            put16(&mut b, o.2);
        }
    }
    block(0x0102, &b)
}

/// `(subslot, ident, properties, input length, output length)` of each submodule.
fn expected(slot: u16, module: u32, submodules: &[(u16, u32, u16, u16, u16)]) -> Vec<u8> {
    let mut b = Vec::new();
    put16(&mut b, 1);
    put32(&mut b, 0);
    put16(&mut b, slot);
    put32(&mut b, module);
    put16(&mut b, 0);
    put16(&mut b, submodules.len() as u16);
    for s in submodules {
        put16(&mut b, s.0);
        put32(&mut b, s.1);
        put16(&mut b, s.2);
        if s.2 != 2 {
            put16(&mut b, 1);
            put16(&mut b, s.3);
            b.extend_from_slice(&[1, 1]);
        }
        if s.2 >= 2 {
            put16(&mut b, 2);
            put16(&mut b, s.4);
            b.extend_from_slice(&[1, 1]);
        }
    }
    block(0x0104, &b)
}

fn connect_blocks() -> Vec<u8> {
    let name = b"plcxbbench.profinetxainterfacexb25fbd";
    let mut ar = Vec::new();
    put16(&mut ar, 1);
    ar.extend_from_slice(&uuid_bytes(AR_UUID, false));
    put16(&mut ar, 2);
    ar.extend_from_slice(&CPU_MAC.0);
    ar.extend_from_slice(&uuid_bytes(CPU_OBJECT, false));
    put32(&mut ar, 0x4000_0011);
    put16(&mut ar, 200);
    put16(&mut ar, 0x8892);
    put16(&mut ar, name.len() as u16);
    ar.extend_from_slice(name);
    let mut alarm = Vec::new();
    put16(&mut alarm, 1);
    put16(&mut alarm, 0x8892);
    put32(&mut alarm, 0);
    for v in [1, 3, 0, 256, 0xc000, 0xa000] {
        put16(&mut alarm, v);
    }
    [
        block(0x0101, &ar),
        iocr(
            1,
            0x8000,
            &[(0, 1, 0), (0, 0x8000, 1), (0, 0x8001, 2), (1, 1, 3), (3, 1, 6), (4, 1, 9)],
            &[(2, 1, 5), (3, 1, 8), (4, 1, 18)],
        ),
        iocr(
            2,
            0x8001,
            &[(2, 1, 4), (3, 1, 7), (4, 1, 10)],
            &[(0, 1, 0), (0, 0x8000, 1), (0, 0x8001, 2), (1, 1, 3), (3, 1, 6), (4, 1, 9)],
        ),
        expected(
            0,
            1,
            &[(1, 1, 0, 0, 0), (0x8000, 0x8000, 0, 0, 0), (0x8001, 0x8001, 0, 0, 0)],
        ),
        expected(1, 0x30, &[(1, 0x130, 1, 1, 0)]),
        expected(2, 0x31, &[(1, 0x131, 2, 0, 1)]),
        expected(3, 0x32, &[(1, 0x132, 3, 1, 1)]),
        expected(4, 0x40, &[(1, 0x140, 3, 8, 8)]),
        block(0x0103, &alarm),
    ]
    .concat()
}

fn connect_res_blocks() -> Vec<u8> {
    let mut ar = Vec::new();
    put16(&mut ar, 1);
    ar.extend_from_slice(&uuid_bytes(AR_UUID, false));
    put16(&mut ar, 2);
    ar.extend_from_slice(&MAC.0);
    put16(&mut ar, 0x8892);
    [
        block(0x8101, &ar),
        block(0x8102, &[0, 1, 0, 1, 0x80, 0x00]),
        block(0x8102, &[0, 2, 0, 2, 0x80, 0x01]),
        block(0x8103, &[0, 1, 0, 0, 0, 200]),
        block(0x8106, b"\x00\x0brt-labs-dev\x00"),
    ]
    .concat()
}

/// A record header and its data: `(api, slot, subslot)` and index.
fn record(block_type: u16, seq: u16, at: (u32, u16, u16), index: u16, data: &[u8]) -> Vec<u8> {
    let mut b = Vec::new();
    put16(&mut b, seq);
    b.extend_from_slice(&uuid_bytes(AR_UUID, false));
    put32(&mut b, at.0);
    put16(&mut b, at.1);
    put16(&mut b, at.2);
    put16(&mut b, 0);
    put16(&mut b, index);
    put32(&mut b, data.len() as u32);
    b.resize(58, 0);
    let mut r = block(block_type, &b);
    r.extend_from_slice(data);
    r
}

fn write_blocks() -> Vec<u8> {
    let nested = [
        record(
            8,
            1,
            (0, 0, 0x8000),
            0x8071,
            &[0x02, 0x50, 0x00, 0x08, 0x01, 0x00, 0x00, 0x00, 0x00, 0x00, 0x00, 0x01],
        ),
        record(8, 2, (0, 3, 1), 0x7b, &[0, 0, 0, 1]),
        record(8, 3, (0, 3, 1), 0x7c, &[0, 0, 0, 2]),
        record(8, 4, (0, 4, 1), 0x7d, &[0, 0, 0, 2]),
    ]
    .concat();
    record(8, 0, (0xffff_ffff, 0xffff, 0xffff), 0xe040, &nested)
}

fn write_res_blocks() -> Vec<u8> {
    [
        record(0x8008, 0, (0xffff_ffff, 0xffff, 0xffff), 0xe040, &[]),
        record(0x8008, 1, (0, 0, 0x8000), 0x8071, &[]),
        record(0x8008, 2, (0, 3, 1), 0x7b, &[]),
        record(0x8008, 3, (0, 3, 1), 0x7c, &[]),
        record(0x8008, 4, (0, 4, 1), 0x7d, &[]),
    ]
    .concat()
}

fn control(block_type: u16, command: u16) -> Vec<u8> {
    let mut b = vec![0, 0];
    b.extend_from_slice(&uuid_bytes(AR_UUID, false));
    for v in [2, 0, command, 0] {
        put16(&mut b, v);
    }
    block(block_type, &b)
}

fn read_blocks(slot: u16, subslot: u16) -> Vec<u8> {
    let mut b = vec![0, 7];
    b.extend_from_slice(&uuid_bytes(READ_AR_UUID, false));
    put32(&mut b, 0);
    for v in [slot, subslot, 0, 0xaff0] {
        put16(&mut b, v);
    }
    put32(&mut b, 0x8000);
    b.resize(58, 0);
    block(0x0009, &b)
}

/// The identity of the reference device and the I&M0 record it answers.
fn pnet_im0() -> Im0 {
    Im0 {
        order_id: "12345 Abcdefghijk".into(),
        serial_number: "007".into(),
        hardware_revision: 3,
        software_revision: SwRevision {
            prefix: 'V',
            functional: 0,
            bug_fix: 2,
            internal: 0,
        },
        revision_counter: 0,
        profile_id: 0x1234,
        profile_specific_type: 0x5678,
    }
}

fn pnet_im0_record() -> Vec<u8> {
    let mut b = vec![0x04, 0x93];
    b.extend_from_slice(b"12345 Abcdefghijk   ");
    b.extend_from_slice(b"007             ");
    b.extend_from_slice(&[0, 3, b'V', 0, 2, 0, 0, 0, 0x12, 0x34, 0x56, 0x78, 1, 1, 0, 0x0e]);
    block(0x0020, &b)
}

fn read_res_blocks(slot: u16, subslot: u16) -> Vec<u8> {
    let data = pnet_im0_record();
    let mut b = vec![0, 7];
    b.extend_from_slice(&uuid_bytes(READ_AR_UUID, false));
    put32(&mut b, 0);
    for v in [slot, subslot, 0, 0xaff0] {
        put16(&mut b, v);
    }
    put32(&mut b, data.len() as u32);
    b.resize(58, 0);
    [block(0x8009, &b), data].concat()
}

/// A DCE-RPC PDU: header, the NDR words, and blocks.
struct Pdu<'a> {
    response: bool,
    little: bool,
    flags: u8,
    object: &'a str,
    interface: &'a str,
    activity: &'a str,
    seq: u32,
    opnum: u16,
    first_word: u32,
    max_count: u32,
    blocks: Vec<u8>,
}

fn pdu_bytes(p: &Pdu) -> Vec<u8> {
    let w16 = |v: u16| if p.little { v.to_le_bytes() } else { v.to_be_bytes() };
    let w32 = |v: u32| if p.little { v.to_le_bytes() } else { v.to_be_bytes() };
    let mut b = vec![4, if p.response { 2 } else { 0 }, p.flags, 0];
    b.extend_from_slice(&[if p.little { 0x10 } else { 0 }, 0, 0, 0]);
    for u in [p.object, p.interface, p.activity] {
        b.extend_from_slice(&uuid_bytes(u, p.little));
    }
    for v in [0, 1, p.seq] {
        b.extend_from_slice(&w32(v));
    }
    for v in [p.opnum, 0xffff, 0xffff, 20 + p.blocks.len() as u16, 0] {
        b.extend_from_slice(&w16(v));
    }
    b.extend_from_slice(&[0, 0]);
    let n = p.blocks.len() as u32;
    for v in [p.first_word, n, p.max_count, 0, n] {
        b.extend_from_slice(&w32(v));
    }
    b.extend_from_slice(&p.blocks);
    b
}

/// A request of the controller, little-endian.
fn request(seq: u32, opnum: u16, blocks: Vec<u8>) -> Vec<u8> {
    let n = blocks.len() as u32;
    pdu_bytes(&Pdu {
        response: false,
        little: true,
        flags: 0x20,
        object: OBJECT,
        interface: DEVICE_IF,
        activity: CPU_ACTIVITY,
        seq,
        opnum,
        first_word: n,
        max_count: n,
        blocks,
    })
}

/// The device's answer to such a request, big-endian.
fn response(seq: u32, opnum: u16, request_len: u32, blocks: Vec<u8>) -> Vec<u8> {
    pdu_bytes(&Pdu {
        response: true,
        little: false,
        flags: 0x28,
        object: OBJECT,
        interface: DEVICE_IF,
        activity: CPU_ACTIVITY,
        seq,
        opnum,
        first_word: 0,
        max_count: request_len,
        blocks,
    })
}

fn pdu(name: &str) -> Vec<u8> {
    match name {
        "connect_req" => request(0, 0, connect_blocks()),
        "connect_res" => response(0, 0, 557, connect_res_blocks()),
        "write_req" => request(1, 3, write_blocks()),
        "write_res" => response(1, 3, 344, write_res_blocks()),
        "prmend_req" => request(2, 4, control(0x0110, 1)),
        "prmend_res" => response(2, 4, 32, control(0x8110, 8)),
        "appready_req" => pdu_bytes(&Pdu {
            response: false,
            little: false,
            flags: 0x20,
            object: CPU_OBJECT,
            interface: CONTROLLER_IF,
            activity: SEED,
            seq: 0,
            opnum: 4,
            first_word: 1340,
            max_count: 1340,
            blocks: control(0x0112, 2),
        }),
        "appready_res" => pdu_bytes(&Pdu {
            response: true,
            little: true,
            flags: 0x0a,
            object: CPU_OBJECT,
            interface: CONTROLLER_IF,
            activity: SEED,
            seq: 0,
            opnum: 4,
            first_word: 0,
            max_count: 1340,
            blocks: control(0x8112, 8),
        }),
        "im0_read_req" => request(0x40, 2, read_blocks(0, 1)),
        "im0_read_res" => response(0x40, 2, 64, read_res_blocks(0, 1)),
        "im0_read_req_if" => request(0x41, 2, read_blocks(0, 0x8000)),
        "im0_read_res_if" => response(0x41, 2, 64, read_res_blocks(0, 0x8000)),
        _ => panic!("no pdu {name}"),
    }
}


/// The blocks of a Connect request for `model`: DAP IOxS first, then per slot data + IOxS,
/// IOCS of the opposite direction last.
fn synthetic_connect_blocks(model: &DeviceModel) -> Vec<u8> {
    let reference = connect_blocks();
    let ar_len = 6 + 52 + 37;
    let mut blocks = reference[..ar_len].to_vec();
    let (mut in_data, mut in_iocs, mut out_data, mut out_iocs) = (vec![], vec![], vec![], vec![]);
    let (mut in_off, mut out_off): (u16, u16) = (0, 0);
    for s in &model.slots {
        for sm in &s.submodules {
            if sm.input_len > 0 || s.slot == 0 {
                in_data.push((s.slot, sm.subslot, in_off));
                in_off += sm.input_len + 1;
                out_iocs.push((s.slot, sm.subslot, out_off));
                out_off += 1;
            }
            if sm.output_len > 0 {
                out_data.push((s.slot, sm.subslot, out_off));
                out_off += sm.output_len + 1;
                in_iocs.push((s.slot, sm.subslot, in_off));
                in_off += 1;
            }
        }
    }
    let cr = |kind: u16, frame_id: u16, len: u16, data: &[(u16, u16, u16)], iocs: &[(u16, u16, u16)]| {
        let mut b = iocr(kind, frame_id, data, iocs);
        b[16..18].copy_from_slice(&len.max(40).to_be_bytes());
        b[22..24].copy_from_slice(&1u16.to_be_bytes()); // reduction ratio (1 ms)
        b
    };
    blocks.extend(cr(1, 0x8000, in_off, &in_data, &in_iocs));
    blocks.extend(cr(2, 0x8001, out_off, &out_data, &out_iocs));
    for s in &model.slots {
        let submodules: Vec<(u16, u32, u16, u16, u16)> = s
            .submodules
            .iter()
            .map(|sm| {
                let props = match (sm.input_len > 0, sm.output_len > 0) {
                    (false, false) => 0,
                    (true, false) => 1,
                    (false, true) => 2,
                    (true, true) => 3,
                };
                (sm.subslot, sm.submodule_ident, props, sm.input_len, sm.output_len)
            })
            .collect();
        blocks.extend(expected(s.slot, s.module_ident, &submodules));
    }
    blocks.extend_from_slice(&reference[reference.len() - 26..]);
    blocks
}

fn refs(v: &[(u16, u8, FieldType)]) -> Vec<FieldRef> {
    v.iter()
        .map(|&(byte, bit, ty)| FieldRef { byte, bit, ty })
        .collect()
}

#[test]
fn layout_mixes_bools_and_byte_types_in_declaration_order() {
    let (f, len) = layout(&[Real, Bool, Bool, Int, Bool]);
    assert_eq!(
        f,
        refs(&[
            (0, 0, Real),
            (4, 0, Bool),
            (4, 1, Bool),
            (5, 0, Int),
            (7, 0, Bool)
        ])
    );
    assert_eq!(len, 8);
}

#[test]
fn layout_packs_bools_eight_per_byte() {
    assert_eq!(layout(&[Bool; 32]).1, 4);
    let (f, len) = layout(&[Bool; 9]);
    assert_eq!(len, 2);
    assert_eq!(
        f[8],
        FieldRef {
            byte: 1,
            bit: 0,
            ty: Bool
        }
    );
    assert_eq!(layout(&[Bool, Int, Bool]).1, 4);
    assert_eq!(layout(&[]).1, 0);
}

fn sample() -> DeviceConfig {
    DeviceConfig::builder("pnio-dev")
        .input(Slot(1), &[Real; 16])
        .input(Slot(2), &[Bool; 32])
        .output(Slot(3), &[Real; 16])
        .output(Slot(4), &[Bool; 32])
        .build()
        .unwrap()
}

#[test]
fn builder_defaults_and_getters() {
    let cfg = sample();
    assert_eq!(cfg.station_name(), "pnio-dev");
    assert_eq!(cfg.station_type(), "pnio device");
    assert_eq!((cfg.vendor_id(), cfg.device_id()), (0xFFFF, 0x0001));
    assert_eq!(cfg.min_device_interval(), 32);
    assert_eq!(cfg.submodules().len(), 4);
    assert_eq!(cfg.input_len(Slot(1)), Some(64));
    assert_eq!(cfg.output_len(Slot(1)), Some(0));
    assert_eq!(cfg.output_len(Slot(4)), Some(4));
    assert_eq!(
        cfg.submodule(Slot(2)).unwrap().direction(),
        Direction::Input
    );
    assert_eq!(
        cfg.field(Slot(2), Direction::Input, 31),
        Some(FieldRef {
            byte: 3,
            bit: 7,
            ty: Bool
        })
    );
    assert_eq!(cfg.field(Slot(2), Direction::Input, 32), None);
    assert_eq!(cfg.field(Slot(2), Direction::Output, 0), None);
    assert_eq!(cfg.fields(Slot(3), Direction::Output).unwrap().len(), 16);
    assert_eq!(cfg.fields(Slot(9), Direction::Output), None);
}

#[test]
fn cr_lengths_include_the_iops_iocs_bytes() {
    let cfg = sample();
    assert_eq!((cfg.input_cr_len(), cfg.output_cr_len()), (75, 75));

    let one_bool = DeviceConfig::builder("a")
        .input(Slot(1), &[Bool])
        .build()
        .unwrap();
    assert_eq!((one_bool.input_cr_len(), one_bool.output_cr_len()), (5, 4));
}

#[test]
fn slots_are_sorted_regardless_of_insertion_order() {
    let cfg = DeviceConfig::builder("a")
        .output(Slot(4), &[Bool])
        .input(Slot(1), &[Int])
        .build()
        .unwrap();
    let slots: Vec<u16> = cfg.submodules().iter().map(|s| s.slot.0).collect();
    assert_eq!(slots, vec![1, 4]);
}

#[test]
fn mixed_submodule_has_both_directions() {
    let cfg = DeviceConfig::builder("a")
        .submodule(Slot(5), "mixed", &[Int, Bool], &[Dint])
        .build()
        .unwrap();
    let sm = cfg.submodule(Slot(5)).unwrap();
    assert_eq!(sm.direction(), Direction::InputOutput);
    assert_eq!(
        (cfg.input_len(Slot(5)), cfg.output_len(Slot(5))),
        (Some(3), Some(4))
    );
    assert_eq!(sm.name, "mixed");
}

#[test]
fn every_config_error_is_reported() {
    let e = |b: DeviceConfigBuilder| b.build().unwrap_err();
    assert_eq!(
        e(DeviceConfig::builder("a").input(Slot(0), &[Bool])),
        ConfigError::SlotZeroReserved
    );
    assert_eq!(
        e(DeviceConfig::builder("a")
            .input(Slot(1), &[Bool])
            .output(Slot(1), &[Bool])),
        ConfigError::DuplicateSlot(1)
    );
    assert_eq!(
        e(DeviceConfig::builder("a").input(Slot(1), &[])),
        ConfigError::EmptySubmodule(1)
    );
    assert_eq!(e(DeviceConfig::builder("a")), ConfigError::NoSubmodule);
    assert_eq!(
        e(DeviceConfig::builder("a").input(Slot(1), &[Real; 361])),
        ConfigError::TooLong {
            slot: 1,
            bytes: 1444,
            max: MAX_SUBMODULE_BYTES
        }
    );
    for bad in [
        "Edge_01",
        "-edge",
        "edge-",
        "123",
        "",
        "a..b",
        "édge",
        "123.456",
        "port-001",
        "port-001-12345",
    ] {
        assert_eq!(
            e(DeviceConfig::builder(bad).input(Slot(1), &[Bool])),
            ConfigError::BadStationName(bad.to_string()),
            "{bad}"
        );
    }
    assert!(DeviceConfig::builder("edge-reg-01.plant2")
        .input(Slot(1), &[Bool])
        .build()
        .is_ok());
    assert!(DeviceConfig::builder("port-a")
        .input(Slot(1), &[Bool])
        .build()
        .is_ok());
    assert_eq!(
        e(DeviceConfig::builder("a")
            .min_device_interval(24)
            .input(Slot(1), &[Bool])),
        ConfigError::BadInterval(24)
    );
    assert_eq!(
        e(DeviceConfig::builder("a")
            .min_device_interval(64)
            .input(Slot(1), &[Bool])),
        ConfigError::BadInterval(64)
    );
    assert_eq!(
        e(DeviceConfig::builder("a")
            .identity(0, 1)
            .input(Slot(1), &[Bool])),
        ConfigError::BadIdentity
    );
}

#[test]
fn total_csdu_over_1440_bytes_is_rejected() {
    // Two 720-byte input slots: 3 (DAP IOPS) + (720+1)*2 = 1445 > 1440.
    let e = DeviceConfig::builder("a")
        .input(Slot(1), &[Real; 180])
        .input(Slot(2), &[Real; 180])
        .build()
        .unwrap_err();
    assert_eq!(
        e,
        ConfigError::TooLongTotal {
            direction: Direction::Input,
            bytes: 1445,
            max: MAX_SUBMODULE_BYTES,
        }
    );
    // The sample config (75/75 bytes, see layout_from_ar_accepts_the_derived_model)
    // stays well under the guard.
    assert!(sample().input_len(Slot(1)).is_some());
}

#[test]
fn station_name_is_lowercased_on_input() {
    // TIA lowercases; we accept mixed case and normalize so the DCP answer matches.
    let cfg = DeviceConfig::builder("Pnio-Dev")
        .input(Slot(1), &[Bool])
        .build()
        .unwrap();
    assert_eq!(cfg.station_name(), "pnio-dev");
}

#[test]
fn model_is_derived_deterministically() {
    let mac = MacAddr([0x8c, 0xf3, 0x19, 0xcd, 0x19, 0xf8]);
    let m = sample().model(mac);
    let dap = DeviceModel::pnet_sample(mac);
    assert_eq!(m.slots[0], dap.slots[0]); // DAP identical to the rt-labs profile
    assert_eq!((m.vendor_id, m.device_id, m.instance), (0xFFFF, 0x0001, 1));
    assert_eq!(m.station_name, "pnio-dev");
    assert_eq!(m.max_alarm_data_length, 200);
    let idents: Vec<(u16, u32)> = m.slots[1..]
        .iter()
        .map(|s| (s.slot, s.module_ident))
        .collect();
    assert_eq!(idents, vec![(1, 0x101), (2, 0x102), (3, 0x103), (4, 0x104)]);
    assert_eq!(
        m.slots[1].submodules,
        vec![SubmoduleModel {
            subslot: 1,
            submodule_ident: 0x1,
            input_len: 64,
            output_len: 0
        }]
    );
    assert_eq!(m.find(4, 1).unwrap().output_len, 4);
}

#[test]
fn dcp_properties_and_setup_carry_the_identity() {
    let mac = MacAddr([0x8c, 0xf3, 0x19, 0xcd, 0x19, 0xf8]);
    let cfg = sample();
    let p = cfg.dcp_properties([172, 16, 2, 10]);
    assert_eq!(
        (p.vendor_id, p.device_id, p.device_role, p.device_instance),
        (0xFFFF, 1, 0x0100, 1)
    );
    assert_eq!(p.name_of_station, "pnio-dev");
    assert_eq!(p.type_of_station, "pnio device");
    assert_eq!(
        (p.ip, p.subnet, p.gateway, p.ip_block_info),
        ([172, 16, 2, 10], [255, 255, 255, 0], [172, 16, 2, 10], 1)
    );
    assert_eq!(p.device_options, vec![1, 2, 2, 2, 2, 3]);
    let s = cfg.setup(mac, [172, 16, 2, 10], None);
    assert_eq!(s.dcp.mac, mac);
    assert_eq!(s.model, cfg.model(mac));
    let mut seed = Vec::new();
    s.activity_seed.write(&mut seed, Drep::big());
    assert_eq!(seed[10..], mac.0);
    assert!(s.rt.is_none());
}

#[test]
fn builder_accepts_im0_and_rejects_bad_ones() {
    let e = DeviceConfig::builder("a")
        .input(Slot(1), &[Bool])
        .im0(Im0 {
            order_id: "x".repeat(21),
            ..Im0::default()
        })
        .build()
        .unwrap_err();
    assert_eq!(
        e,
        ConfigError::Im(ImError::TooLong {
            field: "order_id",
            max: 20
        })
    );

    let custom = Im0 {
        order_id: "test order".into(),
        ..Im0::default()
    };
    let cfg = DeviceConfig::builder("a")
        .input(Slot(1), &[Bool])
        .im0(custom.clone())
        .build()
        .unwrap();
    assert_eq!(cfg.im0(), &custom);

    // Default serial number is derived from the MAC when left blank.
    let mac = MacAddr([0x8c, 0xf3, 0x19, 0xcd, 0x19, 0xf8]);
    let s = sample().setup(mac, [172, 16, 2, 10], None);
    assert_eq!(s.im0.serial_number, "PNIO-CD19F8");
}

#[test]
fn default_im0_takes_its_order_id_from_the_station_type() {
    let cfg = DeviceConfig::builder("a")
        .station_type("Foo")
        .input(Slot(1), &[Bool])
        .build()
        .unwrap();
    assert_eq!(cfg.im0().order_id, "Foo");
    // Everything else stays `Im0::default()`.
    assert_eq!(
        cfg.im0(),
        &Im0 {
            order_id: "Foo".into(),
            ..Im0::default()
        }
    );

    // Longer than the 20-byte OrderID field: truncated, not a build error.
    let cfg = DeviceConfig::builder("a")
        .station_type("a station type far longer than twenty bytes")
        .input(Slot(1), &[Bool])
        .build()
        .unwrap();
    assert_eq!(cfg.im0().order_id, "a station type far l");

    // An explicit `im0` still wins, whatever the station type.
    let cfg = DeviceConfig::builder("a")
        .station_type("Foo")
        .input(Slot(1), &[Bool])
        .im0(Im0 {
            order_id: "Bar".into(),
            ..Im0::default()
        })
        .build()
        .unwrap();
    assert_eq!(cfg.im0().order_id, "Bar");

    // `Im0::default()` itself is untouched for direct users.
    assert_eq!(Im0::default().order_id, "pnio device");
}

#[test]
fn layout_from_ar_accepts_the_derived_model() {
    let mac = MacAddr([0x8c, 0xf3, 0x19, 0xcd, 0x19, 0xf8]);
    let model = sample().model(mac);
    let req = ConnectReq::parse(&synthetic_connect_blocks(&model)).unwrap();
    let params = validate(&req, &model).unwrap();
    let layout = Layout::from_ar(&params, &model).unwrap();
    // Input CR: DAP IOPS ×3 (offsets 0,1,2), then slot 1 data@3 (64 B)+IOPS@67,
    // slot 2 data@68 (4 B)+IOPS@72, IOCS for slots 3 and 4 at 73, 74 -> 75 bytes.
    assert_eq!(layout.input_cr.data_length, 75);
    assert_eq!(layout.output_cr.data_length, 75);
    let s1 = layout
        .input_cr
        .objects
        .iter()
        .find(|o| o.slot == 1)
        .unwrap();
    assert_eq!((s1.data_off, s1.data_len, s1.iops_off), (3, 64, 67));
}

#[test]
fn empty_or_non_ascii_station_type_falls_back_to_the_default_order_id() {
    assert_eq!(order_id_from_station_type(""), Im0::default().order_id);
    assert_eq!(order_id_from_station_type("   "), Im0::default().order_id);
    assert_eq!(order_id_from_station_type("éèà"), Im0::default().order_id);
    assert_eq!(order_id_from_station_type("Foo"), "Foo");
    assert_eq!(order_id_from_station_type(&"x".repeat(30)), "x".repeat(20));
}

#[test]
fn fields_of_a_submodule_lie_apart() {
    let (fields, len) = layout(&[Bool, Int, Bool, Bool, Dint, Real, Bool]);
    for (i, a) in fields.iter().enumerate() {
        let size = |f: &FieldRef| match f.ty {
            Bool => 1,
            Int | FieldType::Word => 2,
            Dint | Real => 4,
        };
        assert!(a.byte + size(a) <= len);
        for b in &fields[..i] {
            assert!(
                b.byte + size(b) <= a.byte
                    || (a.byte == b.byte && a.ty == Bool && b.ty == Bool && a.bit != b.bit)
            );
        }
    }
}
