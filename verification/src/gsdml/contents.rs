//! What a rendered document says, in the words that stand in it: the device, its data and its
//! fields.

use vstd::prelude::*;

use crate::config;
use crate::config::FieldRef;
use crate::data::FieldType;
use crate::gsdml::tags;
use crate::gsdml::template;
use crate::gsdml::{self, GsdmlMeta, TextView};
use crate::im;
use crate::text;

verus! {

/// Whether `x` stands somewhere in `doc`.
pub open spec fn holds(doc: Seq<char>, x: Seq<char>) -> bool {
    exists|a: Seq<char>, b: Seq<char>| doc == #[trigger] (a + x + b)
}

proof fn lemma_whole(x: Seq<char>)
    ensures
        holds(x, x),
{
    let none = Seq::<char>::empty();
    assert(x =~= none + x + none);
}

proof fn lemma_middle(a: Seq<char>, x: Seq<char>, b: Seq<char>)
    ensures
        holds(a + x + b, x),
{
}

proof fn lemma_left(a: Seq<char>, b: Seq<char>, x: Seq<char>)
    requires
        holds(a, x),
    ensures
        holds(a + b, x),
{
    let (p, q) = choose|p: Seq<char>, q: Seq<char>| a == #[trigger] (p + x + q);
    assert(a + b =~= p + x + (q + b));
}

proof fn lemma_right(a: Seq<char>, b: Seq<char>, x: Seq<char>)
    requires
        holds(b, x),
    ensures
        holds(a + b, x),
{
    let (p, q) = choose|p: Seq<char>, q: Seq<char>| b == #[trigger] (p + x + q);
    assert(a + b =~= (a + p) + x + q);
}

/// What stands in one of the parts of a document stands in it.
proof fn lemma_in_a_part(cfg: config::ConfigView, meta: GsdmlMeta, x: Seq<char>)
    requires
        ({
            let n = cfg.submodules.len() as int;
            ||| holds(gsdml::device_identity(cfg, meta), x)
            ||| holds(gsdml::access_point(cfg, meta), x)
            ||| holds(gsdml::access_point_data(cfg), x)
            ||| holds(gsdml::ref_lines(cfg.submodules, n), x)
            ||| holds(
                template::SEND_CLOCK@ + gsdml::send_clocks(cfg.min_device_interval)
                    + template::MODULES@,
                x,
            )
            ||| holds(gsdml::modules_text(cfg, n), x)
            ||| holds(gsdml::text_lines(gsdml::document_texts(cfg, meta)), x)
        }),
    ensures
        holds(gsdml::document(cfg, meta), x),
{
    let n = cfg.submodules.len() as int;
    let (d1, d2, d3) = (
        gsdml::device_identity(cfg, meta),
        gsdml::access_point(cfg, meta),
        gsdml::access_point_data(cfg),
    );
    let d4 = gsdml::ref_lines(cfg.submodules, n);
    let (s, c, m) = (
        template::SEND_CLOCK@,
        gsdml::send_clocks(cfg.min_device_interval),
        template::MODULES@,
    );
    let (t1, t2) = (gsdml::modules_text(cfg, n), template::TEXTS@);
    let (t3, t4) = (gsdml::text_lines(gsdml::document_texts(cfg, meta)), template::EPILOG@);
    let back = t1 + t2 + t3 + t4;
    if holds(t1, x) || holds(t3, x) {
        if holds(t1, x) {
            lemma_left(t1, t2, x);
            lemma_left(t1 + t2, t3, x);
        } else {
            lemma_right(t1 + t2, t3, x);
        }
        lemma_left(t1 + t2 + t3, t4, x);
        lemma_right(d1 + d2 + d3 + d4 + s + c + m, back, x);
    } else {
        if holds(s + c + m, x) {
            lemma_right(d1 + d2 + d3 + d4, s + c + m, x);
            lemma_regroup(d1 + d2 + d3 + d4, s, c, m);
        } else {
            if holds(d1, x) {
                lemma_left(d1, d2, x);
                lemma_left(d1 + d2, d3, x);
                lemma_left(d1 + d2 + d3, d4, x);
            } else if holds(d2, x) {
                lemma_right(d1, d2, x);
                lemma_left(d1 + d2, d3, x);
                lemma_left(d1 + d2 + d3, d4, x);
            } else if holds(d3, x) {
                lemma_right(d1 + d2, d3, x);
                lemma_left(d1 + d2 + d3, d4, x);
            } else {
                lemma_right(d1 + d2 + d3, d4, x);
            }
            lemma_left(d1 + d2 + d3 + d4, s, x);
            lemma_left(d1 + d2 + d3 + d4 + s, c, x);
            lemma_left(d1 + d2 + d3 + d4 + s + c, m, x);
        }
        lemma_left(d1 + d2 + d3 + d4 + s + c + m, back, x);
    }
}

proof fn lemma_regroup(a: Seq<char>, b: Seq<char>, c: Seq<char>, d: Seq<char>)
    ensures
        a + (b + c + d) == a + b + c + d,
{
    assert(a + (b + c + d) =~= a + b + c + d);
}

/// `a` in front of and `b` behind what stands between two parts.
proof fn lemma_between(p: Seq<char>, a: Seq<char>, v: Seq<char>, b: Seq<char>, q: Seq<char>)
    ensures
        holds((p + a) + v + (b + q), a + v + b),
{
    lemma_middle(p, a + v + b, q);
    assert((p + a) + v + (b + q) =~= p + (a + v + b) + q);
}

/// The document names the lengths of the device's data, each direction by its own: what the
/// Input CR takes, what the Output CR takes, and both together.
#[verifier::spinoff_prover]
pub proof fn the_document_names_the_lengths(cfg: config::ConfigView, meta: GsdmlMeta)
    ensures
        ({
            let n = cfg.submodules.len() as int;
            let (input, output) = (
                config::input_cr_bytes(cfg.submodules, n),
                config::output_cr_bytes(cfg.submodules, n),
            );
            holds(
                gsdml::document(cfg, meta),
                r#"<IOConfigData MaxInputLength=""#@ + text::dec_text(input) + r#"" MaxOutputLength=""#@ + text::dec_text(output)
                    + r#"" MaxDataLength=""#@ + text::dec_text(input + output) + r#""/>"#@,
            )
        }),
{
    let n = cfg.submodules.len() as int;
    let (input, output) = (
        config::input_cr_bytes(cfg.submodules, n),
        config::output_cr_bytes(cfg.submodules, n),
    );
    reveal_strlit(r#"
          </ModuleInfo>
          <IOConfigData MaxInputLength=""#);
    reveal_strlit(r#"<IOConfigData MaxInputLength=""#);
    assert(template::MAX_INPUT@ =~= template::MAX_INPUT@.take(35) + r#"<IOConfigData MaxInputLength=""#@);
    reveal_strlit(r#""/>
          <UseableModules>
"#);
    reveal_strlit(r#""/>"#);
    assert(template::USEABLE@ =~= r#""/>"#@ + template::USEABLE@.skip(3));
    let front = template::DAP_IDENTITY@ + gsdml::identity_text(cfg.im0)
        + template::MAX_INPUT@.take(35);
    let x = r#"<IOConfigData MaxInputLength=""#@ + text::dec_text(input) + r#"" MaxOutputLength=""#@ + text::dec_text(output) + r#"" MaxDataLength=""#@
        + text::dec_text(input + output) + r#""/>"#@;
    assert(gsdml::access_point_data(cfg) =~= front + x + template::USEABLE@.skip(3));
    lemma_middle(front, x, template::USEABLE@.skip(3));
    lemma_in_a_part(cfg, meta, x);
}

/// The document names the slots, the update interval and the station's name.
#[verifier::spinoff_prover]
pub proof fn the_document_names_the_station(cfg: config::ConfigView, meta: GsdmlMeta)
    ensures
        holds(
            gsdml::document(cfg, meta),
            r#" PhysicalSlots="0.."#@ + text::dec_text(cfg.submodules.last().slot.0 as int)
                + r#"" ModuleIdentNumber="0x00000001" MinDeviceInterval=""#@
                + text::dec_text(cfg.min_device_interval as int) + r#"" DNS_CompatibleName=""#@
                + gsdml::escaped(cfg.station_name) + r#"" FixedInSlots="0""#@,
        ),
{
    reveal_strlit(r#""/>
    </DeviceFunction>
    <ApplicationProcess>
      <DeviceAccessPointList>
        <DeviceAccessPointItem ID="DAP1" PNIO_Version="V2.3" PhysicalSlots="0.."#);
    reveal_strlit(r#" PhysicalSlots="0.."#);
    assert(template::SLOTS@ =~= template::SLOTS@.take(141) + r#" PhysicalSlots="0.."#@);
    reveal_strlit(r#"" FixedInSlots="0" ObjectUUID_LocalIndex="1" MultipleWriteSupported="true" DeviceAccessSupported="false" CheckDeviceID_Allowed="true" NameOfStationNotTransferable="false">
          <ModuleInfo>
            <Name TextId="T_DAP_Name"/>
            <InfoText TextId="T_DAP_Info"/>
            <VendorName Value=""#);
    reveal_strlit(r#"" FixedInSlots="0""#);
    assert(template::DAP_VENDOR@ =~= r#"" FixedInSlots="0""#@ + template::DAP_VENDOR@.skip(18));
    let x = r#" PhysicalSlots="0.."#@ + text::dec_text(cfg.submodules.last().slot.0 as int)
        + r#"" ModuleIdentNumber="0x00000001" MinDeviceInterval=""#@
        + text::dec_text(cfg.min_device_interval as int) + r#"" DNS_CompatibleName=""#@
        + gsdml::escaped(cfg.station_name) + r#"" FixedInSlots="0""#@;
    let front = template::SLOTS@.take(141);
    let back = template::DAP_VENDOR@.skip(18) + gsdml::escaped(meta.vendor_name@);
    assert(gsdml::access_point(cfg, meta) =~= front + x + back);
    lemma_middle(front, x, back);
    lemma_in_a_part(cfg, meta, x);
}

/// The document names the vendor and the product family.
#[verifier::spinoff_prover]
pub proof fn the_document_names_vendor_and_family(cfg: config::ConfigView, meta: GsdmlMeta)
    ensures
        holds(
            gsdml::device_identity(cfg, meta) + gsdml::access_point(cfg, meta),
            r#"<VendorName Value=""#@ + gsdml::escaped(meta.vendor_name@) + r#""/>
    </DeviceIdentity>"#@,
        ),
        holds(
            gsdml::device_identity(cfg, meta) + gsdml::access_point(cfg, meta),
            r#"ProductFamily=""#@ + gsdml::escaped(meta.product_family@) + r#""/>
    </DeviceFunction>"#@,
        ),
        (gsdml::device_identity(cfg, meta) + gsdml::access_point(cfg, meta)).is_prefix_of(
            gsdml::document(cfg, meta),
        ),
{
    reveal_strlit(r#"">
      <InfoText TextId="T_InfoText"/>
      <VendorName Value=""#);
    reveal_strlit(r#"<VendorName Value=""#);
    assert(template::VENDOR_NAME@ =~= template::VENDOR_NAME@.take(47) + r#"<VendorName Value=""#@);
    reveal_strlit(r#""/>
    </DeviceIdentity>
    <DeviceFunction>
      <Family MainFamily="I/O" ProductFamily=""#);
    reveal_strlit(r#""/>
    </DeviceIdentity>"#);
    assert(template::FAMILY@ =~= r#""/>
    </DeviceIdentity>"#@ + template::FAMILY@.skip(25));
    reveal_strlit(r#""/>
    </DeviceIdentity>
    <DeviceFunction>
      <Family MainFamily="I/O" ProductFamily=""#);
    reveal_strlit(r#"ProductFamily=""#);
    assert(template::FAMILY@ =~= template::FAMILY@.take(78) + r#"ProductFamily=""#@);
    reveal_strlit(r#""/>
    </DeviceFunction>
    <ApplicationProcess>
      <DeviceAccessPointList>
        <DeviceAccessPointItem ID="DAP1" PNIO_Version="V2.3" PhysicalSlots="0.."#);
    reveal_strlit(r#""/>
    </DeviceFunction>"#);
    assert(template::SLOTS@ =~= r#""/>
    </DeviceFunction>"#@ + template::SLOTS@.skip(25));
    let d = gsdml::device_identity(cfg, meta) + gsdml::access_point(cfg, meta);
    let (v, f) = (gsdml::escaped(meta.vendor_name@), gsdml::escaped(meta.product_family@));
    let p = template::PROLOG@ + text::upper_hex_text(cfg.vendor_id as int, 4) + template::DEVICE_ID@
        + text::upper_hex_text(cfg.device_id as int, 4);
    let rest = text::dec_text(cfg.submodules.last().slot.0 as int) + template::INTERVAL@
        + text::dec_text(cfg.min_device_interval as int) + template::STATION@ + gsdml::escaped(
        cfg.station_name,
    ) + template::DAP_VENDOR@ + v;
    let x = r#"<VendorName Value=""#@ + v + r#""/>
    </DeviceIdentity>"#@;
    let y = r#"ProductFamily=""#@ + f + r#""/>
    </DeviceFunction>"#@;
    let x_front = p + template::VENDOR_NAME@.take(47);
    let x_back = template::FAMILY@.skip(25) + f + template::SLOTS@ + rest;
    assert(d =~= x_front + x + x_back);
    lemma_middle(x_front, x, x_back);
    let y_front = p + template::VENDOR_NAME@ + v + template::FAMILY@.take(78);
    let y_back = template::SLOTS@.skip(25) + rest;
    assert(d =~= y_front + y + y_back);
    lemma_middle(y_front, y, y_back);
    let n = cfg.submodules.len() as int;
    let d3 = d + gsdml::access_point_data(cfg);
    let d4 = d3 + gsdml::ref_lines(cfg.submodules, n);
    let d5 = d4 + template::SEND_CLOCK@;
    let d6 = d5 + gsdml::send_clocks(cfg.min_device_interval);
    let d7 = d6 + template::MODULES@;
    let back = gsdml::modules_text(cfg, n) + template::TEXTS@ + gsdml::text_lines(
        gsdml::document_texts(cfg, meta),
    ) + template::EPILOG@;
    assert(d.is_prefix_of(d)) by {
        assert(d.subrange(0, d.len() as int) =~= d);
    }
    gsdml::lemma_prefix_grows(d, d, gsdml::access_point_data(cfg));
    gsdml::lemma_prefix_grows(d, d3, gsdml::ref_lines(cfg.submodules, n));
    gsdml::lemma_prefix_grows(d, d4, template::SEND_CLOCK@);
    gsdml::lemma_prefix_grows(d, d5, gsdml::send_clocks(cfg.min_device_interval));
    gsdml::lemma_prefix_grows(d, d6, template::MODULES@);
    gsdml::lemma_prefix_grows(d, d7, back);
}

/// The identity that a document gives every module: the order number, the hardware revision and
/// the software revision, letter and three numbers, of the I&M0 record.
#[verifier::spinoff_prover]
pub proof fn the_document_names_the_identity(im0: im::Im0)
    ensures
        holds(
            gsdml::identity_text(im0),
            r#"<OrderNumber Value=""#@ + gsdml::escaped(im0.order_id@) + r#""/>
            <HardwareRelease Value=""#@
                + text::dec_text(im0.hardware_revision as int) + r#""/>
            <SoftwareRelease Value=""#@
                + (seq![im0.software_revision.prefix]
                + text::dec_text(im0.software_revision.functional as int) + "."@
                + text::dec_text(im0.software_revision.bug_fix as int) + "."@
                + text::dec_text(im0.software_revision.internal as int)) + r#""/>"#@,
        ),
{
    reveal_strlit(r#"            <OrderNumber Value=""#);
    reveal_strlit(r#"<OrderNumber Value=""#);
    assert(template::ORDER_NUMBER@ =~= template::ORDER_NUMBER@.take(12) + r#"<OrderNumber Value=""#@);
    let x = r#"<OrderNumber Value=""#@ + gsdml::escaped(im0.order_id@) + r#""/>
            <HardwareRelease Value=""#@
        + text::dec_text(im0.hardware_revision as int) + r#""/>
            <SoftwareRelease Value=""#@
        + (seq![im0.software_revision.prefix]
        + text::dec_text(im0.software_revision.functional as int) + "."@
        + text::dec_text(im0.software_revision.bug_fix as int) + "."@
        + text::dec_text(im0.software_revision.internal as int)) + r#""/>"#@;
    let front = template::ORDER_NUMBER@.take(12);
    let none = Seq::<char>::empty();
    assert(gsdml::identity_text(im0) =~= front + x + none);
    lemma_middle(front, x, none);
}

/// The document offers the send clock of the configured interval, and always that of 1 ms.
#[verifier::spinoff_prover]
pub proof fn the_document_offers_the_send_clocks(cfg: config::ConfigView, meta: GsdmlMeta)
    requires
        cfg.wf(),
    ensures
        holds(
            gsdml::document(cfg, meta),
            r#"<TimingProperties SendClock=""#@ + (if cfg.min_device_interval == 16 {
                "16 32"@
            } else {
                "32"@
            }) + r#"" ReductionRatio="1 2 4 8 16 32 64 128 256 512"/>"#@,
        ),
{
    reveal_strlit(r#"          </UseableModules>
          <VirtualSubmoduleList>
            <VirtualSubmoduleItem ID="DAP1_SM" SubmoduleIdentNumber="0x00000001" MayIssueProcessAlarm="false" Writeable_IM_Records="1 2 3">
              <IOData/>
              <ModuleInfo>
                <Name TextId="T_DAP_Name"/>
                <InfoText TextId="T_DAP_Info"/>
              </ModuleInfo>
            </VirtualSubmoduleItem>
          </VirtualSubmoduleList>
          <SystemDefinedSubmoduleList>
            <InterfaceSubmoduleItem ID="DAP1_IF" SubslotNumber="32768" TextId="T_Interface" SubmoduleIdentNumber="0x00008000" SupportedRT_Classes="RT_CLASS_1" SupportedProtocols="" DCP_HelloSupported="false" PTP_BoundarySupported="false" DCP_BoundarySupported="false" DelayMeasurementSupported="false">
              <ApplicationRelations StartupMode="Advanced">
                <TimingProperties SendClock=""#);
    reveal_strlit(r#"<TimingProperties SendClock=""#);
    assert(template::SEND_CLOCK@ =~= template::SEND_CLOCK@.take(860) + r#"<TimingProperties SendClock=""#@);
    reveal_strlit(r#"" ReductionRatio="1 2 4 8 16 32 64 128 256 512"/>
              </ApplicationRelations>
            </InterfaceSubmoduleItem>
            <PortSubmoduleItem ID="DAP1_P1" SubslotNumber="32769" TextId="T_Port1" SubmoduleIdentNumber="0x00008001" MaxPortTxDelay="160" MaxPortRxDelay="350">
              <MAUTypeList>
                <MAUTypeItem Value="16"/>
              </MAUTypeList>
            </PortSubmoduleItem>
          </SystemDefinedSubmoduleList>
        </DeviceAccessPointItem>
      </DeviceAccessPointList>
      <ModuleList>
"#);
    reveal_strlit(r#"" ReductionRatio="1 2 4 8 16 32 64 128 256 512"/>"#);
    assert(template::MODULES@ =~= r#"" ReductionRatio="1 2 4 8 16 32 64 128 256 512"/>"#@ + template::MODULES@.skip(49));
    reveal_strlit("16 32");
    reveal_strlit("32");
    reveal_strlit(" 32");
    let c = gsdml::send_clocks(cfg.min_device_interval);
    if cfg.min_device_interval == 16 {
        reveal_with_fuel(text::dec_text, 3);
        assert(text::dec_text(16) =~= seq!['1', '6']);
        assert(c =~= "16 32"@);
    }
    let x = r#"<TimingProperties SendClock=""#@ + c + r#"" ReductionRatio="1 2 4 8 16 32 64 128 256 512"/>"#@;
    let (front, back) = (
        template::SEND_CLOCK@.take(860),
        template::MODULES@.skip(49),
    );
    lemma_between(front, r#"<TimingProperties SendClock=""#@, c, r#"" ReductionRatio="1 2 4 8 16 32 64 128 256 512"/>"#@, back);
    lemma_in_a_part(cfg, meta, x);
}

/// The document allows the module of each submodule in its own slot.
#[verifier::spinoff_prover]
pub proof fn the_document_allows_each_module_its_slot(
    cfg: config::ConfigView,
    meta: GsdmlMeta,
    i: int,
)
    requires
        0 <= i < cfg.submodules.len(),
    ensures
        ({
            let slot = text::dec_text(cfg.submodules[i].slot.0 as int);
            holds(
                gsdml::document(cfg, meta),
                r#"<ModuleItemRef ModuleItemTarget="M"#@ + slot + r#"" AllowedInSlots=""#@ + slot + r#""/>"#@,
            )
        }),
{
    reveal_strlit(r#"            <ModuleItemRef ModuleItemTarget="M"#);
    reveal_strlit(r#"<ModuleItemRef ModuleItemTarget="M"#);
    assert(template::MODULE_REF@ =~= template::MODULE_REF@.take(12) + r#"<ModuleItemRef ModuleItemTarget="M"#@);
    reveal_strlit(r#""/>
"#);
    reveal_strlit(r#""/>"#);
    assert(template::MODULE_REF_END@ =~= r#""/>"#@ + template::MODULE_REF_END@.skip(3));
    let slot = text::dec_text(cfg.submodules[i].slot.0 as int);
    let x = r#"<ModuleItemRef ModuleItemTarget="M"#@ + slot + r#"" AllowedInSlots=""#@ + slot + r#""/>"#@;
    let (front, back) = (
        template::MODULE_REF@.take(12),
        template::MODULE_REF_END@.skip(3),
    );
    assert(gsdml::ref_line(cfg.submodules[i].slot.0) =~= front + x + back);
    lemma_middle(front, x, back);
    lemma_ref_line(cfg.submodules, cfg.submodules.len() as int, i, x);
    lemma_in_a_part(cfg, meta, x);
}

proof fn lemma_ref_line(subs: Seq<config::SubmoduleView>, k: int, i: int, x: Seq<char>)
    requires
        0 <= i < k,
        holds(gsdml::ref_line(subs[i].slot.0), x),
    ensures
        holds(gsdml::ref_lines(subs, k), x),
    decreases k,
{
    if i == k - 1 {
        lemma_right(gsdml::ref_lines(subs, k - 1), gsdml::ref_line(subs[k - 1].slot.0), x);
    } else {
        lemma_ref_line(subs, k - 1, i, x);
        lemma_left(gsdml::ref_lines(subs, k - 1), gsdml::ref_line(subs[k - 1].slot.0), x);
    }
}

/// Types of fields have different names, so the type is told by the name.
#[verifier::spinoff_prover]
pub proof fn types_are_told_by_their_names(a: FieldType, b: FieldType)
    requires
        gsdml::data_type_name(a) == gsdml::data_type_name(b) || gsdml::field_name(a)
            == gsdml::field_name(b),
    ensures
        a == b,
{
    reveal_strlit("Unsigned8");
    reveal_strlit("Integer16");
    reveal_strlit("Unsigned16");
    reveal_strlit("Integer32");
    reveal_strlit("Float32");
    reveal_strlit("Bool");
    reveal_strlit("Int");
    reveal_strlit("Word");
    reveal_strlit("Dint");
    reveal_strlit("Real");
    let (x, y) = (gsdml::data_type_name(a), gsdml::data_type_name(b));
    let (p, q) = (gsdml::field_name(a), gsdml::field_name(b));
    if x == y {
        assert(x.len() == y.len() && x[0] == y[0] && x[7] == y[7]);
    } else {
        assert(p.len() == q.len() && p[0] == q[0]);
    }
}

/// The line of a byte-typed field names the type of the field: a line that begins as the item of
/// a type is that of a field of this type, and of no other.
#[verifier::spinoff_prover]
pub proof fn items_name_their_types(n: u16, prefix: Seq<char>, refs: Seq<FieldRef>, i: int)
    requires
        0 <= i < refs.len(),
        refs[i].ty != FieldType::Bool,
    ensures
        ({
            let line = gsdml::field_lines(n, prefix, refs, i);
            let ty = refs[i].ty;
            &&& r#"                  <DataItem DataType="Integer16" TextId=""#@.is_prefix_of(line)
                <==> ty == FieldType::Int
            &&& r#"                  <DataItem DataType="Unsigned16" TextId=""#@.is_prefix_of(line)
                <==> ty == FieldType::Word
            &&& r#"                  <DataItem DataType="Integer32" TextId=""#@.is_prefix_of(line)
                <==> ty == FieldType::Dint
            &&& r#"                  <DataItem DataType="Float32" TextId=""#@.is_prefix_of(line)
                <==> ty == FieldType::Real
        }),
{
    let line = gsdml::field_lines(n, prefix, refs, i);
    reveal_strlit(r#"                  <DataItem DataType=""#);
    reveal_strlit(r#"" TextId=""#);
    reveal_strlit("Integer16");
    reveal_strlit(r#"                  <DataItem DataType="Integer16" TextId=""#);
    reveal_strlit("Unsigned16");
    reveal_strlit(r#"                  <DataItem DataType="Unsigned16" TextId=""#);
    reveal_strlit("Integer32");
    reveal_strlit(r#"                  <DataItem DataType="Integer32" TextId=""#);
    reveal_strlit("Float32");
    reveal_strlit(r#"                  <DataItem DataType="Float32" TextId=""#);
    let name = gsdml::data_type_name(refs[i].ty);
    let head = template::SCALAR@ + name + template::SCALAR_ID@;
    let tail = gsdml::scalar_id(n, prefix, i) + template::SCALAR_END@;
    assert(line =~= head + tail);
    let s = r#"                  <DataItem DataType="Integer16" TextId=""#@;
    assert(s =~= template::SCALAR@ + "Integer16"@ + template::SCALAR_ID@);
    if refs[i].ty == FieldType::Int {
        assert(line.subrange(0, s.len() as int) =~= s);
    } else if s.is_prefix_of(line) {
        assert(line.subrange(0, s.len() as int)[38] == s[38]);
        assert(line.subrange(0, s.len() as int)[45] == s[45]);
        assert(line[38] == name[0]);
        assert(line[45] == (if name.len() > 7 {
            name[7]
        } else {
            template::SCALAR_ID@[0]
        }));
    }
    let s = r#"                  <DataItem DataType="Unsigned16" TextId=""#@;
    assert(s =~= template::SCALAR@ + "Unsigned16"@ + template::SCALAR_ID@);
    if refs[i].ty == FieldType::Word {
        assert(line.subrange(0, s.len() as int) =~= s);
    } else if s.is_prefix_of(line) {
        assert(line.subrange(0, s.len() as int)[38] == s[38]);
        assert(line.subrange(0, s.len() as int)[45] == s[45]);
        assert(line[38] == name[0]);
        assert(line[45] == (if name.len() > 7 {
            name[7]
        } else {
            template::SCALAR_ID@[0]
        }));
    }
    let s = r#"                  <DataItem DataType="Integer32" TextId=""#@;
    assert(s =~= template::SCALAR@ + "Integer32"@ + template::SCALAR_ID@);
    if refs[i].ty == FieldType::Dint {
        assert(line.subrange(0, s.len() as int) =~= s);
    } else if s.is_prefix_of(line) {
        assert(line.subrange(0, s.len() as int)[38] == s[38]);
        assert(line.subrange(0, s.len() as int)[45] == s[45]);
        assert(line[38] == name[0]);
        assert(line[45] == (if name.len() > 7 {
            name[7]
        } else {
            template::SCALAR_ID@[0]
        }));
    }
    let s = r#"                  <DataItem DataType="Float32" TextId=""#@;
    assert(s =~= template::SCALAR@ + "Float32"@ + template::SCALAR_ID@);
    if refs[i].ty == FieldType::Real {
        assert(line.subrange(0, s.len() as int) =~= s);
    } else if s.is_prefix_of(line) {
        assert(line.subrange(0, s.len() as int)[38] == s[38]);
        assert(line.subrange(0, s.len() as int)[45] == s[45]);
        assert(line[38] == name[0]);
        assert(line[45] == (if name.len() > 7 {
            name[7]
        } else {
            template::SCALAR_ID@[0]
        }));
    }
}

/// The line of a bit names its place in the byte.
#[verifier::spinoff_prover]
pub proof fn bits_name_their_places(n: u16, prefix: Seq<char>, bit: u8, i: int)
    requires
        bit < 8,
    ensures
        (r#"                    <BitDataItem BitOffset=""#@ + seq![('0' as int + bit) as char] + r#"" TextId=""#@ + gsdml::bit_id(
            n,
            prefix,
            i,
        )).is_prefix_of(gsdml::bit_line(n, prefix, bit, i)),
{
    let line = gsdml::bit_line(n, prefix, bit, i);
    let x = r#"                    <BitDataItem BitOffset=""#@ + seq![('0' as int + bit) as char] + r#"" TextId=""#@ + gsdml::bit_id(
        n,
        prefix,
        i,
    );
    assert(text::dec_text(bit as int) =~= seq![('0' as int + bit) as char]);
    assert(line =~= x + template::BIT_END@);
    assert(line.subrange(0, x.len() as int) =~= x);
}

/// The data of a direction, up to the lines of field `j`.
pub open spec fn before_field(n: u16, input: bool, fields: Seq<FieldType>, j: int) -> Seq<char> {
    let (tag, prefix) = if input {
        ("Input"@, "In"@)
    } else {
        ("Output"@, "Out"@)
    };
    template::DIRECTION_OPEN@ + tag + template::DIRECTION_OPEN_END@ + gsdml::lines_of(
        n,
        prefix,
        config::field_refs(fields),
        j,
    )
}

/// Every field is described at its place: in the data of its direction, the lines of field `j`
/// stand behind items that take as many bytes as the fields before it, and, for a byte type,
/// they name its type.
#[verifier::spinoff_prover]
pub proof fn every_field_is_described_at_its_place(
    n: u16,
    input: bool,
    fields: Seq<FieldType>,
    j: int,
)
    requires
        config::layout_len(fields) <= u16::MAX,
        0 <= j < fields.len(),
    ensures
        ({
            let prefix = if input {
                "In"@
            } else {
                "Out"@
            };
            let a = before_field(n, input, fields, j);
            let line = gsdml::field_lines(n, prefix, config::field_refs(fields), j);
            &&& (a + line).is_prefix_of(tags::direction(n, input, fields))
            &&& tags::Measure::DataBytes.of(a) == config::bytes_of(fields, j)
            &&& fields[j] == FieldType::Int ==> r#"                  <DataItem DataType="Integer16" TextId=""#@.is_prefix_of(
                line,
            )
            &&& fields[j] == FieldType::Word ==> r#"                  <DataItem DataType="Unsigned16" TextId=""#@.is_prefix_of(
                line,
            )
            &&& fields[j] == FieldType::Dint ==> r#"                  <DataItem DataType="Integer32" TextId=""#@.is_prefix_of(
                line,
            )
            &&& fields[j] == FieldType::Real ==> r#"                  <DataItem DataType="Float32" TextId=""#@.is_prefix_of(
                line,
            )
        }),
{
    let prefix = if input {
        "In"@
    } else {
        "Out"@
    };
    let refs = config::field_refs(fields);
    lemma_field_in_its_direction(n, input, fields, j);
    tags::lemma_before_field(n, input, fields, j);
    assert(refs[j].ty == fields[j]);
    if fields[j] != FieldType::Bool {
        items_name_their_types(n, prefix, refs, j);
    }
}

proof fn lemma_field_in_its_direction(n: u16, input: bool, fields: Seq<FieldType>, j: int)
    requires
        0 <= j < fields.len(),
    ensures
        ({
            let prefix = if input {
                "In"@
            } else {
                "Out"@
            };
            let a = before_field(n, input, fields, j);
            let line = gsdml::field_lines(n, prefix, config::field_refs(fields), j);
            (a + line).is_prefix_of(tags::direction(n, input, fields))
        }),
{
    let (tag, prefix) = if input {
        ("Input"@, "In"@)
    } else {
        ("Output"@, "Out"@)
    };
    let refs = config::field_refs(fields);
    let k = refs.len() as int;
    let open = template::DIRECTION_OPEN@ + tag + template::DIRECTION_OPEN_END@;
    let lines = gsdml::lines_of(n, prefix, refs, j);
    let line = gsdml::field_lines(n, prefix, refs, j);
    let close = template::DIRECTION_CLOSE@ + tag + template::DIRECTION_CLOSE_END@;
    let rest = lemma_lines_go_on(n, prefix, refs, k, j);
    let all = tags::direction(n, input, fields);
    assert(all =~= open + gsdml::lines_of(n, prefix, refs, k) + close);
    lemma_front(open, lines, line, rest, close);
}

/// What stands in front of a piece, with the piece, is a beginning of the whole.
proof fn lemma_front(
    open: Seq<char>,
    lines: Seq<char>,
    line: Seq<char>,
    rest: Seq<char>,
    close: Seq<char>,
)
    ensures
        (open + lines + line).is_prefix_of(open + (lines + line + rest) + close),
{
    let x = open + lines + line;
    let all = open + (lines + line + rest) + close;
    assert(all =~= x + (rest + close));
    assert(all.subrange(0, x.len() as int) =~= x);
}

proof fn lemma_lines_go_on(n: u16, prefix: Seq<char>, refs: Seq<FieldRef>, k: int, j: int) -> (rest:
    Seq<char>)
    requires
        0 <= j < k <= refs.len(),
    ensures
        gsdml::lines_of(n, prefix, refs, k) == gsdml::lines_of(n, prefix, refs, j)
            + gsdml::field_lines(n, prefix, refs, j) + rest,
    decreases k,
{
    if j == k - 1 {
        let none = Seq::<char>::empty();
        assert(gsdml::lines_of(n, prefix, refs, k) =~= gsdml::lines_of(n, prefix, refs, j)
            + gsdml::field_lines(n, prefix, refs, j) + none);
        none
    } else {
        let before = lemma_lines_go_on(n, prefix, refs, k - 1, j);
        let rest = before + gsdml::field_lines(n, prefix, refs, k - 1);
        assert(gsdml::lines_of(n, prefix, refs, k) =~= gsdml::lines_of(n, prefix, refs, j)
            + gsdml::field_lines(n, prefix, refs, j) + rest);
        rest
    }
}

/// The texts that describe fields and modules, word by word.
#[verifier::spinoff_prover]
pub proof fn texts_describe_their_fields(n: u16, prefix: Seq<char>, refs: Seq<FieldRef>, i: int)
    requires
        0 <= i < refs.len(),
    ensures
        ({
            let texts = gsdml::field_texts(n, prefix, refs, i);
            let number = text::dec_text(i);
            &&& refs[i].ty == FieldType::Int ==> texts.last().value == prefix + " "@ + number
                + " ("@ + "Int"@ + ")"@
            &&& refs[i].ty == FieldType::Word ==> texts.last().value == prefix + " "@ + number
                + " ("@ + "Word"@ + ")"@
            &&& refs[i].ty == FieldType::Dint ==> texts.last().value == prefix + " "@ + number
                + " ("@ + "Dint"@ + ")"@
            &&& refs[i].ty == FieldType::Real ==> texts.last().value == prefix + " "@ + number
                + " ("@ + "Real"@ + ")"@
            &&& refs[i].ty == FieldType::Bool ==> texts.last().value == prefix + " "@ + number
                + " (Bool)"@
        }),
{
}

/// The text table gives every text its value.
#[verifier::spinoff_prover]
pub proof fn the_table_gives_every_text_its_value(
    cfg: config::ConfigView,
    meta: GsdmlMeta,
    i: int,
)
    requires
        0 <= i < gsdml::document_texts(cfg, meta).len(),
    ensures
        ({
            let t = gsdml::document_texts(cfg, meta)[i];
            holds(
                gsdml::document(cfg, meta),
                r#"<Text TextId=""#@ + t.id + r#"" Value=""#@ + t.value + r#""/>"#@,
            )
        }),
{
    reveal_strlit(r#"          <Text TextId=""#);
    reveal_strlit(r#"<Text TextId=""#);
    assert(template::TEXT@ =~= template::TEXT@.take(10) + r#"<Text TextId=""#@);
    reveal_strlit(r#""/>
"#);
    reveal_strlit(r#""/>"#);
    assert(template::TEXT_END@ =~= r#""/>"#@ + template::TEXT_END@.skip(3));
    let table = gsdml::document_texts(cfg, meta);
    let t = table[i];
    let x = r#"<Text TextId=""#@ + t.id + r#"" Value=""#@ + t.value + r#""/>"#@;
    let (front, back) = (
        template::TEXT@.take(10),
        template::TEXT_END@.skip(3),
    );
    assert(gsdml::text_line(t) =~= front + x + back);
    lemma_middle(front, x, back);
    lemma_text_line(table, i, x);
    lemma_in_a_part(cfg, meta, x);
}

proof fn lemma_text_line(table: Seq<TextView>, i: int, x: Seq<char>)
    requires
        0 <= i < table.len(),
        holds(gsdml::text_line(table[i]), x),
    ensures
        holds(gsdml::text_lines(table), x),
    decreases table.len(),
{
    let front = table.drop_last();
    if i == table.len() - 1 {
        lemma_right(gsdml::text_lines(front), gsdml::text_line(table.last()), x);
    } else {
        assert(front[i] == table[i]);
        lemma_text_line(front, i, x);
        lemma_left(gsdml::text_lines(front), gsdml::text_line(table.last()), x);
    }
}

/// The texts of the device itself and of a module: what the tool shows of them.
#[verifier::spinoff_prover]
pub proof fn texts_describe_the_device(meta: GsdmlMeta, s: config::SubmoduleView)
    ensures
        ({
            let d = gsdml::device_texts(meta);
            &&& d.len() == 5
            &&& d[0].id == "T_InfoText"@ && d[0].value == gsdml::escaped(meta.info_text@)
            &&& d[1].id == "T_DAP_Name"@ && d[1].value == gsdml::escaped(meta.product_family@)
                + " DAP"@
            &&& d[2].id == "T_DAP_Info"@ && d[2].value == "Device access point"@
            &&& d[3].id == "T_Interface"@ && d[3].value == "PROFINET interface"@
            &&& d[4].id == "T_Port1"@ && d[4].value == "Port 1"@
        }),
        ({
            let (m, slot) = (gsdml::module_names(s), text::dec_text(s.slot.0 as int));
            &&& m.len() == 2
            &&& m[0].id == "M"@ + slot + "_Name"@ && m[0].value == gsdml::escaped(s.name)
            &&& m[1].id == "M"@ + slot + "_Info"@
            &&& m[1].value == "Slot "@ + slot + ": "@ + text::dec_text(
                config::layout_len(s.inputs),
            ) + " input bytes, "@ + text::dec_text(config::layout_len(s.outputs))
                + " output bytes"@
        }),
{
}

/// The document names the vendor and the device by their numbers.
#[verifier::spinoff_prover]
pub proof fn the_document_names_the_ids(cfg: config::ConfigView, meta: GsdmlMeta)
    ensures
        holds(
            gsdml::document(cfg, meta),
            r#"<DeviceIdentity VendorID="0x"#@ + text::upper_hex_text(cfg.vendor_id as int, 4) + r#"" DeviceID="0x"#@
                + text::upper_hex_text(cfg.device_id as int, 4) + r#"">"#@,
        ),
{
    reveal_strlit(r#"<?xml version="1.0" encoding="utf-8"?>
<ISO15745Profile xmlns="http://www.profibus.com/GSDML/2003/11/DeviceProfile" xmlns:xsi="http://www.w3.org/2001/XMLSchema-instance" xsi:schemaLocation="http://www.profibus.com/GSDML/2003/11/DeviceProfile ..\xsd\GSDML-DeviceProfile-V2.4.xsd">
  <ProfileHeader>
    <ProfileIdentification>PROFINET Device Profile</ProfileIdentification>
    <ProfileRevision>1.00</ProfileRevision>
    <ProfileName>Device Profile for PROFINET Devices</ProfileName>
    <ProfileSource>PROFIBUS Nutzerorganisation e. V. (PNO)</ProfileSource>
    <ProfileClassID>Device</ProfileClassID>
    <ISO15745Reference>
      <ISO15745Part>4</ISO15745Part>
      <ISO15745Edition>1</ISO15745Edition>
      <ProfileTechnology>GSDML</ProfileTechnology>
    </ISO15745Reference>
  </ProfileHeader>
  <ProfileBody>
    <DeviceIdentity VendorID="0x"#);
    reveal_strlit(r#"<DeviceIdentity VendorID="0x"#);
    assert(template::PROLOG@ =~= template::PROLOG@.take(822) + r#"<DeviceIdentity VendorID="0x"#@);
    reveal_strlit(r#"">
      <InfoText TextId="T_InfoText"/>
      <VendorName Value=""#);
    reveal_strlit(r#"">"#);
    assert(template::VENDOR_NAME@ =~= r#"">"#@ + template::VENDOR_NAME@.skip(2));
    let x = r#"<DeviceIdentity VendorID="0x"#@ + text::upper_hex_text(cfg.vendor_id as int, 4) + r#"" DeviceID="0x"#@
        + text::upper_hex_text(cfg.device_id as int, 4) + r#"">"#@;
    let front = template::PROLOG@.take(822);
    let back = template::VENDOR_NAME@.skip(2) + gsdml::escaped(meta.vendor_name@)
        + template::FAMILY@ + gsdml::escaped(meta.product_family@);
    assert(gsdml::device_identity(cfg, meta) =~= front + x + back);
    lemma_middle(front, x, back);
    lemma_in_a_part(cfg, meta, x);
}

/// The identity of the device stands in the access point and in every module.
#[verifier::spinoff_prover]
pub proof fn the_document_repeats_the_identity(cfg: config::ConfigView, meta: GsdmlMeta, n: u16)
    ensures
        holds(gsdml::document(cfg, meta), gsdml::identity_text(cfg.im0)),
        holds(gsdml::module_head(cfg, n), gsdml::identity_text(cfg.im0)),
{
    let x = gsdml::identity_text(cfg.im0);
    let m = cfg.submodules.len() as int;
    let (input, output) = (
        config::input_cr_bytes(cfg.submodules, m),
        config::output_cr_bytes(cfg.submodules, m),
    );
    let back = template::MAX_INPUT@ + text::dec_text(input) + template::MAX_OUTPUT@
        + text::dec_text(output) + template::MAX_DATA@ + text::dec_text(input + output)
        + template::USEABLE@;
    assert(gsdml::access_point_data(cfg) =~= template::DAP_IDENTITY@ + x + back);
    lemma_middle(template::DAP_IDENTITY@, x, back);
    lemma_in_a_part(cfg, meta, x);
    let slot = text::dec_text(n as int);
    let head = template::MODULE@ + slot + template::MODULE_IDENT@ + text::upper_hex_text(
        0x100 + n,
        8,
    ) + template::MODULE_NAME@ + slot + template::MODULE_INFO@ + slot + template::MODULE_IDENTITY@;
    let tail = template::MODULE_SUBMODULE@ + slot + template::IO_DATA@;
    assert(gsdml::module_head(cfg, n) =~= head + x + tail);
    lemma_middle(head, x, tail);
}

/// A module names its slot, its ident number, the texts that describe it, and its submodule.
#[verifier::spinoff_prover]
pub proof fn modules_name_themselves(cfg: config::ConfigView, n: u16)
    ensures
        ({
            let slot = text::dec_text(n as int);
            let head = gsdml::module_head(cfg, n);
            &&& holds(
                head,
                r#"<ModuleItem ID="M"#@ + slot + r#"" ModuleIdentNumber="0x"#@ + text::upper_hex_text(256 + n, 8) + r#"">"#@,
            )
            &&& holds(head, r#"<Name TextId="M"#@ + slot + r#"_Name"/>"#@)
            &&& holds(head, r#"<InfoText TextId="M"#@ + slot + r#"_Info"/>"#@)
            &&& holds(head, r#"<VirtualSubmoduleItem ID="M"#@ + slot + r#"_SM" SubmoduleIdentNumber="0x00000001""#@)
            &&& holds(gsdml::module_tail(n), r#"<Name TextId="M"#@ + slot + r#"_Name"/>"#@)
            &&& holds(gsdml::module_tail(n), r#"<InfoText TextId="M"#@ + slot + r#"_Info"/>"#@)
        }),
{
    let slot = text::dec_text(n as int);
    let hex = text::upper_hex_text(0x100 + n, 8);
    let id = gsdml::identity_text(cfg.im0);
    let head = gsdml::module_head(cfg, n);
    reveal_strlit(r#"        <ModuleItem ID="M"#);
    reveal_strlit(r#"<ModuleItem ID="M"#);
    assert(template::MODULE@ =~= template::MODULE@.take(8) + r#"<ModuleItem ID="M"#@);
    reveal_strlit(r#"">
          <ModuleInfo>
            <Name TextId="M"#);
    reveal_strlit(r#"">"#);
    assert(template::MODULE_NAME@ =~= r#"">"#@ + template::MODULE_NAME@.skip(2));
    reveal_strlit(r#"">
          <ModuleInfo>
            <Name TextId="M"#);
    reveal_strlit(r#"<Name TextId="M"#);
    assert(template::MODULE_NAME@ =~= template::MODULE_NAME@.take(38) + r#"<Name TextId="M"#@);
    reveal_strlit(r#"_Name"/>
            <InfoText TextId="M"#);
    reveal_strlit(r#"_Name"/>"#);
    assert(template::MODULE_INFO@ =~= r#"_Name"/>"#@ + template::MODULE_INFO@.skip(8));
    reveal_strlit(r#"_Name"/>
            <InfoText TextId="M"#);
    reveal_strlit(r#"<InfoText TextId="M"#);
    assert(template::MODULE_INFO@ =~= template::MODULE_INFO@.take(21) + r#"<InfoText TextId="M"#@);
    reveal_strlit(r#"_Info"/>
"#);
    reveal_strlit(r#"_Info"/>"#);
    assert(template::MODULE_IDENTITY@ =~= r#"_Info"/>"#@ + template::MODULE_IDENTITY@.skip(8));
    reveal_strlit(r#"
          </ModuleInfo>
          <VirtualSubmoduleList>
            <VirtualSubmoduleItem ID="M"#);
    reveal_strlit(r#"<VirtualSubmoduleItem ID="M"#);
    assert(template::MODULE_SUBMODULE@ =~= template::MODULE_SUBMODULE@.take(70) + r#"<VirtualSubmoduleItem ID="M"#@);
    reveal_strlit(r#"_SM" SubmoduleIdentNumber="0x00000001" MayIssueProcessAlarm="false">
              <IOData>
"#);
    reveal_strlit(r#"_SM" SubmoduleIdentNumber="0x00000001""#);
    assert(template::IO_DATA@ =~= r#"_SM" SubmoduleIdentNumber="0x00000001""#@ + template::IO_DATA@.skip(38));
    let p0 = template::MODULE@;
    let p1 = p0 + slot + template::MODULE_IDENT@ + hex;
    let p2 = p1 + template::MODULE_NAME@ + slot;
    let p3 = p2 + template::MODULE_INFO@ + slot;
    let r1 = template::MODULE_SUBMODULE@ + slot + template::IO_DATA@;
    let r2 = template::MODULE_IDENTITY@ + id + r1;
    let r3 = template::MODULE_INFO@ + slot + r2;
    let x = r#"<ModuleItem ID="M"#@ + slot + r#"" ModuleIdentNumber="0x"#@ + hex + r#"">"#@;
    let (f, b) = (p0.take(8), template::MODULE_NAME@.skip(2) + slot + r3);
    assert(head =~= f + x + b);
    lemma_middle(f, x, b);
    lemma_named(
        p1 + template::MODULE_NAME@.take(38),
        r#"<Name TextId="M"#@,
        slot,
        r#"_Name"/>"#@,
        template::MODULE_INFO@.skip(8) + slot + r2,
        head,
    );
    lemma_named(
        p2 + template::MODULE_INFO@.take(21),
        r#"<InfoText TextId="M"#@,
        slot,
        r#"_Info"/>"#@,
        template::MODULE_IDENTITY@.skip(8) + id + r1,
        head,
    );
    lemma_named(
        p3 + template::MODULE_IDENTITY@ + id + template::MODULE_SUBMODULE@.take(70),
        r#"<VirtualSubmoduleItem ID="M"#@,
        slot,
        r#"_SM" SubmoduleIdentNumber="0x00000001""#@,
        template::IO_DATA@.skip(38),
        head,
    );
    lemma_tail_names(n);
}

/// A name between what stands before and behind it.
proof fn lemma_named(
    p: Seq<char>,
    a: Seq<char>,
    v: Seq<char>,
    b: Seq<char>,
    q: Seq<char>,
    doc: Seq<char>,
)
    requires
        doc =~= p + a + v + b + q,
    ensures
        holds(doc, a + v + b),
{
    lemma_middle(p, a + v + b, q);
    assert(doc =~= p + (a + v + b) + q);
}

proof fn lemma_tail_names(n: u16)
    ensures
        ({
            let slot = text::dec_text(n as int);
            &&& holds(gsdml::module_tail(n), r#"<Name TextId="M"#@ + slot + r#"_Name"/>"#@)
            &&& holds(gsdml::module_tail(n), r#"<InfoText TextId="M"#@ + slot + r#"_Info"/>"#@)
        }),
{
    let slot = text::dec_text(n as int);
    let tail = gsdml::module_tail(n);
    reveal_strlit(r#"              </IOData>
              <ModuleInfo>
                <Name TextId="M"#);
    reveal_strlit(r#"<Name TextId="M"#);
    assert(template::MODULE_CLOSE@ =~= template::MODULE_CLOSE@.take(67) + r#"<Name TextId="M"#@);
    reveal_strlit(r#"_Name"/>
                <InfoText TextId="M"#);
    reveal_strlit(r#"_Name"/>"#);
    assert(template::MODULE_CLOSE_INFO@ =~= r#"_Name"/>"#@ + template::MODULE_CLOSE_INFO@.skip(8));
    reveal_strlit(r#"_Name"/>
                <InfoText TextId="M"#);
    reveal_strlit(r#"<InfoText TextId="M"#);
    assert(template::MODULE_CLOSE_INFO@ =~= template::MODULE_CLOSE_INFO@.take(25) + r#"<InfoText TextId="M"#@);
    reveal_strlit(r#"_Info"/>
              </ModuleInfo>
            </VirtualSubmoduleItem>
          </VirtualSubmoduleList>
        </ModuleItem>
"#);
    reveal_strlit(r#"_Info"/>"#);
    assert(template::MODULE_END@ =~= r#"_Info"/>"#@ + template::MODULE_END@.skip(8));
    lemma_named(
        template::MODULE_CLOSE@.take(67),
        r#"<Name TextId="M"#@,
        slot,
        r#"_Name"/>"#@,
        template::MODULE_CLOSE_INFO@.skip(8) + slot + template::MODULE_END@,
        tail,
    );
    lemma_named(
        template::MODULE_CLOSE@ + slot + template::MODULE_CLOSE_INFO@.take(25),
        r#"<InfoText TextId="M"#@,
        slot,
        r#"_Info"/>"#@,
        template::MODULE_END@.skip(8),
        tail,
    );
}

/// The document names the submodules of the access point as the device plugs them: the access
/// point itself with its writable records, the interface and the port.
#[verifier::spinoff_prover]
pub proof fn the_document_names_the_access_point(cfg: config::ConfigView, meta: GsdmlMeta)
    ensures
        holds(
            gsdml::document(cfg, meta),
            r#"<VirtualSubmoduleItem ID="DAP1_SM" SubmoduleIdentNumber="0x00000001" MayIssueProcessAlarm="false" Writeable_IM_Records="1 2 3">"#@,
        ),
        holds(
            gsdml::document(cfg, meta),
            r#"<InterfaceSubmoduleItem ID="DAP1_IF" SubslotNumber="32768" TextId="T_Interface" SubmoduleIdentNumber="0x00008000" SupportedRT_Classes="RT_CLASS_1""#@,
        ),
        holds(
            gsdml::document(cfg, meta),
            r#"<PortSubmoduleItem ID="DAP1_P1" SubslotNumber="32769" TextId="T_Port1" SubmoduleIdentNumber="0x00008001""#@,
        ),
{
    let c = gsdml::send_clocks(cfg.min_device_interval);
    assert(holds(template::SEND_CLOCK@, r#"<VirtualSubmoduleItem ID="DAP1_SM" SubmoduleIdentNumber="0x00000001" MayIssueProcessAlarm="false" Writeable_IM_Records="1 2 3">"#@)) by {
        reveal_strlit(r#"          </UseableModules>
          <VirtualSubmoduleList>
            <VirtualSubmoduleItem ID="DAP1_SM" SubmoduleIdentNumber="0x00000001" MayIssueProcessAlarm="false" Writeable_IM_Records="1 2 3">
              <IOData/>
              <ModuleInfo>
                <Name TextId="T_DAP_Name"/>
                <InfoText TextId="T_DAP_Info"/>
              </ModuleInfo>
            </VirtualSubmoduleItem>
          </VirtualSubmoduleList>
          <SystemDefinedSubmoduleList>
            <InterfaceSubmoduleItem ID="DAP1_IF" SubslotNumber="32768" TextId="T_Interface" SubmoduleIdentNumber="0x00008000" SupportedRT_Classes="RT_CLASS_1" SupportedProtocols="" DCP_HelloSupported="false" PTP_BoundarySupported="false" DCP_BoundarySupported="false" DelayMeasurementSupported="false">
              <ApplicationRelations StartupMode="Advanced">
                <TimingProperties SendClock=""#);
        reveal_strlit(r#"<VirtualSubmoduleItem ID="DAP1_SM" SubmoduleIdentNumber="0x00000001" MayIssueProcessAlarm="false" Writeable_IM_Records="1 2 3">"#);
        assert(template::SEND_CLOCK@ =~= template::SEND_CLOCK@.take(73) + r#"<VirtualSubmoduleItem ID="DAP1_SM" SubmoduleIdentNumber="0x00000001" MayIssueProcessAlarm="false" Writeable_IM_Records="1 2 3">"#@ + template::SEND_CLOCK@.skip(200));
        lemma_middle(template::SEND_CLOCK@.take(73), r#"<VirtualSubmoduleItem ID="DAP1_SM" SubmoduleIdentNumber="0x00000001" MayIssueProcessAlarm="false" Writeable_IM_Records="1 2 3">"#@, template::SEND_CLOCK@.skip(200));
    }
    assert(holds(template::SEND_CLOCK@, r#"<InterfaceSubmoduleItem ID="DAP1_IF" SubslotNumber="32768" TextId="T_Interface" SubmoduleIdentNumber="0x00008000" SupportedRT_Classes="RT_CLASS_1""#@)) by {
        reveal_strlit(r#"          </UseableModules>
          <VirtualSubmoduleList>
            <VirtualSubmoduleItem ID="DAP1_SM" SubmoduleIdentNumber="0x00000001" MayIssueProcessAlarm="false" Writeable_IM_Records="1 2 3">
              <IOData/>
              <ModuleInfo>
                <Name TextId="T_DAP_Name"/>
                <InfoText TextId="T_DAP_Info"/>
              </ModuleInfo>
            </VirtualSubmoduleItem>
          </VirtualSubmoduleList>
          <SystemDefinedSubmoduleList>
            <InterfaceSubmoduleItem ID="DAP1_IF" SubslotNumber="32768" TextId="T_Interface" SubmoduleIdentNumber="0x00008000" SupportedRT_Classes="RT_CLASS_1" SupportedProtocols="" DCP_HelloSupported="false" PTP_BoundarySupported="false" DCP_BoundarySupported="false" DelayMeasurementSupported="false">
              <ApplicationRelations StartupMode="Advanced">
                <TimingProperties SendClock=""#);
        reveal_strlit(r#"<InterfaceSubmoduleItem ID="DAP1_IF" SubslotNumber="32768" TextId="T_Interface" SubmoduleIdentNumber="0x00008000" SupportedRT_Classes="RT_CLASS_1""#);
        assert(template::SEND_CLOCK@ =~= template::SEND_CLOCK@.take(493) + r#"<InterfaceSubmoduleItem ID="DAP1_IF" SubslotNumber="32768" TextId="T_Interface" SubmoduleIdentNumber="0x00008000" SupportedRT_Classes="RT_CLASS_1""#@ + template::SEND_CLOCK@.skip(639));
        lemma_middle(template::SEND_CLOCK@.take(493), r#"<InterfaceSubmoduleItem ID="DAP1_IF" SubslotNumber="32768" TextId="T_Interface" SubmoduleIdentNumber="0x00008000" SupportedRT_Classes="RT_CLASS_1""#@, template::SEND_CLOCK@.skip(639));
    }
    assert(holds(template::MODULES@, r#"<PortSubmoduleItem ID="DAP1_P1" SubslotNumber="32769" TextId="T_Port1" SubmoduleIdentNumber="0x00008001""#@)) by {
        reveal_strlit(r#"" ReductionRatio="1 2 4 8 16 32 64 128 256 512"/>
              </ApplicationRelations>
            </InterfaceSubmoduleItem>
            <PortSubmoduleItem ID="DAP1_P1" SubslotNumber="32769" TextId="T_Port1" SubmoduleIdentNumber="0x00008001" MaxPortTxDelay="160" MaxPortRxDelay="350">
              <MAUTypeList>
                <MAUTypeItem Value="16"/>
              </MAUTypeList>
            </PortSubmoduleItem>
          </SystemDefinedSubmoduleList>
        </DeviceAccessPointItem>
      </DeviceAccessPointList>
      <ModuleList>
"#);
        reveal_strlit(r#"<PortSubmoduleItem ID="DAP1_P1" SubslotNumber="32769" TextId="T_Port1" SubmoduleIdentNumber="0x00008001""#);
        assert(template::MODULES@ =~= template::MODULES@.take(138) + r#"<PortSubmoduleItem ID="DAP1_P1" SubslotNumber="32769" TextId="T_Port1" SubmoduleIdentNumber="0x00008001""#@ + template::MODULES@.skip(242));
        lemma_middle(template::MODULES@.take(138), r#"<PortSubmoduleItem ID="DAP1_P1" SubslotNumber="32769" TextId="T_Port1" SubmoduleIdentNumber="0x00008001""#@, template::MODULES@.skip(242));
    }
    lemma_left(template::SEND_CLOCK@, c, r#"<VirtualSubmoduleItem ID="DAP1_SM" SubmoduleIdentNumber="0x00000001" MayIssueProcessAlarm="false" Writeable_IM_Records="1 2 3">"#@);
    lemma_left(template::SEND_CLOCK@ + c, template::MODULES@, r#"<VirtualSubmoduleItem ID="DAP1_SM" SubmoduleIdentNumber="0x00000001" MayIssueProcessAlarm="false" Writeable_IM_Records="1 2 3">"#@);
    lemma_left(template::SEND_CLOCK@, c, r#"<InterfaceSubmoduleItem ID="DAP1_IF" SubslotNumber="32768" TextId="T_Interface" SubmoduleIdentNumber="0x00008000" SupportedRT_Classes="RT_CLASS_1""#@);
    lemma_left(template::SEND_CLOCK@ + c, template::MODULES@, r#"<InterfaceSubmoduleItem ID="DAP1_IF" SubslotNumber="32768" TextId="T_Interface" SubmoduleIdentNumber="0x00008000" SupportedRT_Classes="RT_CLASS_1""#@);
    lemma_right(template::SEND_CLOCK@ + c, template::MODULES@, r#"<PortSubmoduleItem ID="DAP1_P1" SubslotNumber="32769" TextId="T_Port1" SubmoduleIdentNumber="0x00008001""#@);
    lemma_in_a_part(cfg, meta, r#"<VirtualSubmoduleItem ID="DAP1_SM" SubmoduleIdentNumber="0x00000001" MayIssueProcessAlarm="false" Writeable_IM_Records="1 2 3">"#@);
    lemma_in_a_part(cfg, meta, r#"<InterfaceSubmoduleItem ID="DAP1_IF" SubslotNumber="32768" TextId="T_Interface" SubmoduleIdentNumber="0x00008000" SupportedRT_Classes="RT_CLASS_1""#@);
    lemma_in_a_part(cfg, meta, r#"<PortSubmoduleItem ID="DAP1_P1" SubslotNumber="32769" TextId="T_Port1" SubmoduleIdentNumber="0x00008001""#@);
}

/// The data of a direction stands between the tags of its name; a direction without fields has
/// none.
#[verifier::spinoff_prover]
pub proof fn directions_are_tagged(n: u16, fields: Seq<FieldType>)
    requires
        fields.len() > 0,
    ensures
        ({
            let (i, o) = (tags::direction(n, true, fields), tags::direction(n, false, fields));
            &&& r#"                <Input Consistency="All items consistency">
"#@.is_prefix_of(i)
            &&& r#"                <Output Consistency="All items consistency">
"#@.is_prefix_of(o)
            &&& tags::direction(n, true, Seq::empty()).len() == 0
            &&& tags::direction(n, false, Seq::empty()).len() == 0
        }),
{
    let (i, o) = (tags::direction(n, true, fields), tags::direction(n, false, fields));
    let (x, y) = (
        r#"                <Input Consistency="All items consistency">
"#@,
        r#"                <Output Consistency="All items consistency">
"#@,
    );
    reveal_strlit("Input");
    reveal_strlit("Output");
    reveal_strlit(r#"                <"#);
    reveal_strlit(r#" Consistency="All items consistency">
"#);
    reveal_strlit(r#"                <Input Consistency="All items consistency">
"#);
    reveal_strlit(r#"                <Output Consistency="All items consistency">
"#);
    assert(x =~= template::DIRECTION_OPEN@ + "Input"@ + template::DIRECTION_OPEN_END@);
    assert(y =~= template::DIRECTION_OPEN@ + "Output"@ + template::DIRECTION_OPEN_END@);
    assert(i.subrange(0, x.len() as int) =~= x);
    assert(o.subrange(0, y.len() as int) =~= y);
}

/// The bits of a byte share a group: a bit joins the group of the one before it just where it
/// is not the lowest of its byte.
#[verifier::spinoff_prover]
pub proof fn bits_of_a_byte_share_a_group(fields: Seq<FieldType>, i: int)
    requires
        config::layout_len(fields) <= u16::MAX,
        0 <= i < fields.len(),
        fields[i] == FieldType::Bool,
    ensures
        gsdml::joins_previous(config::field_refs(fields), i) <==> config::bit_of_field(fields, i)
            != 0,
{
    reveal_with_fuel(config::bytes_of, 3);
    reveal_with_fuel(config::bool_run, 3);
    config::fields_lie_within(fields, i);
    if i > 0 {
        config::fields_lie_within(fields, i - 1);
    }
}

/// The name of a file: the version, the vendor and the product in letters and digits, and the
/// date in eight digits.
#[verifier::spinoff_prover]
pub proof fn file_names_follow_the_pattern(meta: GsdmlMeta)
    ensures
        gsdml::name_of_file(meta) == "GSDML-V2.4-"@ + gsdml::cleaned(meta.vendor_name@) + "-"@
            + gsdml::cleaned(meta.product_family@) + "-"@ + text::padded_dec_text(
            meta.date.0 as int,
            4,
        ) + text::padded_dec_text(meta.date.1 as int, 2) + text::padded_dec_text(
            meta.date.2 as int,
            2,
        ) + ".xml"@,
{
}

/// Cleaning keeps the letters and digits, in order, and drops everything else.
#[verifier::spinoff_prover]
pub proof fn cleaning_keeps_letters_and_digits(s: Seq<char>, c: char)
    ensures
        forall|i: int|
            0 <= i < gsdml::cleaned(s).len() ==> {
                let d = #[trigger] gsdml::cleaned(s)[i];
                '0' <= d <= '9' || 'A' <= d <= 'Z' || 'a' <= d <= 'z'
            },
        '0' <= c <= '9' || 'A' <= c <= 'Z' || 'a' <= c <= 'z' ==> gsdml::cleaned(s.push(c))
            == gsdml::cleaned(s).push(c),
        !('0' <= c <= '9' || 'A' <= c <= 'Z' || 'a' <= c <= 'z') ==> gsdml::cleaned(s.push(c))
            == gsdml::cleaned(s),
        gsdml::cleaned(Seq::empty()).len() == 0,
    decreases s.len(),
{
    assert(s.push(c).drop_last() =~= s);
    if s.len() > 0 {
        cleaning_keeps_letters_and_digits(s.drop_last(), c);
    }
}

/// Escaping replaces the five special characters by their entities and keeps every other.
#[verifier::spinoff_prover]
pub proof fn escaping_replaces_the_specials(s: Seq<char>, c: char)
    ensures
        gsdml::escaped(Seq::empty()).len() == 0,
        gsdml::escaped(s.push('&')) == gsdml::escaped(s) + "&amp;"@,
        gsdml::escaped(s.push('<')) == gsdml::escaped(s) + "&lt;"@,
        gsdml::escaped(s.push('>')) == gsdml::escaped(s) + "&gt;"@,
        gsdml::escaped(s.push('"')) == gsdml::escaped(s) + "&quot;"@,
        gsdml::escaped(s.push('\'')) == gsdml::escaped(s) + "&apos;"@,
        c != '&' && c != '<' && c != '>' && c != '"' && c != '\'' ==> gsdml::escaped(s.push(c))
            == gsdml::escaped(s).push(c),
{
    assert(s.push('&').drop_last() =~= s);
    assert(s.push('<').drop_last() =~= s);
    assert(s.push('>').drop_last() =~= s);
    assert(s.push('"').drop_last() =~= s);
    assert(s.push('\'').drop_last() =~= s);
    assert(s.push(c).drop_last() =~= s);
    assert(gsdml::escaped(s) + seq![c] =~= gsdml::escaped(s).push(c));
}

} // verus!
