//! The typed data of a device: reads, writes, and what they refuse.
#![allow(dead_code)]

use pnio::api::{parse_mac, ApiError, IoDevice, MacTextError, SlotWriter};
use pnio::cm::{validate, ArParams, ArState, ConnectReq, DeviceModel};
use pnio::config::{DeviceConfig, Direction, Slot};
use pnio::data::FieldType::{Bool, Dint, Int, Real, Word};
use pnio::data::Value;
use pnio::device::{prepare_runner, DiagCommand, RtOptions};
use pnio::diag::{ChannelError, Diagnosis, Severity};
use pnio::eth::MacAddr;
use pnio::im::{Im0, SwRevision};
use pnio::rt::{DataStatus, Freshness, ImageError, IoImage, Layout, RtFrame, Validity, WatchdogState};

/// The device and the controller of the reference exchange.
const MAC: MacAddr = MacAddr([0x8c, 0xf3, 0x19, 0xcd, 0x19, 0xf8]);
const CPU_MAC: MacAddr = MacAddr([0xec, 0x1c, 0x5d, 0x61, 0xe7, 0x3f]);
const AR_UUID: &str = "e5e1aecc-b133-4b4d-b187-cc68b0211ed2";
const READ_AR_UUID: &str = "ef796d60-ef2b-9946-b39e-8531f5b7f966";
const OBJECT: &str = "dea00000-6c97-11d1-8271-000100020493";
const CPU_OBJECT: &str = "dea00000-6c97-11d1-8271-1064010e002a";
const DEVICE_IF: &str = "dea00001-6c97-11d1-8271-00a02442df7d";
const CONTROLLER_IF: &str = "dea00002-6c97-11d1-8271-00a02442df7d";
const CPU_ACTIVITY: &str = "5c6e1f6a-0000-1010-a8c0-ec1c5d61e73f";
const SEED: &str = "14af198a-1234-1056-8079-8cf319cd19f8";

fn uuid_bytes(text: &str, little: bool) -> Vec<u8> {
    let hex: Vec<u8> = text.bytes().filter(|c| *c != b'-').collect();
    let mut b: Vec<u8> = hex
        .chunks(2)
        .map(|p| u8::from_str_radix(std::str::from_utf8(p).unwrap(), 16).unwrap())
        .collect();
    if little {
        b[..4].reverse();
        b[4..6].reverse();
        b[6..8].reverse();
    }
    b
}

fn put16(b: &mut Vec<u8>, v: u16) {
    b.extend_from_slice(&v.to_be_bytes());
}

fn put32(b: &mut Vec<u8>, v: u32) {
    b.extend_from_slice(&v.to_be_bytes());
}

fn block(block_type: u16, body: &[u8]) -> Vec<u8> {
    let mut b = Vec::new();
    put16(&mut b, block_type);
    put16(&mut b, body.len() as u16 + 2);
    b.extend_from_slice(&[1, 0]);
    b.extend_from_slice(body);
    b
}

fn iocr(kind: u16, frame_id: u16, data: &[(u16, u16, u16)], iocs: &[(u16, u16, u16)]) -> Vec<u8> {
    let mut b = Vec::new();
    for v in [kind, kind, 0x8892] {
        put16(&mut b, v);
    }
    put32(&mut b, 2);
    for v in [40, frame_id, 32, 32, 1, 0] {
        put16(&mut b, v);
    }
    put32(&mut b, 0xffff_ffff);
    for v in [3, 3, 0xc000, 0, 0, 0, 1] {
        put16(&mut b, v);
    }
    put32(&mut b, 0);
    for list in [data, iocs] {
        put16(&mut b, list.len() as u16);
        for o in list {
            put16(&mut b, o.0);
            put16(&mut b, o.1);
            put16(&mut b, o.2);
        }
    }
    block(0x0102, &b)
}

/// `(subslot, ident, properties, input length, output length)` of each submodule.
fn expected(slot: u16, module: u32, submodules: &[(u16, u32, u16, u16, u16)]) -> Vec<u8> {
    let mut b = Vec::new();
    put16(&mut b, 1);
    put32(&mut b, 0);
    put16(&mut b, slot);
    put32(&mut b, module);
    put16(&mut b, 0);
    put16(&mut b, submodules.len() as u16);
    for s in submodules {
        put16(&mut b, s.0);
        put32(&mut b, s.1);
        put16(&mut b, s.2);
        if s.2 != 2 {
            put16(&mut b, 1);
            put16(&mut b, s.3);
            b.extend_from_slice(&[1, 1]);
        }
        if s.2 >= 2 {
            put16(&mut b, 2);
            put16(&mut b, s.4);
            b.extend_from_slice(&[1, 1]);
        }
    }
    block(0x0104, &b)
}

fn connect_blocks() -> Vec<u8> {
    let name = b"plcxbbench.profinetxainterfacexb25fbd";
    let mut ar = Vec::new();
    put16(&mut ar, 1);
    ar.extend_from_slice(&uuid_bytes(AR_UUID, false));
    put16(&mut ar, 2);
    ar.extend_from_slice(&CPU_MAC.0);
    ar.extend_from_slice(&uuid_bytes(CPU_OBJECT, false));
    put32(&mut ar, 0x4000_0011);
    put16(&mut ar, 200);
    put16(&mut ar, 0x8892);
    put16(&mut ar, name.len() as u16);
    ar.extend_from_slice(name);
    let mut alarm = Vec::new();
    put16(&mut alarm, 1);
    put16(&mut alarm, 0x8892);
    put32(&mut alarm, 0);
    for v in [1, 3, 0, 256, 0xc000, 0xa000] {
        put16(&mut alarm, v);
    }
    [
        block(0x0101, &ar),
        iocr(
            1,
            0x8000,
            &[(0, 1, 0), (0, 0x8000, 1), (0, 0x8001, 2), (1, 1, 3), (3, 1, 6), (4, 1, 9)],
            &[(2, 1, 5), (3, 1, 8), (4, 1, 18)],
        ),
        iocr(
            2,
            0x8001,
            &[(2, 1, 4), (3, 1, 7), (4, 1, 10)],
            &[(0, 1, 0), (0, 0x8000, 1), (0, 0x8001, 2), (1, 1, 3), (3, 1, 6), (4, 1, 9)],
        ),
        expected(
            0,
            1,
            &[(1, 1, 0, 0, 0), (0x8000, 0x8000, 0, 0, 0), (0x8001, 0x8001, 0, 0, 0)],
        ),
        expected(1, 0x30, &[(1, 0x130, 1, 1, 0)]),
        expected(2, 0x31, &[(1, 0x131, 2, 0, 1)]),
        expected(3, 0x32, &[(1, 0x132, 3, 1, 1)]),
        expected(4, 0x40, &[(1, 0x140, 3, 8, 8)]),
        block(0x0103, &alarm),
    ]
    .concat()
}

fn connect_res_blocks() -> Vec<u8> {
    let mut ar = Vec::new();
    put16(&mut ar, 1);
    ar.extend_from_slice(&uuid_bytes(AR_UUID, false));
    put16(&mut ar, 2);
    ar.extend_from_slice(&MAC.0);
    put16(&mut ar, 0x8892);
    [
        block(0x8101, &ar),
        block(0x8102, &[0, 1, 0, 1, 0x80, 0x00]),
        block(0x8102, &[0, 2, 0, 2, 0x80, 0x01]),
        block(0x8103, &[0, 1, 0, 0, 0, 200]),
        block(0x8106, b"\x00\x0brt-labs-dev\x00"),
    ]
    .concat()
}

/// A record header and its data: `(api, slot, subslot)` and index.
fn record(block_type: u16, seq: u16, at: (u32, u16, u16), index: u16, data: &[u8]) -> Vec<u8> {
    let mut b = Vec::new();
    put16(&mut b, seq);
    b.extend_from_slice(&uuid_bytes(AR_UUID, false));
    put32(&mut b, at.0);
    put16(&mut b, at.1);
    put16(&mut b, at.2);
    put16(&mut b, 0);
    put16(&mut b, index);
    put32(&mut b, data.len() as u32);
    b.resize(58, 0);
    let mut r = block(block_type, &b);
    r.extend_from_slice(data);
    r
}

fn write_blocks() -> Vec<u8> {
    let nested = [
        record(
            8,
            1,
            (0, 0, 0x8000),
            0x8071,
            &[0x02, 0x50, 0x00, 0x08, 0x01, 0x00, 0x00, 0x00, 0x00, 0x00, 0x00, 0x01],
        ),
        record(8, 2, (0, 3, 1), 0x7b, &[0, 0, 0, 1]),
        record(8, 3, (0, 3, 1), 0x7c, &[0, 0, 0, 2]),
        record(8, 4, (0, 4, 1), 0x7d, &[0, 0, 0, 2]),
    ]
    .concat();
    record(8, 0, (0xffff_ffff, 0xffff, 0xffff), 0xe040, &nested)
}

fn write_res_blocks() -> Vec<u8> {
    [
        record(0x8008, 0, (0xffff_ffff, 0xffff, 0xffff), 0xe040, &[]),
        record(0x8008, 1, (0, 0, 0x8000), 0x8071, &[]),
        record(0x8008, 2, (0, 3, 1), 0x7b, &[]),
        record(0x8008, 3, (0, 3, 1), 0x7c, &[]),
        record(0x8008, 4, (0, 4, 1), 0x7d, &[]),
    ]
    .concat()
}

fn control(block_type: u16, command: u16) -> Vec<u8> {
    let mut b = vec![0, 0];
    b.extend_from_slice(&uuid_bytes(AR_UUID, false));
    for v in [2, 0, command, 0] {
        put16(&mut b, v);
    }
    block(block_type, &b)
}

fn read_blocks(slot: u16, subslot: u16) -> Vec<u8> {
    let mut b = vec![0, 7];
    b.extend_from_slice(&uuid_bytes(READ_AR_UUID, false));
    put32(&mut b, 0);
    for v in [slot, subslot, 0, 0xaff0] {
        put16(&mut b, v);
    }
    put32(&mut b, 0x8000);
    b.resize(58, 0);
    block(0x0009, &b)
}

/// The identity of the reference device and the I&M0 record it answers.
fn pnet_im0() -> Im0 {
    Im0 {
        order_id: "12345 Abcdefghijk".into(),
        serial_number: "007".into(),
        hardware_revision: 3,
        software_revision: SwRevision {
            prefix: 'V',
            functional: 0,
            bug_fix: 2,
            internal: 0,
        },
        revision_counter: 0,
        profile_id: 0x1234,
        profile_specific_type: 0x5678,
    }
}

fn pnet_im0_record() -> Vec<u8> {
    let mut b = vec![0x04, 0x93];
    b.extend_from_slice(b"12345 Abcdefghijk   ");
    b.extend_from_slice(b"007             ");
    b.extend_from_slice(&[0, 3, b'V', 0, 2, 0, 0, 0, 0x12, 0x34, 0x56, 0x78, 1, 1, 0, 0x0e]);
    block(0x0020, &b)
}

fn read_res_blocks(slot: u16, subslot: u16) -> Vec<u8> {
    let data = pnet_im0_record();
    let mut b = vec![0, 7];
    b.extend_from_slice(&uuid_bytes(READ_AR_UUID, false));
    put32(&mut b, 0);
    for v in [slot, subslot, 0, 0xaff0] {
        put16(&mut b, v);
    }
    put32(&mut b, data.len() as u32);
    b.resize(58, 0);
    [block(0x8009, &b), data].concat()
}

/// A DCE-RPC PDU: header, the NDR words, and blocks.
struct Pdu<'a> {
    response: bool,
    little: bool,
    flags: u8,
    object: &'a str,
    interface: &'a str,
    activity: &'a str,
    seq: u32,
    opnum: u16,
    first_word: u32,
    max_count: u32,
    blocks: Vec<u8>,
}

fn pdu_bytes(p: &Pdu) -> Vec<u8> {
    let w16 = |v: u16| if p.little { v.to_le_bytes() } else { v.to_be_bytes() };
    let w32 = |v: u32| if p.little { v.to_le_bytes() } else { v.to_be_bytes() };
    let mut b = vec![4, if p.response { 2 } else { 0 }, p.flags, 0];
    b.extend_from_slice(&[if p.little { 0x10 } else { 0 }, 0, 0, 0]);
    for u in [p.object, p.interface, p.activity] {
        b.extend_from_slice(&uuid_bytes(u, p.little));
    }
    for v in [0, 1, p.seq] {
        b.extend_from_slice(&w32(v));
    }
    for v in [p.opnum, 0xffff, 0xffff, 20 + p.blocks.len() as u16, 0] {
        b.extend_from_slice(&w16(v));
    }
    b.extend_from_slice(&[0, 0]);
    let n = p.blocks.len() as u32;
    for v in [p.first_word, n, p.max_count, 0, n] {
        b.extend_from_slice(&w32(v));
    }
    b.extend_from_slice(&p.blocks);
    b
}

/// A request of the controller, little-endian.
fn request(seq: u32, opnum: u16, blocks: Vec<u8>) -> Vec<u8> {
    let n = blocks.len() as u32;
    pdu_bytes(&Pdu {
        response: false,
        little: true,
        flags: 0x20,
        object: OBJECT,
        interface: DEVICE_IF,
        activity: CPU_ACTIVITY,
        seq,
        opnum,
        first_word: n,
        max_count: n,
        blocks,
    })
}

/// The device's answer to such a request, big-endian.
fn response(seq: u32, opnum: u16, request_len: u32, blocks: Vec<u8>) -> Vec<u8> {
    pdu_bytes(&Pdu {
        response: true,
        little: false,
        flags: 0x28,
        object: OBJECT,
        interface: DEVICE_IF,
        activity: CPU_ACTIVITY,
        seq,
        opnum,
        first_word: 0,
        max_count: request_len,
        blocks,
    })
}

fn pdu(name: &str) -> Vec<u8> {
    match name {
        "connect_req" => request(0, 0, connect_blocks()),
        "connect_res" => response(0, 0, 557, connect_res_blocks()),
        "write_req" => request(1, 3, write_blocks()),
        "write_res" => response(1, 3, 344, write_res_blocks()),
        "prmend_req" => request(2, 4, control(0x0110, 1)),
        "prmend_res" => response(2, 4, 32, control(0x8110, 8)),
        "appready_req" => pdu_bytes(&Pdu {
            response: false,
            little: false,
            flags: 0x20,
            object: CPU_OBJECT,
            interface: CONTROLLER_IF,
            activity: SEED,
            seq: 0,
            opnum: 4,
            first_word: 1340,
            max_count: 1340,
            blocks: control(0x0112, 2),
        }),
        "appready_res" => pdu_bytes(&Pdu {
            response: true,
            little: true,
            flags: 0x0a,
            object: CPU_OBJECT,
            interface: CONTROLLER_IF,
            activity: SEED,
            seq: 0,
            opnum: 4,
            first_word: 0,
            max_count: 1340,
            blocks: control(0x8112, 8),
        }),
        "im0_read_req" => request(0x40, 2, read_blocks(0, 1)),
        "im0_read_res" => response(0x40, 2, 64, read_res_blocks(0, 1)),
        "im0_read_req_if" => request(0x41, 2, read_blocks(0, 0x8000)),
        "im0_read_res_if" => response(0x41, 2, 64, read_res_blocks(0, 0x8000)),
        _ => panic!("no pdu {name}"),
    }
}


/// The blocks of a Connect request for `model`: DAP IOxS first, then per slot data + IOxS,
/// IOCS of the opposite direction last.
fn synthetic_connect_blocks(model: &DeviceModel) -> Vec<u8> {
    let reference = connect_blocks();
    let ar_len = 6 + 52 + 37;
    let mut blocks = reference[..ar_len].to_vec();
    let (mut in_data, mut in_iocs, mut out_data, mut out_iocs) = (vec![], vec![], vec![], vec![]);
    let (mut in_off, mut out_off): (u16, u16) = (0, 0);
    for s in &model.slots {
        for sm in &s.submodules {
            if sm.input_len > 0 || s.slot == 0 {
                in_data.push((s.slot, sm.subslot, in_off));
                in_off += sm.input_len + 1;
                out_iocs.push((s.slot, sm.subslot, out_off));
                out_off += 1;
            }
            if sm.output_len > 0 {
                out_data.push((s.slot, sm.subslot, out_off));
                out_off += sm.output_len + 1;
                in_iocs.push((s.slot, sm.subslot, in_off));
                in_off += 1;
            }
        }
    }
    let cr = |kind: u16, frame_id: u16, len: u16, data: &[(u16, u16, u16)], iocs: &[(u16, u16, u16)]| {
        let mut b = iocr(kind, frame_id, data, iocs);
        b[16..18].copy_from_slice(&len.max(40).to_be_bytes());
        b[22..24].copy_from_slice(&1u16.to_be_bytes()); // reduction ratio (1 ms)
        b
    };
    blocks.extend(cr(1, 0x8000, in_off, &in_data, &in_iocs));
    blocks.extend(cr(2, 0x8001, out_off, &out_data, &out_iocs));
    for s in &model.slots {
        let submodules: Vec<(u16, u32, u16, u16, u16)> = s
            .submodules
            .iter()
            .map(|sm| {
                let props = match (sm.input_len > 0, sm.output_len > 0) {
                    (false, false) => 0,
                    (true, false) => 1,
                    (false, true) => 2,
                    (true, true) => 3,
                };
                (sm.subslot, sm.submodule_ident, props, sm.input_len, sm.output_len)
            })
            .collect();
        blocks.extend(expected(s.slot, s.module_ident, &submodules));
    }
    blocks.extend_from_slice(&reference[reference.len() - 26..]);
    blocks
}


fn sample() -> DeviceConfig {
    DeviceConfig::builder("pnio-dev")
        .input(Slot(1), &[Real; 16])
        .input(Slot(2), &[Bool; 32])
        .output(Slot(3), &[Real; 16])
        .output(Slot(4), &[Bool; 32])
        .build()
        .unwrap()
}

/// A device whose AR is at `Data`, with its image laid out.
struct Started {
    dev: IoDevice,
    image: IoImage,
    params: ArParams,
    layout: Layout,
}

fn started() -> Started {
    let cfg = sample();
    let model = cfg.model(MAC);
    let req = ConnectReq::parse(&synthetic_connect_blocks(&model)).unwrap();
    let params = validate(&req, &model).unwrap();
    let rt = Some(RtOptions {
        iface: "mock".into(),
        cpu_pin: None,
        rt_priority: None,
        lock_memory: false,
    });
    let mut image = IoImage::empty();
    let rt_cfg = prepare_runner(&rt, Some(&params), &model, MAC, &mut image)
        .unwrap()
        .unwrap();
    assert_eq!((rt_cfg.our_mac, rt_cfg.cpu_mac), (MAC, CPU_MAC));
    assert!(IoDevice::ready(ArState::Data, &image));
    assert!(!IoDevice::ready(ArState::Connected, &image));
    Started {
        dev: IoDevice::new(cfg),
        image,
        params,
        layout: rt_cfg.layout,
    }
}

impl Started {
    fn read_real(&self, slot: Slot, index: usize) -> Result<f32, ApiError> {
        self.dev.read_real(&self.image, slot, index).map(f32::from_bits)
    }
    fn read_bool(&self, slot: Slot, index: usize) -> Result<bool, ApiError> {
        self.dev.read_bool(&self.image, slot, index)
    }
    fn write_real(&mut self, slot: Slot, index: usize, v: f32) -> Result<(), ApiError> {
        self.dev.write_real(&mut self.image, slot, index, v.to_bits())
    }
    fn inputs(&self) -> Vec<u8> {
        let mut buf = vec![0u8; self.layout.input_cr.data_length];
        assert!(self.image.rt_snapshot_inputs(&mut buf));
        buf
    }
    fn input_off(&self, slot: u16) -> usize {
        let mut objects = self.layout.input_cr.objects.iter();
        objects.find(|o| o.slot == slot).unwrap().data_off
    }
    /// A cyclic frame of the controller with `sets` written at their places.
    fn cpu_frame(&self, sets: &[(Slot, usize, Value)]) -> Vec<u8> {
        let mut csdu = vec![0u8; self.layout.output_cr.data_length];
        for obj in &self.layout.output_cr.objects {
            csdu[obj.iops_off] = 0x80;
        }
        for cs in &self.layout.output_cr.iocs {
            csdu[cs.iocs_off] = 0x80;
        }
        for &(slot, index, value) in sets {
            let mut objects = self.layout.output_cr.objects.iter();
            let off = objects.find(|o| o.slot == slot.0).unwrap().data_off;
            let f = self.dev.config().field(slot, Direction::Output, index).unwrap();
            value
                .encode_at(&mut csdu, off + f.byte as usize, f.bit as usize)
                .unwrap();
        }
        let mut buf = vec![0u8; pnio::rt::frame_len(csdu.len())];
        let n = RtFrame {
            frame_id: 0x8001,
            csdu: &csdu,
            cycle_counter: 1024,
            data_status: DataStatus(0x35),
            transfer_status: 0,
        }
        .write(&mut buf, MAC, self.params.initiator_mac)
        .unwrap();
        buf.truncate(n);
        buf
    }
    fn receive(&mut self, frame: &[u8]) {
        let (_, f) = RtFrame::parse(frame).unwrap();
        assert!(self.image.rt_publish(
            f.csdu,
            Validity {
                provider_run: true,
                primary: true,
                watchdog: WatchdogState::InWindow,
                last_rx_age: Some(1_000_000),
                cycle: 1024,
            }
        ));
    }
}

#[test]
fn reads_before_data_are_no_layout_yet() {
    let mut dev = IoDevice::new(sample());
    let mut image = IoImage::empty();
    assert!(!IoDevice::ready(ArState::Idle, &image));
    assert_eq!(
        dev.read_real(&image, Slot(3), 0).unwrap_err(),
        ApiError::NoLayoutYet
    );
    assert_eq!(
        dev.write_real(&mut image, Slot(1), 0, 1.0f32.to_bits()).unwrap_err(),
        ApiError::NoLayoutYet
    );
}

#[test]
fn typed_errors_come_from_the_config_table() {
    let mut s = started();
    assert_eq!(s.read_real(Slot(9), 0).unwrap_err(), ApiError::UnknownSlot(9));
    assert_eq!(
        s.read_real(Slot(3), 16).unwrap_err(),
        ApiError::IndexOutOfRange {
            slot: 3,
            index: 16,
            len: 16
        }
    );
    assert_eq!(
        s.read_bool(Slot(3), 0).unwrap_err(),
        ApiError::TypeMismatch {
            slot: 3,
            index: 0,
            expected: Real,
            got: Bool
        }
    );
    assert_eq!(
        s.write_real(Slot(3), 0, 1.0).unwrap_err(),
        ApiError::WrongDirection {
            slot: 3,
            expected: Direction::Output
        }
    );
    assert_eq!(
        s.read_real(Slot(1), 0).unwrap_err(),
        ApiError::WrongDirection {
            slot: 1,
            expected: Direction::Input
        }
    );
}

#[test]
fn writes_publish_the_whole_submodule_and_reads_decode_cpu_frames() {
    let mut s = started();
    // Group write: two fields of slot 1, one publish.
    s.dev
        .with_inputs(&mut s.image, Slot(1), |w: &mut SlotWriter| {
            w.real_bits(0, 1.0f32.to_bits())?;
            w.real_bits(15, (-2.5f32).to_bits())
        })
        .unwrap();
    s.dev.write_bool(&mut s.image, Slot(2), 31, true).unwrap();
    let buf = s.inputs();
    let off = s.input_off(1);
    let s1 = &buf[off..off + 64];
    assert_eq!(&s1[..4], &[0x3F, 0x80, 0, 0]);
    assert_eq!(&s1[60..64], &[0xC0, 0x20, 0, 0]);

    let frame = s.cpu_frame(&[
        (Slot(3), 0, Value::Real(1.0f32.to_bits())),
        (Slot(4), 31, Value::Bool(true)),
    ]);
    s.receive(&frame);
    let snap = s.dev.outputs(&s.image, Slot(3)).unwrap();
    assert_eq!(f32::from_bits(snap.real_bits(0).unwrap()), 1.0);
    assert_eq!(s.read_real(Slot(3), 0).unwrap(), 1.0);
    assert_eq!(s.image.validity().freshness(), Freshness::Fresh);
    // Bit 7 of slot 4 byte 3 (field index 31) was set; its neighbor (index 30,
    // bit 6) must still read false.
    assert!(s.read_bool(Slot(4), 31).unwrap());
    assert!(!s.read_bool(Slot(4), 30).unwrap());
}

#[test]
fn with_inputs_rolls_back_the_working_copy_on_error() {
    let mut s = started();
    let off = s.input_off(1);
    // Field 0 succeeds, field 99 (out of slot 1's 16 REALs) fails: the whole closure must
    // be rejected without publishing field 0's write.
    let err = s
        .dev
        .with_inputs(&mut s.image, Slot(1), |w: &mut SlotWriter| {
            w.real_bits(0, 1.0f32.to_bits())?;
            w.real_bits(99, 0)
        })
        .unwrap_err();
    assert_eq!(
        err,
        ApiError::IndexOutOfRange {
            slot: 1,
            index: 99,
            len: 16
        }
    );
    assert_eq!(&s.inputs()[off..off + 4], &[0, 0, 0, 0]);
    // A later, independent write to a different field of the same slot must see
    // the working copy exactly as it was before the failed attempt.
    s.write_real(Slot(1), 1, 2.0).unwrap();
    let buf = s.inputs();
    let s1 = &buf[off..off + 64];
    assert_eq!(&s1[0..4], &[0, 0, 0, 0]);
    assert_eq!(&s1[4..8], &[0x40, 0x00, 0x00, 0x00]);
}

#[test]
fn typed_round_trip_with_the_sample_config() {
    let mut s = started();
    // Our inputs: REAL 1.0 at slot 1 index 0, -2.5 at index 15, bits 0 and 31 of slot 2.
    s.write_real(Slot(1), 0, 1.0).unwrap();
    s.write_real(Slot(1), 15, -2.5).unwrap();
    s.dev.write_bool(&mut s.image, Slot(2), 0, true).unwrap();
    s.dev.write_bool(&mut s.image, Slot(2), 31, true).unwrap();

    // A CPU frame: REAL 1.0 at slot 3 index 0, -2.5 at index 15, bit 7 of slot 4 byte 3
    // (index 31).
    let frame = s.cpu_frame(&[
        (Slot(3), 0, Value::Real(1.0f32.to_bits())),
        (Slot(3), 15, Value::Real((-2.5f32).to_bits())),
        (Slot(4), 31, Value::Bool(true)),
    ]);
    s.receive(&frame);
    let snap = s.dev.outputs(&s.image, Slot(3)).unwrap();
    assert_eq!(f32::from_bits(snap.real_bits(0).unwrap()), 1.0);
    assert_eq!(f32::from_bits(snap.real_bits(15).unwrap()), -2.5);
    assert!(s.read_bool(Slot(4), 31).unwrap());
    assert!(!s.read_bool(Slot(4), 30).unwrap());

    // The frame we produce carries our inputs at the Input CR offsets.
    let csdu = s.inputs();
    let s1 = s.input_off(1);
    assert_eq!(&csdu[s1..s1 + 4], &[0x3F, 0x80, 0, 0]);
    let s2 = s.input_off(2);
    assert_eq!(csdu[s2], 0x01);
    assert_eq!(csdu[s2 + 3], 0x80);
}

#[test]
fn every_type_of_field_reads_back_what_is_set() {
    let cfg = DeviceConfig::builder("a")
        .submodule(
            Slot(1),
            "all",
            &[Bool, Int, Word, Dint, Real],
            &[Bool, Int, Word, Dint, Real],
        )
        .build()
        .unwrap();
    let model = cfg.model(MAC);
    let req = ConnectReq::parse(&synthetic_connect_blocks(&model)).unwrap();
    let layout = Layout::from_ar(&validate(&req, &model).unwrap(), &model).unwrap();
    let mut image = IoImage::new(&layout);
    let mut dev = IoDevice::new(cfg);
    dev.write_bool(&mut image, Slot(1), 0, true).unwrap();
    dev.write_int(&mut image, Slot(1), 1, -2).unwrap();
    dev.write_word(&mut image, Slot(1), 2, 0xbeef).unwrap();
    dev.write_dint(&mut image, Slot(1), 3, -70_000).unwrap();
    dev.write_real(&mut image, Slot(1), 4, 1.5f32.to_bits()).unwrap();
    let mut csdu = vec![0u8; layout.input_cr.data_length];
    assert!(image.rt_snapshot_inputs(&mut csdu));
    let from = layout.input_cr.objects.iter().find(|o| o.slot == 1).unwrap();
    let to = layout.output_cr.objects.iter().find(|o| o.slot == 1).unwrap();
    let mut out = vec![0u8; layout.output_cr.data_length];
    out[to.data_off..to.data_off + to.data_len]
        .copy_from_slice(&csdu[from.data_off..from.data_off + from.data_len]);
    assert_eq!(
        &out[to.data_off..to.data_off + to.data_len],
        &[1, 0xff, 0xfe, 0xbe, 0xef, 0xff, 0xfe, 0xee, 0x90, 0x3f, 0xc0, 0, 0]
    );
    assert!(image.rt_publish(&out, image.validity()));
    assert_eq!(dev.read_bool(&image, Slot(1), 0), Ok(true));
    assert_eq!(dev.read_int(&image, Slot(1), 1), Ok(-2));
    assert_eq!(dev.read_word(&image, Slot(1), 2), Ok(0xbeef));
    assert_eq!(dev.read_dint(&image, Slot(1), 3), Ok(-70_000));
    assert_eq!(dev.read_real(&image, Slot(1), 4), Ok(1.5f32.to_bits()));
    assert_eq!(dev.read(&image, Slot(1), 1), Ok(Value::Int(-2)));
}

#[test]
fn image_errors_become_api_errors() {
    assert_eq!(
        ApiError::from(ImageError::UnknownSubmodule { slot: 1, subslot: 1 }),
        ApiError::NoLayoutYet
    );
    let e = ImageError::LengthMismatch { expected: 2, got: 1 };
    assert_eq!(ApiError::from(e), ApiError::Image(e));
}

#[test]
fn mac_addresses_are_read_from_text() {
    assert_eq!(parse_mac("8c:f3:19:cd:19:f8\n"), Ok(MAC));
    assert_eq!(parse_mac("8C:F3:19:CD:19:F8"), Ok(MAC));
    assert!(parse_mac("8c:f3:19:cd:19").is_err());
    assert!(parse_mac("8c:f3:19:cd:19:zz").is_err());
    assert!(parse_mac("8c:f3:19:cd:19:f8:00").is_err());
    assert!(parse_mac("").is_err());
    let _: fn(&str) -> Result<MacAddr, MacTextError> = parse_mac;
}

#[test]
fn diagnosis_commands_need_a_declared_slot() {
    let cfg = DeviceConfig::builder("pnio-dev")
        .input(Slot(1), &[Real])
        .output(Slot(3), &[Real])
        .submodule(Slot(4), "both", &[Word], &[Word])
        .build()
        .unwrap();
    let dev = IoDevice::new(cfg);
    for (slot, direction) in [
        (1, Direction::Input),
        (3, Direction::Output),
        (4, Direction::InputOutput),
    ] {
        assert_eq!(
            dev.raise_diagnosis(Slot(slot), 7, ChannelError::LineBreak, Severity::Fault),
            Ok(DiagCommand::Raise(Diagnosis {
                slot: Slot(slot),
                channel: 7,
                error: ChannelError::LineBreak,
                severity: Severity::Fault,
                direction,
            }))
        );
        assert_eq!(
            dev.clear_diagnosis(Slot(slot), 7, ChannelError::LineBreak),
            Ok(DiagCommand::Clear {
                slot: Slot(slot),
                channel: 7,
                error: ChannelError::LineBreak,
            })
        );
    }
    assert_eq!(
        dev.raise_diagnosis(Slot(2), 0, ChannelError::LineBreak, Severity::Fault),
        Err(ApiError::UnknownSlot(2))
    );
    assert_eq!(
        dev.clear_diagnosis(Slot(0), 0, ChannelError::LineBreak),
        Err(ApiError::UnknownSlot(0))
    );
}

#[test]
fn an_edit_of_a_slot_without_inputs_is_refused() {
    let mut s = started();
    let none = |_: &mut SlotWriter| -> Result<(), ApiError> { panic!("never run") };
    assert_eq!(
        s.dev.with_inputs(&mut s.image, Slot(3), none),
        Err(ApiError::WrongDirection {
            slot: 3,
            expected: Direction::Output
        })
    );
    assert_eq!(
        s.dev.with_inputs(&mut s.image, Slot(9), none),
        Err(ApiError::UnknownSlot(9))
    );
    // without a layout the edit is kept, and only its publish is refused
    let mut image = IoImage::empty();
    let edit = |w: &mut SlotWriter| w.real_bits(0, 7).map(|()| 3);
    assert_eq!(
        s.dev.with_inputs(&mut image, Slot(1), edit),
        Err(ApiError::NoLayoutYet)
    );
    let next = |w: &mut SlotWriter| w.real_bits(1, 8).map(|()| 4);
    assert_eq!(s.dev.with_inputs(&mut s.image, Slot(1), next), Ok(4));
    let off = s.input_off(1);
    assert_eq!(&s.inputs()[off..off + 8], &[0, 0, 0, 7, 0, 0, 0, 8]);
}

#[test]
fn a_working_copy_belongs_to_its_device() {
    let s = started();
    let w = s.dev.writer(Slot(1)).unwrap();
    assert!(s.dev.accepts(&w));
    let other = DeviceConfig::builder("other")
        .input(Slot(1), &[Real])
        .build()
        .unwrap();
    assert!(!IoDevice::new(other).accepts(&w));
}
