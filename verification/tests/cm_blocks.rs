//! PNIO blocks: the requests of the reference exchange, and what the device answers.
#![allow(dead_code)]

use pnio::cm::block::{
    ty, AlarmCrBlockReq, ArBlockReq, BlockHeader, DataDescription, ExpectedSubmoduleBlockReq,
    IocrBlockReq, IocrObject,
};
use pnio::cm::connect::FRAME_ID_DEVICE_SELECTS;
use pnio::cm::{
    app_ready_req, build_connect_res, build_write_res, cmd, prm_end_done, release_done, validate,
    BlockError, CmError, ConnectBlock, ConnectReq, ControlBlock, DeviceModel, PnioStatus, WriteReq,
};
use pnio::eth::MacAddr;
use pnio::im::{Im0, SwRevision};

/// The device and the controller of the reference exchange.
const MAC: MacAddr = MacAddr([0x8c, 0xf3, 0x19, 0xcd, 0x19, 0xf8]);
const CPU_MAC: MacAddr = MacAddr([0xec, 0x1c, 0x5d, 0x61, 0xe7, 0x3f]);
const AR_UUID: &str = "e5e1aecc-b133-4b4d-b187-cc68b0211ed2";
const READ_AR_UUID: &str = "ef796d60-ef2b-9946-b39e-8531f5b7f966";
const OBJECT: &str = "dea00000-6c97-11d1-8271-000100020493";
const CPU_OBJECT: &str = "dea00000-6c97-11d1-8271-1064010e002a";
const DEVICE_IF: &str = "dea00001-6c97-11d1-8271-00a02442df7d";
const CONTROLLER_IF: &str = "dea00002-6c97-11d1-8271-00a02442df7d";
const CPU_ACTIVITY: &str = "5c6e1f6a-0000-1010-a8c0-ec1c5d61e73f";
const SEED: &str = "14af198a-1234-1056-8079-8cf319cd19f8";

fn uuid_bytes(text: &str, little: bool) -> Vec<u8> {
    let hex: Vec<u8> = text.bytes().filter(|c| *c != b'-').collect();
    let mut b: Vec<u8> = hex
        .chunks(2)
        .map(|p| u8::from_str_radix(std::str::from_utf8(p).unwrap(), 16).unwrap())
        .collect();
    if little {
        b[..4].reverse();
        b[4..6].reverse();
        b[6..8].reverse();
    }
    b
}

fn put16(b: &mut Vec<u8>, v: u16) {
    b.extend_from_slice(&v.to_be_bytes());
}

fn put32(b: &mut Vec<u8>, v: u32) {
    b.extend_from_slice(&v.to_be_bytes());
}

fn block(block_type: u16, body: &[u8]) -> Vec<u8> {
    let mut b = Vec::new();
    put16(&mut b, block_type);
    put16(&mut b, body.len() as u16 + 2);
    b.extend_from_slice(&[1, 0]);
    b.extend_from_slice(body);
    b
}

fn iocr(kind: u16, frame_id: u16, data: &[(u16, u16, u16)], iocs: &[(u16, u16, u16)]) -> Vec<u8> {
    let mut b = Vec::new();
    for v in [kind, kind, 0x8892] {
        put16(&mut b, v);
    }
    put32(&mut b, 2);
    for v in [40, frame_id, 32, 32, 1, 0] {
        put16(&mut b, v);
    }
    put32(&mut b, 0xffff_ffff);
    for v in [3, 3, 0xc000, 0, 0, 0, 1] {
        put16(&mut b, v);
    }
    put32(&mut b, 0);
    for list in [data, iocs] {
        put16(&mut b, list.len() as u16);
        for o in list {
            put16(&mut b, o.0);
            put16(&mut b, o.1);
            put16(&mut b, o.2);
        }
    }
    block(0x0102, &b)
}

/// `(subslot, ident, properties, input length, output length)` of each submodule.
fn expected(slot: u16, module: u32, submodules: &[(u16, u32, u16, u16, u16)]) -> Vec<u8> {
    let mut b = Vec::new();
    put16(&mut b, 1);
    put32(&mut b, 0);
    put16(&mut b, slot);
    put32(&mut b, module);
    put16(&mut b, 0);
    put16(&mut b, submodules.len() as u16);
    for s in submodules {
        put16(&mut b, s.0);
        put32(&mut b, s.1);
        put16(&mut b, s.2);
        if s.2 != 2 {
            put16(&mut b, 1);
            put16(&mut b, s.3);
            b.extend_from_slice(&[1, 1]);
        }
        if s.2 >= 2 {
            put16(&mut b, 2);
            put16(&mut b, s.4);
            b.extend_from_slice(&[1, 1]);
        }
    }
    block(0x0104, &b)
}

fn connect_blocks() -> Vec<u8> {
    let name = b"plcxbbench.profinetxainterfacexb25fbd";
    let mut ar = Vec::new();
    put16(&mut ar, 1);
    ar.extend_from_slice(&uuid_bytes(AR_UUID, false));
    put16(&mut ar, 2);
    ar.extend_from_slice(&CPU_MAC.0);
    ar.extend_from_slice(&uuid_bytes(CPU_OBJECT, false));
    put32(&mut ar, 0x4000_0011);
    put16(&mut ar, 200);
    put16(&mut ar, 0x8892);
    put16(&mut ar, name.len() as u16);
    ar.extend_from_slice(name);
    let mut alarm = Vec::new();
    put16(&mut alarm, 1);
    put16(&mut alarm, 0x8892);
    put32(&mut alarm, 0);
    for v in [1, 3, 0, 256, 0xc000, 0xa000] {
        put16(&mut alarm, v);
    }
    [
        block(0x0101, &ar),
        iocr(
            1,
            0x8000,
            &[(0, 1, 0), (0, 0x8000, 1), (0, 0x8001, 2), (1, 1, 3), (3, 1, 6), (4, 1, 9)],
            &[(2, 1, 5), (3, 1, 8), (4, 1, 18)],
        ),
        iocr(
            2,
            0x8001,
            &[(2, 1, 4), (3, 1, 7), (4, 1, 10)],
            &[(0, 1, 0), (0, 0x8000, 1), (0, 0x8001, 2), (1, 1, 3), (3, 1, 6), (4, 1, 9)],
        ),
        expected(
            0,
            1,
            &[(1, 1, 0, 0, 0), (0x8000, 0x8000, 0, 0, 0), (0x8001, 0x8001, 0, 0, 0)],
        ),
        expected(1, 0x30, &[(1, 0x130, 1, 1, 0)]),
        expected(2, 0x31, &[(1, 0x131, 2, 0, 1)]),
        expected(3, 0x32, &[(1, 0x132, 3, 1, 1)]),
        expected(4, 0x40, &[(1, 0x140, 3, 8, 8)]),
        block(0x0103, &alarm),
    ]
    .concat()
}

fn connect_res_blocks() -> Vec<u8> {
    let mut ar = Vec::new();
    put16(&mut ar, 1);
    ar.extend_from_slice(&uuid_bytes(AR_UUID, false));
    put16(&mut ar, 2);
    ar.extend_from_slice(&MAC.0);
    put16(&mut ar, 0x8892);
    [
        block(0x8101, &ar),
        block(0x8102, &[0, 1, 0, 1, 0x80, 0x00]),
        block(0x8102, &[0, 2, 0, 2, 0x80, 0x01]),
        block(0x8103, &[0, 1, 0, 0, 0, 200]),
        block(0x8106, b"\x00\x0brt-labs-dev\x00"),
    ]
    .concat()
}

/// A record header and its data: `(api, slot, subslot)` and index.
fn record(block_type: u16, seq: u16, at: (u32, u16, u16), index: u16, data: &[u8]) -> Vec<u8> {
    let mut b = Vec::new();
    put16(&mut b, seq);
    b.extend_from_slice(&uuid_bytes(AR_UUID, false));
    put32(&mut b, at.0);
    put16(&mut b, at.1);
    put16(&mut b, at.2);
    put16(&mut b, 0);
    put16(&mut b, index);
    put32(&mut b, data.len() as u32);
    b.resize(58, 0);
    let mut r = block(block_type, &b);
    r.extend_from_slice(data);
    r
}

fn write_blocks() -> Vec<u8> {
    let nested = [
        record(
            8,
            1,
            (0, 0, 0x8000),
            0x8071,
            &[0x02, 0x50, 0x00, 0x08, 0x01, 0x00, 0x00, 0x00, 0x00, 0x00, 0x00, 0x01],
        ),
        record(8, 2, (0, 3, 1), 0x7b, &[0, 0, 0, 1]),
        record(8, 3, (0, 3, 1), 0x7c, &[0, 0, 0, 2]),
        record(8, 4, (0, 4, 1), 0x7d, &[0, 0, 0, 2]),
    ]
    .concat();
    record(8, 0, (0xffff_ffff, 0xffff, 0xffff), 0xe040, &nested)
}

fn write_res_blocks() -> Vec<u8> {
    [
        record(0x8008, 0, (0xffff_ffff, 0xffff, 0xffff), 0xe040, &[]),
        record(0x8008, 1, (0, 0, 0x8000), 0x8071, &[]),
        record(0x8008, 2, (0, 3, 1), 0x7b, &[]),
        record(0x8008, 3, (0, 3, 1), 0x7c, &[]),
        record(0x8008, 4, (0, 4, 1), 0x7d, &[]),
    ]
    .concat()
}

fn control(block_type: u16, command: u16) -> Vec<u8> {
    let mut b = vec![0, 0];
    b.extend_from_slice(&uuid_bytes(AR_UUID, false));
    for v in [2, 0, command, 0] {
        put16(&mut b, v);
    }
    block(block_type, &b)
}

fn read_blocks(slot: u16, subslot: u16) -> Vec<u8> {
    let mut b = vec![0, 7];
    b.extend_from_slice(&uuid_bytes(READ_AR_UUID, false));
    put32(&mut b, 0);
    for v in [slot, subslot, 0, 0xaff0] {
        put16(&mut b, v);
    }
    put32(&mut b, 0x8000);
    b.resize(58, 0);
    block(0x0009, &b)
}

/// The identity of the reference device and the I&M0 record it answers.
fn pnet_im0() -> Im0 {
    Im0 {
        order_id: "12345 Abcdefghijk".into(),
        serial_number: "007".into(),
        hardware_revision: 3,
        software_revision: SwRevision {
            prefix: 'V',
            functional: 0,
            bug_fix: 2,
            internal: 0,
        },
        revision_counter: 0,
        profile_id: 0x1234,
        profile_specific_type: 0x5678,
    }
}

fn pnet_im0_record() -> Vec<u8> {
    let mut b = vec![0x04, 0x93];
    b.extend_from_slice(b"12345 Abcdefghijk   ");
    b.extend_from_slice(b"007             ");
    b.extend_from_slice(&[0, 3, b'V', 0, 2, 0, 0, 0, 0x12, 0x34, 0x56, 0x78, 1, 1, 0, 0x0e]);
    block(0x0020, &b)
}

fn read_res_blocks(slot: u16, subslot: u16) -> Vec<u8> {
    let data = pnet_im0_record();
    let mut b = vec![0, 7];
    b.extend_from_slice(&uuid_bytes(READ_AR_UUID, false));
    put32(&mut b, 0);
    for v in [slot, subslot, 0, 0xaff0] {
        put16(&mut b, v);
    }
    put32(&mut b, data.len() as u32);
    b.resize(58, 0);
    [block(0x8009, &b), data].concat()
}

/// A DCE-RPC PDU: header, the NDR words, and blocks.
struct Pdu<'a> {
    response: bool,
    little: bool,
    flags: u8,
    object: &'a str,
    interface: &'a str,
    activity: &'a str,
    seq: u32,
    opnum: u16,
    first_word: u32,
    max_count: u32,
    blocks: Vec<u8>,
}

fn pdu_bytes(p: &Pdu) -> Vec<u8> {
    let w16 = |v: u16| if p.little { v.to_le_bytes() } else { v.to_be_bytes() };
    let w32 = |v: u32| if p.little { v.to_le_bytes() } else { v.to_be_bytes() };
    let mut b = vec![4, if p.response { 2 } else { 0 }, p.flags, 0];
    b.extend_from_slice(&[if p.little { 0x10 } else { 0 }, 0, 0, 0]);
    for u in [p.object, p.interface, p.activity] {
        b.extend_from_slice(&uuid_bytes(u, p.little));
    }
    for v in [0, 1, p.seq] {
        b.extend_from_slice(&w32(v));
    }
    for v in [p.opnum, 0xffff, 0xffff, 20 + p.blocks.len() as u16, 0] {
        b.extend_from_slice(&w16(v));
    }
    b.extend_from_slice(&[0, 0]);
    let n = p.blocks.len() as u32;
    for v in [p.first_word, n, p.max_count, 0, n] {
        b.extend_from_slice(&w32(v));
    }
    b.extend_from_slice(&p.blocks);
    b
}

/// A request of the controller, little-endian.
fn request(seq: u32, opnum: u16, blocks: Vec<u8>) -> Vec<u8> {
    let n = blocks.len() as u32;
    pdu_bytes(&Pdu {
        response: false,
        little: true,
        flags: 0x20,
        object: OBJECT,
        interface: DEVICE_IF,
        activity: CPU_ACTIVITY,
        seq,
        opnum,
        first_word: n,
        max_count: n,
        blocks,
    })
}

/// The device's answer to such a request, big-endian.
fn response(seq: u32, opnum: u16, request_len: u32, blocks: Vec<u8>) -> Vec<u8> {
    pdu_bytes(&Pdu {
        response: true,
        little: false,
        flags: 0x28,
        object: OBJECT,
        interface: DEVICE_IF,
        activity: CPU_ACTIVITY,
        seq,
        opnum,
        first_word: 0,
        max_count: request_len,
        blocks,
    })
}

fn pdu(name: &str) -> Vec<u8> {
    match name {
        "connect_req" => request(0, 0, connect_blocks()),
        "connect_res" => response(0, 0, 557, connect_res_blocks()),
        "write_req" => request(1, 3, write_blocks()),
        "write_res" => response(1, 3, 344, write_res_blocks()),
        "prmend_req" => request(2, 4, control(0x0110, 1)),
        "prmend_res" => response(2, 4, 32, control(0x8110, 8)),
        "appready_req" => pdu_bytes(&Pdu {
            response: false,
            little: false,
            flags: 0x20,
            object: CPU_OBJECT,
            interface: CONTROLLER_IF,
            activity: SEED,
            seq: 0,
            opnum: 4,
            first_word: 1340,
            max_count: 1340,
            blocks: control(0x0112, 2),
        }),
        "appready_res" => pdu_bytes(&Pdu {
            response: true,
            little: true,
            flags: 0x0a,
            object: CPU_OBJECT,
            interface: CONTROLLER_IF,
            activity: SEED,
            seq: 0,
            opnum: 4,
            first_word: 0,
            max_count: 1340,
            blocks: control(0x8112, 8),
        }),
        "im0_read_req" => request(0x40, 2, read_blocks(0, 1)),
        "im0_read_res" => response(0x40, 2, 64, read_res_blocks(0, 1)),
        "im0_read_req_if" => request(0x41, 2, read_blocks(0, 0x8000)),
        "im0_read_res_if" => response(0x41, 2, 64, read_res_blocks(0, 0x8000)),
        _ => panic!("no pdu {name}"),
    }
}

#[test]
fn read_all_connect_blocks_in_order() {
    let b = connect_blocks();
    let all = BlockHeader::read_all(&b).unwrap();
    let types: Vec<u16> = all.iter().map(|(h, _)| h.block_type).collect();
    assert_eq!(
        types,
        vec![0x0101, 0x0102, 0x0102, 0x0104, 0x0104, 0x0104, 0x0104, 0x0104, 0x0103]
    );
    assert_eq!(all[0].0.block_length, 91);
    assert_eq!(all[0].1.len(), 89);
}

#[test]
fn parse_ar_block_req() {
    let b = connect_blocks();
    let (h, body) = BlockHeader::parse(&b).unwrap();
    assert_eq!(h.block_type, ty::AR_BLOCK_REQ);
    let ar = ArBlockReq::parse(body).unwrap();
    assert_eq!(ar.ar_type, 1);
    assert_eq!(
        ar.ar_uuid.to_string(),
        "e5e1aecc-b133-4b4d-b187-cc68b0211ed2"
    );
    assert_eq!(ar.session_key, 2);
    assert_eq!(ar.initiator_mac.0, [0xec, 0x1c, 0x5d, 0x61, 0xe7, 0x3f]);
    assert_eq!(
        ar.initiator_object_uuid.to_string(),
        "dea00000-6c97-11d1-8271-1064010e002a"
    );
    assert_eq!(ar.ar_properties, 0x4000_0011);
    assert_eq!(ar.activity_timeout_factor, 200);
    assert_eq!(ar.initiator_udp_rt_port, 0x8892);
    assert_eq!(ar.station_name, "plcxbbench.profinetxainterfacexb25fbd");
}

#[test]
fn parse_iocr_blocks() {
    let b = connect_blocks();
    let all = BlockHeader::read_all(&b).unwrap();
    let input = IocrBlockReq::parse(all[1].1).unwrap();
    assert_eq!(
        (input.iocr_type, input.reference, input.frame_id),
        (1, 1, 0x8000)
    );
    assert_eq!(
        (
            input.data_length,
            input.send_clock_factor,
            input.reduction_ratio
        ),
        (40, 32, 32)
    );
    assert_eq!(
        (
            input.watchdog_factor,
            input.data_hold_factor,
            input.tag_header
        ),
        (3, 3, 0xc000)
    );
    assert_eq!(input.frame_send_offset, 0xffff_ffff);
    assert_eq!(input.apis.len(), 1);
    assert_eq!(input.apis[0].io_data.len(), 6);
    assert_eq!(input.apis[0].iocs.len(), 3);
    assert_eq!(
        input.apis[0].io_data[5],
        IocrObject {
            slot: 4,
            subslot: 1,
            frame_offset: 9
        }
    );
    assert_eq!(
        input.apis[0].iocs[2],
        IocrObject {
            slot: 4,
            subslot: 1,
            frame_offset: 18
        }
    );
    let output = IocrBlockReq::parse(all[2].1).unwrap();
    assert_eq!(
        (output.iocr_type, output.reference, output.frame_id),
        (2, 2, 0x8001)
    );
    assert_eq!(
        (output.apis[0].io_data.len(), output.apis[0].iocs.len()),
        (3, 6)
    );
}

#[test]
fn parse_expected_submodules() {
    let b = connect_blocks();
    let all = BlockHeader::read_all(&b).unwrap();
    let dap = ExpectedSubmoduleBlockReq::parse(all[3].1).unwrap();
    assert_eq!(dap.apis[0].slot, 0);
    assert_eq!(dap.apis[0].module_ident, 0x1);
    assert_eq!(dap.apis[0].submodules.len(), 3);
    assert_eq!(dap.apis[0].submodules[1].subslot, 0x8000);
    assert_eq!(dap.apis[0].submodules[1].submodule_ident, 0x8000);
    assert_eq!(
        dap.apis[0].submodules[0].input,
        Some(DataDescription {
            data_length: 0,
            length_iocs: 1,
            length_iops: 1
        })
    );
    assert_eq!(dap.apis[0].submodules[0].output, None);
    let echo = ExpectedSubmoduleBlockReq::parse(all[7].1).unwrap();
    let sm = &echo.apis[0].submodules[0];
    assert_eq!(
        (
            echo.apis[0].slot,
            echo.apis[0].module_ident,
            sm.submodule_ident,
            sm.properties
        ),
        (4, 0x40, 0x140, 3)
    );
    assert_eq!(sm.input.unwrap().data_length, 8);
    assert_eq!(sm.output.unwrap().data_length, 8);
    let out_only = ExpectedSubmoduleBlockReq::parse(all[5].1).unwrap();
    let sm = &out_only.apis[0].submodules[0];
    assert_eq!((sm.input, sm.output.unwrap().data_length), (None, 1));
}

#[test]
fn parse_alarm_cr() {
    let b = connect_blocks();
    let all = BlockHeader::read_all(&b).unwrap();
    let a = AlarmCrBlockReq::parse(all[8].1).unwrap();
    assert_eq!((a.alarm_cr_type, a.lt, a.properties), (1, 0x8892, 0));
    assert_eq!(
        (a.rta_timeout_factor, a.rta_retries, a.local_alarm_reference),
        (1, 3, 0)
    );
    assert_eq!(
        (a.max_alarm_data_length, a.tag_header_high, a.tag_header_low),
        (256, 0xc000, 0xa000)
    );
}

#[test]
fn header_errors() {
    assert!(matches!(
        BlockHeader::parse(&[1, 1, 0, 5]),
        Err(BlockError::TooShort { .. })
    ));
    assert!(matches!(
        BlockHeader::parse(&[1, 1, 0, 5, 2, 0, 0, 0, 0]),
        Err(BlockError::BadVersion(2, 0))
    ));
    assert!(matches!(
        BlockHeader::parse(&[1, 1, 0, 9, 1, 0, 0, 0]),
        Err(BlockError::BadLength {
            declared: 9,
            available: 2
        })
    ));
    let mut out = Vec::new();
    BlockHeader::write(&mut out, ty::AR_BLOCK_RES, 28);
    assert_eq!(out, vec![0x81, 0x01, 0x00, 0x1e, 0x01, 0x00]);
}

#[test]
fn truncated_ar_block_is_too_short() {
    let b = connect_blocks();
    assert!(matches!(
        ArBlockReq::parse(&b[6..40]),
        Err(BlockError::TooShort { .. })
    ));
}

fn req() -> ConnectReq {
    ConnectReq::parse(&connect_blocks()).unwrap()
}

#[test]
fn parse_groups_blocks() {
    let r = req();
    assert_eq!(r.iocrs.len(), 2);
    assert_eq!(r.expected.len(), 5);
    assert_eq!(r.alarm_cr.max_alarm_data_length, 256);
}

#[test]
fn validate_against_pnet_model() {
    let p = validate(&req(), &DeviceModel::pnet_sample(MAC)).unwrap();
    assert_eq!(p.session_key, 2);
    assert_eq!(
        (p.input_cr.frame_id, p.output_cr.frame_id),
        (0x8000, 0x8001)
    );
    assert_eq!(p.input_cr.reduction_ratio, 32);
    assert_eq!(p.activity_timeout_factor, 200);
    assert_eq!(p.max_alarm_data_length, 200);
}

#[test]
fn connect_response_is_byte_exact() {
    let model = DeviceModel::pnet_sample(MAC);
    let p = validate(&req(), &model).unwrap();
    let out = build_connect_res(&p, &model);
    assert_eq!(out, connect_res_blocks());
    assert_eq!(out.len(), 90);
}

#[test]
fn mismatching_module_is_rejected_with_explicit_status() {
    let mut model = DeviceModel::pnet_sample(MAC);
    model.slots[4].submodules[0].input_len = 4; // Echo expects 8
    let err = validate(&req(), &model).unwrap_err();
    assert_eq!(
        err,
        PnioStatus::connect_reject(ConnectBlock::ExpectedSubmodule, 7)
    );
    let mut model = DeviceModel::pnet_sample(MAC);
    model.slots.pop(); // slot 4 missing
    assert_eq!(
        validate(&req(), &model).unwrap_err(),
        PnioStatus::connect_reject(ConnectBlock::ExpectedSubmodule, 7)
    );
}

#[test]
fn mismatching_module_ident_is_rejected() {
    let mut model = DeviceModel::pnet_sample(MAC);
    model.slots[1].module_ident = 0x99; // was 0x30
    assert_eq!(
        validate(&req(), &model).unwrap_err(),
        PnioStatus::connect_reject(ConnectBlock::ExpectedSubmodule, 4)
    );
}

#[test]
fn mismatching_submodule_ident_is_rejected() {
    let mut model = DeviceModel::pnet_sample(MAC);
    model.slots[4].submodules[0].submodule_ident = 0x999; // was 0x140
    assert_eq!(
        validate(&req(), &model).unwrap_err(),
        PnioStatus::connect_reject(ConnectBlock::ExpectedSubmodule, 6)
    );
}

#[test]
fn output_cr_frame_id_0xffff_is_replaced_by_a_device_selected_id() {
    let mut r = req();
    let output = r
        .iocrs
        .iter_mut()
        .find(|c| c.iocr_type == 2)
        .expect("golden request has an Output CR");
    output.frame_id = FRAME_ID_DEVICE_SELECTS;
    let model = DeviceModel::pnet_sample(MAC);
    let params = validate(&r, &model).unwrap();
    assert_eq!(params.output_cr.frame_id, 0x8001);
    assert_eq!(params.input_cr.frame_id, 0x8000);
    let out = build_connect_res(&params, &model);
    assert_eq!(out, connect_res_blocks());
}

#[test]
fn input_cr_frame_id_0xffff_is_still_rejected() {
    let mut r = req();
    let input = r
        .iocrs
        .iter_mut()
        .find(|c| c.iocr_type == 1)
        .expect("golden request has an Input CR");
    input.frame_id = FRAME_ID_DEVICE_SELECTS;
    assert_eq!(
        validate(&r, &DeviceModel::pnet_sample(MAC)).unwrap_err(),
        PnioStatus::connect_reject(ConnectBlock::IocrBlock, 6)
    );
}

#[test]
fn device_selected_id_avoids_the_input_cr_id() {
    let mut r = req();
    for cr in r.iocrs.iter_mut() {
        match cr.iocr_type {
            1 => cr.frame_id = 0x8001,
            2 => cr.frame_id = FRAME_ID_DEVICE_SELECTS,
            _ => unreachable!(),
        }
    }
    let params = validate(&r, &DeviceModel::pnet_sample(MAC)).unwrap();
    assert_eq!(params.input_cr.frame_id, 0x8001);
    assert_eq!(params.output_cr.frame_id, 0x8002);
}

#[test]
fn bad_frame_id_and_ar_type_are_rejected() {
    let mut r = req();
    r.iocrs[0].frame_id = 0xc000;
    assert_eq!(
        validate(&r, &DeviceModel::pnet_sample(MAC)).unwrap_err(),
        PnioStatus::connect_reject(ConnectBlock::IocrBlock, 6)
    );
    let mut r = req();
    r.ar.ar_type = 6;
    assert_eq!(
        validate(&r, &DeviceModel::pnet_sample(MAC)).unwrap_err(),
        PnioStatus::connect_reject(ConnectBlock::ArBlock, 1)
    );
}

#[test]
fn data_length_too_small_is_rejected() {
    let mut r = req();
    r.iocrs[0].data_length = 10;
    assert_eq!(
        validate(&r, &DeviceModel::pnet_sample(MAC)).unwrap_err(),
        PnioStatus::connect_reject(ConnectBlock::IocrBlock, 5)
    );
}

#[test]
fn iocr_without_api_is_rejected() {
    let mut r = req();
    r.iocrs[0].apis.clear();
    assert_eq!(
        validate(&r, &DeviceModel::pnet_sample(MAC)).unwrap_err(),
        PnioStatus::connect_reject(ConnectBlock::IocrBlock, 15)
    );
}

#[test]
fn iocr_with_two_apis_is_rejected() {
    let mut r = req();
    let api = r.iocrs[0].apis[0].clone();
    r.iocrs[0].apis.push(api);
    assert_eq!(
        validate(&r, &DeviceModel::pnet_sample(MAC)).unwrap_err(),
        PnioStatus::connect_reject(ConnectBlock::IocrBlock, 15)
    );
}

#[test]
fn missing_alarm_cr_block_is_a_reject() {
    let b = connect_blocks();
    let without_alarm = &b[..b.len() - 26]; // AlarmCRBlockReq = 6 + 20 bytes
    assert!(matches!(
        ConnectReq::parse(without_alarm),
        Err(CmError::Reject(_))
    ));
}

#[test]
fn parse_prm_end_and_answer_byte_exact() {
    let req = ControlBlock::parse(&control(0x0110, 1)).unwrap();
    assert_eq!(req.block_type, ty::IOD_CONTROL_REQ_PRM_END);
    assert_eq!(
        (req.session_key, req.command, req.properties),
        (2, cmd::PRM_END, 0)
    );
    let mut out = Vec::new();
    prm_end_done(&req).write(&mut out);
    assert_eq!(out, control(0x8110, 8));
    assert_eq!(out.len(), 32);
}

#[test]
fn app_ready_request_byte_exact() {
    let req = ControlBlock::parse(&control(0x0110, 1)).unwrap();
    let mut out = Vec::new();
    app_ready_req(req.ar_uuid, req.session_key).write(&mut out);
    assert_eq!(out, control(0x0112, 2));
}

#[test]
fn parse_app_ready_response_from_cpu() {
    let res = ControlBlock::parse(&control(0x8112, 8)).unwrap();
    assert_eq!(res.block_type, ty::IOX_BLOCK_RES_APP_READY);
    assert_eq!(res.command, cmd::DONE);
    assert_eq!(
        res.ar_uuid.to_string(),
        "e5e1aecc-b133-4b4d-b187-cc68b0211ed2"
    );
}

#[test]
fn rejects_non_control_block() {
    assert!(matches!(
        ControlBlock::parse(&write_blocks()),
        Err(CmError::Block(BlockError::UnexpectedType { .. }))
    ));
}

#[test]
fn pnet_sample_layout() {
    let m = DeviceModel::pnet_sample(MacAddr([0; 6]));
    assert_eq!(m.slots.len(), 5);
    assert_eq!(m.find(0, 0x8001).unwrap().submodule_ident, 0x8001);
    assert_eq!(m.find(4, 1).unwrap().output_len, 8);
    assert!(m.find(9, 1).is_none());
    assert_eq!(
        m.object_uuid().to_string(),
        "dea00000-6c97-11d1-8271-000100020493"
    );
}

#[test]
fn pack_and_unpack() {
    let s = PnioStatus::new(0xdb, 0x81, 0x03, 0x07);
    assert_eq!(s.to_u32(), 0xdb81_0307);
    assert_eq!(
        (s.code(), s.decode(), s.code1(), s.code2()),
        (0xdb, 0x81, 0x03, 0x07)
    );
    assert!(!s.is_ok());
    assert!(PnioStatus::ok().is_ok());
    assert_eq!(
        PnioStatus::connect_reject(ConnectBlock::ExpectedSubmodule, 7),
        s
    );
}

#[test]
fn read_index_unsupported_round_trips() {
    let s = PnioStatus::read_index_unsupported();
    assert_eq!(s.to_u32(), 0xde80_b000);
    assert_eq!(
        (s.code(), s.decode(), s.code1(), s.code2()),
        (0xde, 0x80, 0xb0, 0x00)
    );
    assert_ne!(s, PnioStatus::service_unsupported());
}

#[test]
fn parse_multiple_write_records() {
    let w = WriteReq::parse(&write_blocks()).unwrap();
    let idx: Vec<u16> = w.records.iter().map(|r| r.index).collect();
    assert_eq!(idx, vec![0xe040, 0x8071, 0x7b, 0x7c, 0x7d]);
    assert_eq!(w.records[0].data.len(), 280);
    assert_eq!(
        (w.records[0].api, w.records[0].slot, w.records[0].subslot),
        (0xffff_ffff, 0xffff, 0xffff)
    );
    assert_eq!((w.records[1].slot, w.records[1].subslot), (0, 0x8000));
    assert_eq!(
        w.records[1].data,
        vec![0x02, 0x50, 0x00, 0x08, 0x01, 0x00, 0x00, 0x00, 0x00, 0x00, 0x00, 0x01]
    );
    assert_eq!(
        (w.records[2].slot, w.records[2].subslot, w.records[2].seq),
        (3, 1, 2)
    );
    assert_eq!(w.records[4].data, vec![0, 0, 0, 2]);
    assert_eq!(
        w.records[3].ar_uuid.to_string(),
        "e5e1aecc-b133-4b4d-b187-cc68b0211ed2"
    );
}

#[test]
fn write_response_is_byte_exact() {
    let w = WriteReq::parse(&write_blocks()).unwrap();
    let out = build_write_res(&w);
    assert_eq!(out, write_res_blocks());
    assert_eq!(out.len(), 320);
}

#[test]
fn single_record_write() {
    // hand-built: one record, index 0x7b, 4 data bytes
    let mut b = Vec::new();
    b.extend_from_slice(&[0x00, 0x08, 0x00, 0x3c, 0x01, 0x00, 0x00, 0x05]);
    b.extend_from_slice(&[0x11; 16]); // ar_uuid
    b.extend_from_slice(&[0, 0, 0, 0, 0, 3, 0, 1, 0, 0, 0, 0x7b, 0, 0, 0, 4]);
    b.extend_from_slice(&[0; 24]);
    b.extend_from_slice(&[0xde, 0xad, 0xbe, 0xef]);
    let w = WriteReq::parse(&b).unwrap();
    assert_eq!(w.records.len(), 1);
    assert_eq!(w.records[0].data, vec![0xde, 0xad, 0xbe, 0xef]);
    assert_eq!(build_write_res(&w).len(), 64);
}

#[test]
fn huge_record_length_is_rejected_not_panic() {
    // Same hand-built buffer as `single_record_write`, but with
    // `record_data_length` set to `0xffff_ffff` — must be rejected with a typed
    // error, not panic via overflow/inverted-range slicing on 32-bit `usize`.
    let mut b = Vec::new();
    b.extend_from_slice(&[0x00, 0x08, 0x00, 0x3c, 0x01, 0x00, 0x00, 0x05]);
    b.extend_from_slice(&[0x11; 16]); // ar_uuid
    b.extend_from_slice(&[
        0, 0, 0, 0, 0, 3, 0, 1, 0, 0, 0, 0x7b, 0xff, 0xff, 0xff, 0xff,
    ]);
    b.extend_from_slice(&[0; 24]);
    b.extend_from_slice(&[0xde, 0xad, 0xbe, 0xef]);
    assert!(matches!(WriteReq::parse(&b), Err(CmError::Block(_))));
}

#[test]
fn truncated_data_is_an_error() {
    let b = &write_blocks()[..100];
    assert!(matches!(WriteReq::parse(b), Err(CmError::Block(_))));
}

#[test]
fn wrong_block_type_is_rejected() {
    let b = &control(0x0110, 1);
    assert!(matches!(
        WriteReq::parse(b),
        Err(CmError::Block(BlockError::UnexpectedType { .. }))
    ));
}

#[test]
fn a_connect_response_reads_back_block_by_block() {
    let model = DeviceModel::pnet_sample(MAC);
    let p = validate(&req(), &model).unwrap();
    let out = build_connect_res(&p, &model);
    let all = BlockHeader::read_all(&out).unwrap();
    let types: Vec<u16> = all.iter().map(|(h, _)| h.block_type).collect();
    assert_eq!(types, vec![0x8101, 0x8102, 0x8102, 0x8103, 0x8106]);
}

#[test]
fn a_release_is_answered_with_done() {
    let req = ControlBlock::parse(&control(0x0114, cmd::RELEASE)).unwrap();
    let mut out = Vec::new();
    release_done(&req).write(&mut out);
    assert_eq!(out, control(0x8114, cmd::DONE));
    assert_eq!(ControlBlock::parse(&out).unwrap(), release_done(&req));
}

#[test]
fn missing_and_doubled_blocks_are_rejected() {
    let b = connect_blocks();
    // without the AR block
    assert_eq!(
        ConnectReq::parse(&b[95..]).unwrap_err(),
        CmError::Reject(PnioStatus::connect_reject(ConnectBlock::ArBlock, 0))
    );
    // with two of them
    let twice = [&b[..95], &b[..]].concat();
    assert_eq!(
        ConnectReq::parse(&twice).unwrap_err(),
        CmError::Reject(PnioStatus::connect_reject(ConnectBlock::ArBlock, 0))
    );
    // a station name that is not text
    let mut bad = b.clone();
    bad[70] = 0xff;
    assert!(matches!(ConnectReq::parse(&bad), Err(CmError::Block(BlockError::Malformed(_)))));
}

#[test]
fn a_single_write_is_answered_by_its_own_header() {
    let w = WriteReq::parse(&record(8, 9, (0, 1, 1), 0x10, &[1, 2, 3])).unwrap();
    assert_eq!(build_write_res(&w), record(0x8008, 9, (0, 1, 1), 0x10, &[]));
}

#[test]
fn an_iocr_ignores_what_follows_and_misses_what_is_cut_off() {
    let b = connect_blocks();
    let all = BlockHeader::read_all(&b).unwrap();
    let body = all[1].1;
    let r = IocrBlockReq::parse(body).unwrap();
    let objects: usize = r.apis.iter().map(|a| 8 + 6 * (a.io_data.len() + a.iocs.len())).sum();
    let n = 40 + objects;
    let mut longer = body[..n].to_vec();
    longer.extend_from_slice(&[0xff; 9]);
    assert_eq!(IocrBlockReq::parse(&longer), Ok(r.clone()));
    assert_eq!(IocrBlockReq::parse(&body[..n]), Ok(r));
    for k in 0..n {
        assert!(matches!(
            IocrBlockReq::parse(&body[..k]),
            Err(BlockError::TooShort { have, .. }) if have == k
        ));
    }
}
