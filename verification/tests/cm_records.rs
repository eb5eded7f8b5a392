//! I&M records: read requests, writes, and the device-wide store.
#![allow(dead_code)]

use pnio::cm::block::BlockHeader;
use pnio::cm::{
    build_read_res, read_record, write_im_record, BlockError, CmError, DeviceModel, PnioStatus,
    ReadReq, Record, RecordCtx,
};
use pnio::eth::MacAddr;
use pnio::im::{
    encode_im0, trim_end, Im0, ImError, ImStore, SwRevision, IM_SUPPORTED_DAP, INDEX_IM1,
    INDEX_IM2, INDEX_IM3,
};
use pnio::rpc::Uuid;

/// The device and the controller of the reference exchange.
const MAC: MacAddr = MacAddr([0x8c, 0xf3, 0x19, 0xcd, 0x19, 0xf8]);
const CPU_MAC: MacAddr = MacAddr([0xec, 0x1c, 0x5d, 0x61, 0xe7, 0x3f]);
const AR_UUID: &str = "e5e1aecc-b133-4b4d-b187-cc68b0211ed2";
const READ_AR_UUID: &str = "ef796d60-ef2b-9946-b39e-8531f5b7f966";
const OBJECT: &str = "dea00000-6c97-11d1-8271-000100020493";
const CPU_OBJECT: &str = "dea00000-6c97-11d1-8271-1064010e002a";
const DEVICE_IF: &str = "dea00001-6c97-11d1-8271-00a02442df7d";
const CONTROLLER_IF: &str = "dea00002-6c97-11d1-8271-00a02442df7d";
const CPU_ACTIVITY: &str = "5c6e1f6a-0000-1010-a8c0-ec1c5d61e73f";
const SEED: &str = "14af198a-1234-1056-8079-8cf319cd19f8";

fn uuid_bytes(text: &str, little: bool) -> Vec<u8> {
    let hex: Vec<u8> = text.bytes().filter(|c| *c != b'-').collect();
    let mut b: Vec<u8> = hex
        .chunks(2)
        .map(|p| u8::from_str_radix(std::str::from_utf8(p).unwrap(), 16).unwrap())
        .collect();
    if little {
        b[..4].reverse();
        b[4..6].reverse();
        b[6..8].reverse();
    }
    b
}

fn put16(b: &mut Vec<u8>, v: u16) {
    b.extend_from_slice(&v.to_be_bytes());
}

fn put32(b: &mut Vec<u8>, v: u32) {
    b.extend_from_slice(&v.to_be_bytes());
}

fn block(block_type: u16, body: &[u8]) -> Vec<u8> {
    let mut b = Vec::new();
    put16(&mut b, block_type);
    put16(&mut b, body.len() as u16 + 2);
    b.extend_from_slice(&[1, 0]);
    b.extend_from_slice(body);
    b
}

fn iocr(kind: u16, frame_id: u16, data: &[(u16, u16, u16)], iocs: &[(u16, u16, u16)]) -> Vec<u8> {
    let mut b = Vec::new();
    for v in [kind, kind, 0x8892] {
        put16(&mut b, v);
    }
    put32(&mut b, 2);
    for v in [40, frame_id, 32, 32, 1, 0] {
        put16(&mut b, v);
    }
    put32(&mut b, 0xffff_ffff);
    for v in [3, 3, 0xc000, 0, 0, 0, 1] {
        put16(&mut b, v);
    }
    put32(&mut b, 0);
    for list in [data, iocs] {
        put16(&mut b, list.len() as u16);
        for o in list {
            put16(&mut b, o.0);
            put16(&mut b, o.1);
            put16(&mut b, o.2);
        }
    }
    block(0x0102, &b)
}

/// `(subslot, ident, properties, input length, output length)` of each submodule.
fn expected(slot: u16, module: u32, submodules: &[(u16, u32, u16, u16, u16)]) -> Vec<u8> {
    let mut b = Vec::new();
    put16(&mut b, 1);
    put32(&mut b, 0);
    put16(&mut b, slot);
    put32(&mut b, module);
    put16(&mut b, 0);
    put16(&mut b, submodules.len() as u16);
    for s in submodules {
        put16(&mut b, s.0);
        put32(&mut b, s.1);
        put16(&mut b, s.2);
        if s.2 != 2 {
            put16(&mut b, 1);
            put16(&mut b, s.3);
            b.extend_from_slice(&[1, 1]);
        }
        if s.2 >= 2 {
            put16(&mut b, 2);
            put16(&mut b, s.4);
            b.extend_from_slice(&[1, 1]);
        }
    }
    block(0x0104, &b)
}

fn connect_blocks() -> Vec<u8> {
    let name = b"plcxbbench.profinetxainterfacexb25fbd";
    let mut ar = Vec::new();
    put16(&mut ar, 1);
    ar.extend_from_slice(&uuid_bytes(AR_UUID, false));
    put16(&mut ar, 2);
    ar.extend_from_slice(&CPU_MAC.0);
    ar.extend_from_slice(&uuid_bytes(CPU_OBJECT, false));
    put32(&mut ar, 0x4000_0011);
    put16(&mut ar, 200);
    put16(&mut ar, 0x8892);
    put16(&mut ar, name.len() as u16);
    ar.extend_from_slice(name);
    let mut alarm = Vec::new();
    put16(&mut alarm, 1);
    put16(&mut alarm, 0x8892);
    put32(&mut alarm, 0);
    for v in [1, 3, 0, 256, 0xc000, 0xa000] {
        put16(&mut alarm, v);
    }
    [
        block(0x0101, &ar),
        iocr(
            1,
            0x8000,
            &[(0, 1, 0), (0, 0x8000, 1), (0, 0x8001, 2), (1, 1, 3), (3, 1, 6), (4, 1, 9)],
            &[(2, 1, 5), (3, 1, 8), (4, 1, 18)],
        ),
        iocr(
            2,
            0x8001,
            &[(2, 1, 4), (3, 1, 7), (4, 1, 10)],
            &[(0, 1, 0), (0, 0x8000, 1), (0, 0x8001, 2), (1, 1, 3), (3, 1, 6), (4, 1, 9)],
        ),
        expected(
            0,
            1,
            &[(1, 1, 0, 0, 0), (0x8000, 0x8000, 0, 0, 0), (0x8001, 0x8001, 0, 0, 0)],
        ),
        expected(1, 0x30, &[(1, 0x130, 1, 1, 0)]),
        expected(2, 0x31, &[(1, 0x131, 2, 0, 1)]),
        expected(3, 0x32, &[(1, 0x132, 3, 1, 1)]),
        expected(4, 0x40, &[(1, 0x140, 3, 8, 8)]),
        block(0x0103, &alarm),
    ]
    .concat()
}

fn connect_res_blocks() -> Vec<u8> {
    let mut ar = Vec::new();
    put16(&mut ar, 1);
    ar.extend_from_slice(&uuid_bytes(AR_UUID, false));
    put16(&mut ar, 2);
    ar.extend_from_slice(&MAC.0);
    put16(&mut ar, 0x8892);
    [
        block(0x8101, &ar),
        block(0x8102, &[0, 1, 0, 1, 0x80, 0x00]),
        block(0x8102, &[0, 2, 0, 2, 0x80, 0x01]),
        block(0x8103, &[0, 1, 0, 0, 0, 200]),
        block(0x8106, b"\x00\x0brt-labs-dev\x00"),
    ]
    .concat()
}

/// A record header and its data: `(api, slot, subslot)` and index.
fn record(block_type: u16, seq: u16, at: (u32, u16, u16), index: u16, data: &[u8]) -> Vec<u8> {
    let mut b = Vec::new();
    put16(&mut b, seq);
    b.extend_from_slice(&uuid_bytes(AR_UUID, false));
    put32(&mut b, at.0);
    put16(&mut b, at.1);
    put16(&mut b, at.2);
    put16(&mut b, 0);
    put16(&mut b, index);
    put32(&mut b, data.len() as u32);
    b.resize(58, 0);
    let mut r = block(block_type, &b);
    r.extend_from_slice(data);
    r
}

fn write_blocks() -> Vec<u8> {
    let nested = [
        record(
            8,
            1,
            (0, 0, 0x8000),
            0x8071,
            &[0x02, 0x50, 0x00, 0x08, 0x01, 0x00, 0x00, 0x00, 0x00, 0x00, 0x00, 0x01],
        ),
        record(8, 2, (0, 3, 1), 0x7b, &[0, 0, 0, 1]),
        record(8, 3, (0, 3, 1), 0x7c, &[0, 0, 0, 2]),
        record(8, 4, (0, 4, 1), 0x7d, &[0, 0, 0, 2]),
    ]
    .concat();
    record(8, 0, (0xffff_ffff, 0xffff, 0xffff), 0xe040, &nested)
}

fn write_res_blocks() -> Vec<u8> {
    [
        record(0x8008, 0, (0xffff_ffff, 0xffff, 0xffff), 0xe040, &[]),
        record(0x8008, 1, (0, 0, 0x8000), 0x8071, &[]),
        record(0x8008, 2, (0, 3, 1), 0x7b, &[]),
        record(0x8008, 3, (0, 3, 1), 0x7c, &[]),
        record(0x8008, 4, (0, 4, 1), 0x7d, &[]),
    ]
    .concat()
}

fn control(block_type: u16, command: u16) -> Vec<u8> {
    let mut b = vec![0, 0];
    b.extend_from_slice(&uuid_bytes(AR_UUID, false));
    for v in [2, 0, command, 0] {
        put16(&mut b, v);
    }
    block(block_type, &b)
}

fn read_blocks(slot: u16, subslot: u16) -> Vec<u8> {
    let mut b = vec![0, 7];
    b.extend_from_slice(&uuid_bytes(READ_AR_UUID, false));
    put32(&mut b, 0);
    for v in [slot, subslot, 0, 0xaff0] {
        put16(&mut b, v);
    }
    put32(&mut b, 0x8000);
    b.resize(58, 0);
    block(0x0009, &b)
}

/// The identity of the reference device and the I&M0 record it answers.
fn pnet_im0() -> Im0 {
    Im0 {
        order_id: "12345 Abcdefghijk".into(),
        serial_number: "007".into(),
        hardware_revision: 3,
        software_revision: SwRevision {
            prefix: 'V',
            functional: 0,
            bug_fix: 2,
            internal: 0,
        },
        revision_counter: 0,
        profile_id: 0x1234,
        profile_specific_type: 0x5678,
    }
}

fn pnet_im0_record() -> Vec<u8> {
    let mut b = vec![0x04, 0x93];
    b.extend_from_slice(b"12345 Abcdefghijk   ");
    b.extend_from_slice(b"007             ");
    b.extend_from_slice(&[0, 3, b'V', 0, 2, 0, 0, 0, 0x12, 0x34, 0x56, 0x78, 1, 1, 0, 0x0e]);
    block(0x0020, &b)
}

fn read_res_blocks(slot: u16, subslot: u16) -> Vec<u8> {
    let data = pnet_im0_record();
    let mut b = vec![0, 7];
    b.extend_from_slice(&uuid_bytes(READ_AR_UUID, false));
    put32(&mut b, 0);
    for v in [slot, subslot, 0, 0xaff0] {
        put16(&mut b, v);
    }
    put32(&mut b, data.len() as u32);
    b.resize(58, 0);
    [block(0x8009, &b), data].concat()
}

/// A DCE-RPC PDU: header, the NDR words, and blocks.
struct Pdu<'a> {
    response: bool,
    little: bool,
    flags: u8,
    object: &'a str,
    interface: &'a str,
    activity: &'a str,
    seq: u32,
    opnum: u16,
    first_word: u32,
    max_count: u32,
    blocks: Vec<u8>,
}

fn pdu_bytes(p: &Pdu) -> Vec<u8> {
    let w16 = |v: u16| if p.little { v.to_le_bytes() } else { v.to_be_bytes() };
    let w32 = |v: u32| if p.little { v.to_le_bytes() } else { v.to_be_bytes() };
    let mut b = vec![4, if p.response { 2 } else { 0 }, p.flags, 0];
    b.extend_from_slice(&[if p.little { 0x10 } else { 0 }, 0, 0, 0]);
    for u in [p.object, p.interface, p.activity] {
        b.extend_from_slice(&uuid_bytes(u, p.little));
    }
    for v in [0, 1, p.seq] {
        b.extend_from_slice(&w32(v));
    }
    for v in [p.opnum, 0xffff, 0xffff, 20 + p.blocks.len() as u16, 0] {
        b.extend_from_slice(&w16(v));
    }
    b.extend_from_slice(&[0, 0]);
    let n = p.blocks.len() as u32;
    for v in [p.first_word, n, p.max_count, 0, n] {
        b.extend_from_slice(&w32(v));
    }
    b.extend_from_slice(&p.blocks);
    b
}

/// A request of the controller, little-endian.
fn request(seq: u32, opnum: u16, blocks: Vec<u8>) -> Vec<u8> {
    let n = blocks.len() as u32;
    pdu_bytes(&Pdu {
        response: false,
        little: true,
        flags: 0x20,
        object: OBJECT,
        interface: DEVICE_IF,
        activity: CPU_ACTIVITY,
        seq,
        opnum,
        first_word: n,
        max_count: n,
        blocks,
    })
}

/// The device's answer to such a request, big-endian.
fn response(seq: u32, opnum: u16, request_len: u32, blocks: Vec<u8>) -> Vec<u8> {
    pdu_bytes(&Pdu {
        response: true,
        little: false,
        flags: 0x28,
        object: OBJECT,
        interface: DEVICE_IF,
        activity: CPU_ACTIVITY,
        seq,
        opnum,
        first_word: 0,
        max_count: request_len,
        blocks,
    })
}

fn pdu(name: &str) -> Vec<u8> {
    match name {
        "connect_req" => request(0, 0, connect_blocks()),
        "connect_res" => response(0, 0, 557, connect_res_blocks()),
        "write_req" => request(1, 3, write_blocks()),
        "write_res" => response(1, 3, 344, write_res_blocks()),
        "prmend_req" => request(2, 4, control(0x0110, 1)),
        "prmend_res" => response(2, 4, 32, control(0x8110, 8)),
        "appready_req" => pdu_bytes(&Pdu {
            response: false,
            little: false,
            flags: 0x20,
            object: CPU_OBJECT,
            interface: CONTROLLER_IF,
            activity: SEED,
            seq: 0,
            opnum: 4,
            first_word: 1340,
            max_count: 1340,
            blocks: control(0x0112, 2),
        }),
        "appready_res" => pdu_bytes(&Pdu {
            response: true,
            little: true,
            flags: 0x0a,
            object: CPU_OBJECT,
            interface: CONTROLLER_IF,
            activity: SEED,
            seq: 0,
            opnum: 4,
            first_word: 0,
            max_count: 1340,
            blocks: control(0x8112, 8),
        }),
        "im0_read_req" => request(0x40, 2, read_blocks(0, 1)),
        "im0_read_res" => response(0x40, 2, 64, read_res_blocks(0, 1)),
        "im0_read_req_if" => request(0x41, 2, read_blocks(0, 0x8000)),
        "im0_read_res_if" => response(0x41, 2, 64, read_res_blocks(0, 0x8000)),
        _ => panic!("no pdu {name}"),
    }
}

#[test]
fn read_req_parses_the_cpu_im0_request() {
    let r = ReadReq::parse(&read_blocks(0, 1)).unwrap();
    assert_eq!(
        (r.api, r.slot, r.subslot, r.index, r.record_data_length),
        (0, 0, 1, 0xAFF0, 0x8000)
    );
    let i = ReadReq::parse(&read_blocks(0, 0x8000)).unwrap();
    assert_eq!((i.slot, i.subslot), (0, 0x8000));
}

#[test]
fn read_res_matches_the_pnet_response_blocks() {
    let req = ReadReq::parse(&read_blocks(0, 1)).unwrap();
    let im0 = pnet_im0();
    let model = DeviceModel::pnet_sample(MacAddr([
        0x8c, 0xf3, 0x19, 0xcd, 0x19, 0xf8,
    ]));
    let store = ImStore::new();
    let data = read_record(
        &req,
        &RecordCtx {
            model: &model,
            im0: &im0,
            im: &store,
        },
    )
    .unwrap();
    assert_eq!(
        build_read_res(&req, &data),
        read_res_blocks(0, 1)
    );
}

#[test]
fn im1_on_every_known_submodule_and_unknown_index_is_none() {
    let model = DeviceModel::pnet_sample(MacAddr([0; 6]));
    let (im0, mut store) = (Im0::default(), ImStore::new());
    store.write(INDEX_IM1, &im1_record()).unwrap();
    let ctx = RecordCtx {
        model: &model,
        im0: &im0,
        im: &store,
    };
    let mut req = ReadReq::parse(&read_blocks(0, 1)).unwrap();
    req.index = INDEX_IM1;
    // The DAP, the interface submodule and a real I/O submodule all serve the one
    // device-wide store.
    for (slot, subslot) in [(0u16, 1u16), (0, 0x8000), (1, 1)] {
        req.slot = slot;
        req.subslot = subslot;
        assert_eq!(
            read_record(&req, &ctx).as_deref(),
            Some(&im1_record()[..]),
            "I&M1 on {slot}/{subslot:#x}"
        );
    }
    // A (slot, subslot) the model does not know answers nothing at all.
    req.slot = 99;
    req.subslot = 1;
    assert!(read_record(&req, &ctx).is_none());
    // Neither does an index we do not serve.
    req.slot = 0;
    req.subslot = 1;
    req.index = 0xF840;
    assert!(read_record(&req, &ctx).is_none());
}

#[test]
fn im0_carries_im_supported_on_every_known_submodule() {
    let model = DeviceModel::pnet_sample(MacAddr([0; 6]));
    let (im0, store) = (Im0::default(), ImStore::new());
    let ctx = RecordCtx {
        model: &model,
        im0: &im0,
        im: &store,
    };
    let want = encode_im0(model.vendor_id, &im0, IM_SUPPORTED_DAP);
    let mut req = ReadReq::parse(&read_blocks(0, 1)).unwrap();
    for (slot, subslot) in [(0u16, 1u16), (0, 0x8000), (0, 0x8001), (1, 1)] {
        req.slot = slot;
        req.subslot = subslot;
        assert_eq!(
            read_record(&req, &ctx),
            Some(want.clone()),
            "I&M0 on {slot}/{subslot:#x}"
        );
    }
}

#[test]
fn write_im_record_accepts_every_known_submodule_and_rejects_the_rest() {
    let model = DeviceModel::pnet_sample(MacAddr([0; 6]));
    let mut store = ImStore::new();
    let r = Record {
        seq: 0,
        ar_uuid: Uuid::nil(),
        api: 0,
        slot: 0,
        subslot: 1,
        index: INDEX_IM1,
        data: im1_record(),
    };
    // The DAP, the interface submodule and a real I/O submodule all write the one
    // device-wide store.
    for (slot, subslot) in [(0u16, 1u16), (0, 0x8000), (1, 1)] {
        let rec = Record {
            slot,
            subslot,
            ..r.clone()
        };
        assert_eq!(
            write_im_record(&rec, &model, &mut store),
            PnioStatus::ok(),
            "I&M1 write on {slot}/{subslot:#x}"
        );
        assert!(store.read(INDEX_IM1).is_some());
    }

    let unknown_slot = Record {
        slot: 99,
        ..r.clone()
    };
    assert_eq!(
        write_im_record(&unknown_slot, &model, &mut store),
        PnioStatus::write_invalid_parameter()
    );

    let bad_shape = Record {
        data: vec![0u8; 3],
        ..r
    };
    assert_eq!(
        write_im_record(&bad_shape, &model, &mut store),
        PnioStatus::write_invalid_parameter()
    );
}

/// A minimal well-formed I&M1 record (block header + 54 space-padded bytes).
fn im1_record() -> Vec<u8> {
    let mut rec = Vec::new();
    BlockHeader::write(&mut rec, 0x0021, 54);
    rec.extend_from_slice(&[b' '; 54]);
    rec
}

#[test]
fn im0_encoding_matches_the_pnet_read_response_record() {
    let record = &read_res_blocks(0, 1)[64..];
    assert_eq!(record.len(), 60);
    assert_eq!(encode_im0(0x0493, &pnet_im0(), IM_SUPPORTED_DAP), record);
}

#[test]
fn im0_validation() {
    let mut i = pnet_im0();
    i.order_id = "x".repeat(21);
    assert_eq!(
        i.validate(),
        Err(ImError::TooLong {
            field: "order_id",
            max: 20
        })
    );
    i = pnet_im0();
    i.serial_number = "é".into();
    assert_eq!(
        i.validate(),
        Err(ImError::NotAscii {
            field: "serial_number"
        })
    );
    i = pnet_im0();
    i.software_revision.prefix = 'X';
    assert_eq!(i.validate(), Err(ImError::BadPrefix('X')));
    assert_eq!(Im0::default().validate(), Ok(()));
}

#[test]
fn store_round_trips_records_and_persists() {
    let mut s = ImStore::load(None);
    assert_eq!(s.tag_function(), "");
    let mut rec = Vec::new();
    BlockHeader::write(&mut rec, 0x0021, 54);
    rec.extend_from_slice(format!("{:<32}{:<22}", "TEST-FUNC", "TEST-LOC").as_bytes());
    s.write(INDEX_IM1, &rec).unwrap();
    assert_eq!(s.read(INDEX_IM1).unwrap(), rec);
    assert_eq!(
        (s.tag_function(), s.tag_location()),
        ("TEST-FUNC".into(), "TEST-LOC".into())
    );
    // what goes to the backing file, and comes back from it
    assert_eq!(s.image().len(), 124);
    let again = ImStore::load(Some(s.image()));
    assert_eq!(again.tag_function(), "TEST-FUNC");
    assert_eq!(s.read(0xAFF0), None);
    let bad = &rec[..30];
    assert!(matches!(
        s.write(INDEX_IM1, bad),
        Err(ImError::BadRecord { index: 0xAFF1, .. })
    ));
    let mut wrong_type = rec.clone();
    wrong_type[1] = 0x22;
    assert!(matches!(
        s.write(INDEX_IM1, &wrong_type),
        Err(ImError::BadRecord { .. })
    ));
}

#[test]
fn short_or_missing_file_is_empty_store() {
    for file in [None, Some(vec![1u8; 123])] {
        let s = ImStore::load(file);
        assert_eq!(s.image(), ImStore::new().image());
        assert_eq!(s.read(INDEX_IM2).unwrap().len(), 22);
    }
}

#[test]
fn dates_and_descriptors_are_told_lossily_and_trimmed() {
    let mut s = ImStore::new();
    let mut rec = Vec::new();
    BlockHeader::write(&mut rec, 0x0022, 16);
    rec.extend_from_slice(b"2026-08-31 \xff 9  ");
    rec.truncate(22);
    s.write(INDEX_IM2, &rec).unwrap();
    assert_eq!(s.date(), "2026-08-31 \u{fffd} 9");
    assert_eq!(s.read(INDEX_IM3).unwrap().len(), 60);
    assert_eq!(trim_end("a b \0 \0"), "a b");
    assert_eq!(trim_end("  \0"), "");
}

#[test]
fn a_read_request_of_another_shape_is_an_error() {
    let b = read_blocks(0, 1);
    assert!(matches!(
        ReadReq::parse(&control(0x0110, 1)),
        Err(CmError::Block(BlockError::UnexpectedType { expected: 9, got: 0x0110 }))
    ));
    let mut short = b[..40].to_vec();
    short[3] = 36;
    assert!(matches!(
        ReadReq::parse(&short),
        Err(CmError::Block(BlockError::TooShort { .. }))
    ));
}
