//! The cyclic exchange: frames, layout, image, and the decisions of the loop.
#![allow(dead_code)]

use pnio::cm::{validate, ConnectReq, DeviceModel};
use pnio::eth::MacAddr;
use pnio::im::{Im0, SwRevision};
use pnio::rt::cycle::{
    setup_steps, Decision, LoopAction, LoopEvent, Phase, RtMachine, Sample, SetupStep, StopReason,
};
use pnio::rt::runner::{
    drain_should_continue, engine_expirations, should_drain, wait_millis, Pending, ProviderState,
    Received, RtConfig, MAX_NO_PROGRESS_ITERATIONS, MAX_RX_PER_PASS,
};
use pnio::rt::sched::{check_cpus, prefault_stack, CpuListError};
use pnio::rt::{
    frame_len, DataStatus, FrameError, Freshness, ImageError, IoImage, Layout, LayoutError,
    RtFrame, RtLoop, TickGrid, Validity, WatchdogState, TCI_RT,
};

const CPU: MacAddr = MacAddr([0xec, 0x1c, 0x5d, 0x61, 0xe7, 0x3f]);
const DEV: MacAddr = MacAddr([0x8c, 0xf3, 0x19, 0xcd, 0x19, 0xf8]);

/// A cyclic frame of the controller as it stands on the wire.
fn cpu_frame() -> Vec<u8> {
    let mut f = Vec::new();
    f.extend_from_slice(&DEV.0);
    f.extend_from_slice(&CPU.0);
    f.extend_from_slice(&[0x81, 0x00, 0xc0, 0x00, 0x88, 0x92, 0x80, 0x01]);
    let mut csdu = [0u8; 40];
    for i in [0, 1, 2, 3, 5, 6, 8, 9, 18] {
        csdu[i] = 0x80;
    }
    csdu[4] = 0x01;
    csdu[10] = 0x3f;
    f.extend_from_slice(&csdu);
    f.extend_from_slice(&[0xb8, 0x00, 0x35, 0x00]);
    f
}

/// The device and the controller of the reference exchange.
const MAC: MacAddr = MacAddr([0x8c, 0xf3, 0x19, 0xcd, 0x19, 0xf8]);
const CPU_MAC: MacAddr = MacAddr([0xec, 0x1c, 0x5d, 0x61, 0xe7, 0x3f]);
const AR_UUID: &str = "e5e1aecc-b133-4b4d-b187-cc68b0211ed2";
const READ_AR_UUID: &str = "ef796d60-ef2b-9946-b39e-8531f5b7f966";
const OBJECT: &str = "dea00000-6c97-11d1-8271-000100020493";
const CPU_OBJECT: &str = "dea00000-6c97-11d1-8271-1064010e002a";
const DEVICE_IF: &str = "dea00001-6c97-11d1-8271-00a02442df7d";
const CONTROLLER_IF: &str = "dea00002-6c97-11d1-8271-00a02442df7d";
const CPU_ACTIVITY: &str = "5c6e1f6a-0000-1010-a8c0-ec1c5d61e73f";
const SEED: &str = "14af198a-1234-1056-8079-8cf319cd19f8";

fn uuid_bytes(text: &str, little: bool) -> Vec<u8> {
    let hex: Vec<u8> = text.bytes().filter(|c| *c != b'-').collect();
    let mut b: Vec<u8> = hex
        .chunks(2)
        .map(|p| u8::from_str_radix(std::str::from_utf8(p).unwrap(), 16).unwrap())
        .collect();
    if little {
        b[..4].reverse();
        b[4..6].reverse();
        b[6..8].reverse();
    }
    b
}

fn put16(b: &mut Vec<u8>, v: u16) {
    b.extend_from_slice(&v.to_be_bytes());
}

fn put32(b: &mut Vec<u8>, v: u32) {
    b.extend_from_slice(&v.to_be_bytes());
}

fn block(block_type: u16, body: &[u8]) -> Vec<u8> {
    let mut b = Vec::new();
    put16(&mut b, block_type);
    put16(&mut b, body.len() as u16 + 2);
    b.extend_from_slice(&[1, 0]);
    b.extend_from_slice(body);
    b
}

fn iocr(kind: u16, frame_id: u16, data: &[(u16, u16, u16)], iocs: &[(u16, u16, u16)]) -> Vec<u8> {
    let mut b = Vec::new();
    for v in [kind, kind, 0x8892] {
        put16(&mut b, v);
    }
    put32(&mut b, 2);
    for v in [40, frame_id, 32, 32, 1, 0] {
        put16(&mut b, v);
    }
    put32(&mut b, 0xffff_ffff);
    for v in [3, 3, 0xc000, 0, 0, 0, 1] {
        put16(&mut b, v);
    }
    put32(&mut b, 0);
    for list in [data, iocs] {
        put16(&mut b, list.len() as u16);
        for o in list {
            put16(&mut b, o.0);
            put16(&mut b, o.1);
            put16(&mut b, o.2);
        }
    }
    block(0x0102, &b)
}

/// `(subslot, ident, properties, input length, output length)` of each submodule.
fn expected(slot: u16, module: u32, submodules: &[(u16, u32, u16, u16, u16)]) -> Vec<u8> {
    let mut b = Vec::new();
    put16(&mut b, 1);
    put32(&mut b, 0);
    put16(&mut b, slot);
    put32(&mut b, module);
    put16(&mut b, 0);
    put16(&mut b, submodules.len() as u16);
    for s in submodules {
        put16(&mut b, s.0);
        put32(&mut b, s.1);
        put16(&mut b, s.2);
        if s.2 != 2 {
            put16(&mut b, 1);
            put16(&mut b, s.3);
            b.extend_from_slice(&[1, 1]);
        }
        if s.2 >= 2 {
            put16(&mut b, 2);
            put16(&mut b, s.4);
            b.extend_from_slice(&[1, 1]);
        }
    }
    block(0x0104, &b)
}

fn connect_blocks() -> Vec<u8> {
    let name = b"plcxbbench.profinetxainterfacexb25fbd";
    let mut ar = Vec::new();
    put16(&mut ar, 1);
    ar.extend_from_slice(&uuid_bytes(AR_UUID, false));
    put16(&mut ar, 2);
    ar.extend_from_slice(&CPU_MAC.0);
    ar.extend_from_slice(&uuid_bytes(CPU_OBJECT, false));
    put32(&mut ar, 0x4000_0011);
    put16(&mut ar, 200);
    put16(&mut ar, 0x8892);
    put16(&mut ar, name.len() as u16);
    ar.extend_from_slice(name);
    let mut alarm = Vec::new();
    put16(&mut alarm, 1);
    put16(&mut alarm, 0x8892);
    put32(&mut alarm, 0);
    for v in [1, 3, 0, 256, 0xc000, 0xa000] {
        put16(&mut alarm, v);
    }
    [
        block(0x0101, &ar),
        iocr(
            1,
            0x8000,
            &[(0, 1, 0), (0, 0x8000, 1), (0, 0x8001, 2), (1, 1, 3), (3, 1, 6), (4, 1, 9)],
            &[(2, 1, 5), (3, 1, 8), (4, 1, 18)],
        ),
        iocr(
            2,
            0x8001,
            &[(2, 1, 4), (3, 1, 7), (4, 1, 10)],
            &[(0, 1, 0), (0, 0x8000, 1), (0, 0x8001, 2), (1, 1, 3), (3, 1, 6), (4, 1, 9)],
        ),
        expected(
            0,
            1,
            &[(1, 1, 0, 0, 0), (0x8000, 0x8000, 0, 0, 0), (0x8001, 0x8001, 0, 0, 0)],
        ),
        expected(1, 0x30, &[(1, 0x130, 1, 1, 0)]),
        expected(2, 0x31, &[(1, 0x131, 2, 0, 1)]),
        expected(3, 0x32, &[(1, 0x132, 3, 1, 1)]),
        expected(4, 0x40, &[(1, 0x140, 3, 8, 8)]),
        block(0x0103, &alarm),
    ]
    .concat()
}

fn connect_res_blocks() -> Vec<u8> {
    let mut ar = Vec::new();
    put16(&mut ar, 1);
    ar.extend_from_slice(&uuid_bytes(AR_UUID, false));
    put16(&mut ar, 2);
    ar.extend_from_slice(&MAC.0);
    put16(&mut ar, 0x8892);
    [
        block(0x8101, &ar),
        block(0x8102, &[0, 1, 0, 1, 0x80, 0x00]),
        block(0x8102, &[0, 2, 0, 2, 0x80, 0x01]),
        block(0x8103, &[0, 1, 0, 0, 0, 200]),
        block(0x8106, b"\x00\x0brt-labs-dev\x00"),
    ]
    .concat()
}

/// A record header and its data: `(api, slot, subslot)` and index.
fn record(block_type: u16, seq: u16, at: (u32, u16, u16), index: u16, data: &[u8]) -> Vec<u8> {
    let mut b = Vec::new();
    put16(&mut b, seq);
    b.extend_from_slice(&uuid_bytes(AR_UUID, false));
    put32(&mut b, at.0);
    put16(&mut b, at.1);
    put16(&mut b, at.2);
    put16(&mut b, 0);
    put16(&mut b, index);
    put32(&mut b, data.len() as u32);
    b.resize(58, 0);
    let mut r = block(block_type, &b);
    r.extend_from_slice(data);
    r
}

fn write_blocks() -> Vec<u8> {
    let nested = [
        record(
            8,
            1,
            (0, 0, 0x8000),
            0x8071,
            &[0x02, 0x50, 0x00, 0x08, 0x01, 0x00, 0x00, 0x00, 0x00, 0x00, 0x00, 0x01],
        ),
        record(8, 2, (0, 3, 1), 0x7b, &[0, 0, 0, 1]),
        record(8, 3, (0, 3, 1), 0x7c, &[0, 0, 0, 2]),
        record(8, 4, (0, 4, 1), 0x7d, &[0, 0, 0, 2]),
    ]
    .concat();
    record(8, 0, (0xffff_ffff, 0xffff, 0xffff), 0xe040, &nested)
}

fn write_res_blocks() -> Vec<u8> {
    [
        record(0x8008, 0, (0xffff_ffff, 0xffff, 0xffff), 0xe040, &[]),
        record(0x8008, 1, (0, 0, 0x8000), 0x8071, &[]),
        record(0x8008, 2, (0, 3, 1), 0x7b, &[]),
        record(0x8008, 3, (0, 3, 1), 0x7c, &[]),
        record(0x8008, 4, (0, 4, 1), 0x7d, &[]),
    ]
    .concat()
}

fn control(block_type: u16, command: u16) -> Vec<u8> {
    let mut b = vec![0, 0];
    b.extend_from_slice(&uuid_bytes(AR_UUID, false));
    for v in [2, 0, command, 0] {
        put16(&mut b, v);
    }
    block(block_type, &b)
}

fn read_blocks(slot: u16, subslot: u16) -> Vec<u8> {
    let mut b = vec![0, 7];
    b.extend_from_slice(&uuid_bytes(READ_AR_UUID, false));
    put32(&mut b, 0);
    for v in [slot, subslot, 0, 0xaff0] {
        put16(&mut b, v);
    }
    put32(&mut b, 0x8000);
    b.resize(58, 0);
    block(0x0009, &b)
}

/// The identity of the reference device and the I&M0 record it answers.
fn pnet_im0() -> Im0 {
    Im0 {
        order_id: "12345 Abcdefghijk".into(),
        serial_number: "007".into(),
        hardware_revision: 3,
        software_revision: SwRevision {
            prefix: 'V',
            functional: 0,
            bug_fix: 2,
            internal: 0,
        },
        revision_counter: 0,
        profile_id: 0x1234,
        profile_specific_type: 0x5678,
    }
}

fn pnet_im0_record() -> Vec<u8> {
    let mut b = vec![0x04, 0x93];
    b.extend_from_slice(b"12345 Abcdefghijk   ");
    b.extend_from_slice(b"007             ");
    b.extend_from_slice(&[0, 3, b'V', 0, 2, 0, 0, 0, 0x12, 0x34, 0x56, 0x78, 1, 1, 0, 0x0e]);
    block(0x0020, &b)
}

fn read_res_blocks(slot: u16, subslot: u16) -> Vec<u8> {
    let data = pnet_im0_record();
    let mut b = vec![0, 7];
    b.extend_from_slice(&uuid_bytes(READ_AR_UUID, false));
    put32(&mut b, 0);
    for v in [slot, subslot, 0, 0xaff0] {
        put16(&mut b, v);
    }
    put32(&mut b, data.len() as u32);
    b.resize(58, 0);
    [block(0x8009, &b), data].concat()
}

/// A DCE-RPC PDU: header, the NDR words, and blocks.
struct Pdu<'a> {
    response: bool,
    little: bool,
    flags: u8,
    object: &'a str,
    interface: &'a str,
    activity: &'a str,
    seq: u32,
    opnum: u16,
    first_word: u32,
    max_count: u32,
    blocks: Vec<u8>,
}

fn pdu_bytes(p: &Pdu) -> Vec<u8> {
    let w16 = |v: u16| if p.little { v.to_le_bytes() } else { v.to_be_bytes() };
    let w32 = |v: u32| if p.little { v.to_le_bytes() } else { v.to_be_bytes() };
    let mut b = vec![4, if p.response { 2 } else { 0 }, p.flags, 0];
    b.extend_from_slice(&[if p.little { 0x10 } else { 0 }, 0, 0, 0]);
    for u in [p.object, p.interface, p.activity] {
        b.extend_from_slice(&uuid_bytes(u, p.little));
    }
    for v in [0, 1, p.seq] {
        b.extend_from_slice(&w32(v));
    }
    for v in [p.opnum, 0xffff, 0xffff, 20 + p.blocks.len() as u16, 0] {
        b.extend_from_slice(&w16(v));
    }
    b.extend_from_slice(&[0, 0]);
    let n = p.blocks.len() as u32;
    for v in [p.first_word, n, p.max_count, 0, n] {
        b.extend_from_slice(&w32(v));
    }
    b.extend_from_slice(&p.blocks);
    b
}

/// A request of the controller, little-endian.
fn request(seq: u32, opnum: u16, blocks: Vec<u8>) -> Vec<u8> {
    let n = blocks.len() as u32;
    pdu_bytes(&Pdu {
        response: false,
        little: true,
        flags: 0x20,
        object: OBJECT,
        interface: DEVICE_IF,
        activity: CPU_ACTIVITY,
        seq,
        opnum,
        first_word: n,
        max_count: n,
        blocks,
    })
}

/// The device's answer to such a request, big-endian.
fn response(seq: u32, opnum: u16, request_len: u32, blocks: Vec<u8>) -> Vec<u8> {
    pdu_bytes(&Pdu {
        response: true,
        little: false,
        flags: 0x28,
        object: OBJECT,
        interface: DEVICE_IF,
        activity: CPU_ACTIVITY,
        seq,
        opnum,
        first_word: 0,
        max_count: request_len,
        blocks,
    })
}

fn pdu(name: &str) -> Vec<u8> {
    match name {
        "connect_req" => request(0, 0, connect_blocks()),
        "connect_res" => response(0, 0, 557, connect_res_blocks()),
        "write_req" => request(1, 3, write_blocks()),
        "write_res" => response(1, 3, 344, write_res_blocks()),
        "prmend_req" => request(2, 4, control(0x0110, 1)),
        "prmend_res" => response(2, 4, 32, control(0x8110, 8)),
        "appready_req" => pdu_bytes(&Pdu {
            response: false,
            little: false,
            flags: 0x20,
            object: CPU_OBJECT,
            interface: CONTROLLER_IF,
            activity: SEED,
            seq: 0,
            opnum: 4,
            first_word: 1340,
            max_count: 1340,
            blocks: control(0x0112, 2),
        }),
        "appready_res" => pdu_bytes(&Pdu {
            response: true,
            little: true,
            flags: 0x0a,
            object: CPU_OBJECT,
            interface: CONTROLLER_IF,
            activity: SEED,
            seq: 0,
            opnum: 4,
            first_word: 0,
            max_count: 1340,
            blocks: control(0x8112, 8),
        }),
        "im0_read_req" => request(0x40, 2, read_blocks(0, 1)),
        "im0_read_res" => response(0x40, 2, 64, read_res_blocks(0, 1)),
        "im0_read_req_if" => request(0x41, 2, read_blocks(0, 0x8000)),
        "im0_read_res_if" => response(0x41, 2, 64, read_res_blocks(0, 0x8000)),
        _ => panic!("no pdu {name}"),
    }
}

#[test]
fn parse_cpu_frame() {
    let f = cpu_frame();
    let (eth, rt) = RtFrame::parse(&f).unwrap();
    assert_eq!(eth.src, CPU);
    assert_eq!(eth.vlan, Some(TCI_RT));
    assert_eq!(rt.frame_id, 0x8001);
    assert_eq!(rt.csdu.len(), 40);
    assert_eq!(rt.csdu, &f[20..20 + 40]);
    assert_eq!(rt.cycle_counter, 0xb800);
    assert_eq!(rt.data_status, DataStatus::run_primary_valid_ok());
    assert!(
        rt.data_status.provider_run()
            && rt.data_status.primary()
            && rt.data_status.data_valid()
    );
    assert_eq!(rt.transfer_status, 0);
}

#[test]
fn parse_untagged_frame_too() {
    let f = cpu_frame();
    let mut untagged = f[..12].to_vec();
    untagged.extend_from_slice(&f[16..]);
    let (eth, rt) = RtFrame::parse(&untagged).unwrap();
    assert_eq!(eth.vlan, None);
    assert_eq!(rt.frame_id, 0x8001);
    assert_eq!(rt.cycle_counter, 0xb800);
}

#[test]
fn write_is_byte_exact_against_cpu_golden() {
    let f = cpu_frame();
    let (_, rt) = RtFrame::parse(&f).unwrap();
    let mut out = [0u8; 128];
    let n = rt.write(&mut out, DEV, CPU).unwrap();
    assert_eq!(n, 64);
    assert_eq!(&out[..n], &f[..]);
}

#[test]
fn write_pads_short_csdu_to_40() {
    let rt = RtFrame {
        frame_id: 0x8000,
        csdu: &[1, 2, 3],
        cycle_counter: 1024,
        data_status: DataStatus::run_primary_valid_ok(),
        transfer_status: 0,
    };
    let mut out = [0u8; 128];
    let n = rt.write(&mut out, CPU, DEV).unwrap();
    assert_eq!(n, frame_len(3));
    assert_eq!(n, 64);
    assert_eq!(&out[20..23], &[1, 2, 3]);
    assert!(out[23..60].iter().all(|b| *b == 0));
    assert_eq!(&out[60..64], &[0x04, 0x00, 0x35, 0x00]);
}

#[test]
fn a_written_frame_reads_back_from_where_it_was_written() {
    let rt = RtFrame {
        frame_id: 0x8001,
        csdu: &[7; 41],
        cycle_counter: 0xfffe,
        data_status: DataStatus(0x15),
        transfer_status: 3,
    };
    let mut out = [0xaau8; 70];
    assert_eq!(rt.write(&mut out, CPU, DEV), Ok(65));
    assert_eq!(&out[65..], &[0xaa; 5]);
    let (header, frame) = RtFrame::parse(&out[..65]).unwrap();
    assert_eq!((header.dst, header.src, header.vlan), (CPU, DEV, Some(0xC000)));
    assert_eq!(frame, rt);
    // one byte short: refused, nothing written
    let mut small = [0xaau8; 64];
    assert_eq!(
        rt.write(&mut small, CPU, DEV),
        Err(FrameError::BufferTooSmall { need: 65, have: 64 })
    );
    assert_eq!(small, [0xaa; 64]);
}

#[test]
fn data_status_bits() {
    let stop = DataStatus(0x25);
    assert!(!stop.provider_run() && stop.primary() && stop.data_valid() && stop.station_ok());
    let backup = DataStatus(0x36);
    assert!(!backup.primary() && backup.redundancy());
}

#[test]
fn errors() {
    assert_eq!(
        RtFrame::parse(&cpu_frame()[..30]).unwrap_err(),
        FrameError::TooShort { need: 64, have: 30 }
    );
    assert_eq!(
        RtFrame::parse(&cpu_frame()[..16]).unwrap_err(),
        FrameError::TooShort { need: 64, have: 16 }
    );
    assert_eq!(
        RtFrame::parse(&[0u8; 10]).unwrap_err(),
        FrameError::TooShort { need: 60, have: 10 }
    );
    let mut ip = cpu_frame();
    ip[16] = 0x08;
    ip[17] = 0x00;
    assert_eq!(RtFrame::parse(&ip).unwrap_err(), FrameError::NotProfinet);
    let rt = RtFrame {
        frame_id: 1,
        csdu: &[0; 40],
        cycle_counter: 0,
        data_status: DataStatus(0),
        transfer_status: 0,
    };
    assert_eq!(
        rt.write(&mut [0u8; 10], CPU, DEV).unwrap_err(),
        FrameError::BufferTooSmall { need: 64, have: 10 }
    );
}

fn layout() -> Layout {
    let model = DeviceModel::pnet_sample(MAC);
    let req = ConnectReq::parse(&connect_blocks()).unwrap();
    let params = validate(&req, &model).unwrap();
    Layout::from_ar(&params, &model).unwrap()
}

#[test]
fn input_cr_matches_bench_table() {
    let l = layout();
    let cr = &l.input_cr;
    assert_eq!(
        (cr.frame_id, cr.data_length, cr.cycle_step),
        (0x8000, 40, 1024)
    );
    assert_eq!(cr.watchdog, 96_000_000);
    assert_eq!(cr.period(), 32_000_000);
    let o = |slot, subslot| {
        cr.objects
            .iter()
            .find(|o| o.slot == slot && o.subslot == subslot)
            .unwrap()
    };
    assert_eq!(
        (o(0, 1).data_off, o(0, 1).data_len, o(0, 1).iops_off),
        (0, 0, 0)
    );
    assert_eq!((o(0, 0x8000).iops_off, o(0, 0x8001).iops_off), (1, 2));
    assert_eq!(
        (o(1, 1).data_off, o(1, 1).data_len, o(1, 1).iops_off),
        (3, 1, 4)
    );
    assert_eq!((o(3, 1).data_off, o(3, 1).iops_off), (6, 7));
    assert_eq!(
        (o(4, 1).data_off, o(4, 1).data_len, o(4, 1).iops_off),
        (9, 8, 17)
    );
    let c = |slot| cr.iocs.iter().find(|c| c.slot == slot).unwrap().iocs_off;
    assert_eq!((c(2), c(3), c(4)), (5, 8, 18));
}

#[test]
fn output_cr_matches_bench_table() {
    let l = layout();
    let cr = &l.output_cr;
    assert_eq!(cr.frame_id, 0x8001);
    let o = |slot| cr.objects.iter().find(|o| o.slot == slot).unwrap();
    assert_eq!((o(2).data_off, o(2).data_len, o(2).iops_off), (4, 1, 5));
    assert_eq!((o(3).data_off, o(3).iops_off), (7, 8));
    assert_eq!((o(4).data_off, o(4).data_len, o(4).iops_off), (10, 8, 18));
    let c = |slot, subslot| {
        cr.iocs
            .iter()
            .find(|c| c.slot == slot && c.subslot == subslot)
            .unwrap()
            .iocs_off
    };
    assert_eq!(
        (
            c(0, 1),
            c(0, 0x8000),
            c(0, 0x8001),
            c(1, 1),
            c(3, 1),
            c(4, 1)
        ),
        (0, 1, 2, 3, 6, 9)
    );
}

#[test]
fn cells_follow_the_model() {
    let l = layout();
    assert_eq!(l.cells.len(), 7);
    let echo = l.cells.iter().find(|c| c.slot == 4).unwrap();
    assert_eq!(
        (
            echo.input_len,
            echo.output_len,
            echo.input_off,
            echo.output_off
        ),
        (8, 8, Some(9), Some(10))
    );
    let di = l.cells.iter().find(|c| c.slot == 1).unwrap();
    assert_eq!((di.input_off, di.output_off), (Some(3), None));
}

#[test]
fn out_of_bounds_and_unknown_are_errors() {
    let model = DeviceModel::pnet_sample(MAC);
    let req = ConnectReq::parse(&connect_blocks()).unwrap();
    let mut params = validate(&req, &model).unwrap();
    params.input_cr.data_length = 10;
    assert!(matches!(
        Layout::from_ar(&params, &model),
        Err(LayoutError::OutOfBounds { .. })
    ));
    let mut model2 = model.clone();
    model2.slots.pop();
    let params = validate(&req, &model).unwrap();
    assert!(matches!(
        Layout::from_ar(&params, &model2),
        Err(LayoutError::UnknownSubmodule { slot: 4, .. })
    ));
}

fn fresh() -> Validity {
    Validity {
        provider_run: true,
        primary: true,
        watchdog: WatchdogState::InWindow,
        last_rx_age: Some(1_000_000),
        cycle: 7,
    }
}

#[test]
fn app_writes_land_in_the_rt_snapshot_at_layout_offsets() {
    let mut img = IoImage::new(&layout());
    img.write_inputs(1, 1, &[0xa5]).unwrap();
    img.write_inputs(4, 1, &[1, 2, 3, 4, 5, 6, 7, 8]).unwrap();
    let mut snap = vec![0u8; 40];
    assert!(img.rt_snapshot_inputs(&mut snap));
    assert_eq!(snap[3], 0xa5);
    assert_eq!(&snap[9..17], &[1, 2, 3, 4, 5, 6, 7, 8]);
    assert_eq!(
        img.write_inputs(1, 1, &[1, 2]).unwrap_err(),
        ImageError::LengthMismatch {
            expected: 1,
            got: 2
        }
    );
    assert_eq!(
        img.write_inputs(2, 1, &[1]).unwrap_err(),
        ImageError::NoInput {
            slot: 2,
            subslot: 1
        }
    );
    assert_eq!(
        img.write_inputs(9, 1, &[1]).unwrap_err(),
        ImageError::UnknownSubmodule {
            slot: 9,
            subslot: 1
        }
    );
}

#[test]
fn published_outputs_are_readable_per_cell_with_validity() {
    let mut img = IoImage::new(&layout());
    let mut csdu = vec![0u8; 40];
    csdu[4] = 0x01;
    csdu[10..18].copy_from_slice(&[0x12, 0x34, 0x56, 0x78, 0x3f, 0xc0, 0x00, 0x00]);
    assert!(img.rt_publish(&csdu, fresh()));
    let (qb0, v) = img.read_outputs(2, 1, |b, v| (b.to_vec(), *v)).unwrap();
    assert_eq!(qb0, vec![0x01]);
    assert_eq!(v.freshness(), Freshness::Fresh);
    let echo = img
        .read_outputs(4, 1, |b, _| f32::from_be_bytes([b[4], b[5], b[6], b[7]]))
        .unwrap();
    assert_eq!(echo, 1.5);
    assert_eq!(
        img.read_outputs(1, 1, |_, _| ()).unwrap_err(),
        ImageError::NoOutput {
            slot: 1,
            subslot: 1
        }
    );
}

#[test]
fn freshness_states() {
    let mut img = IoImage::new(&layout());
    assert_eq!(img.validity().freshness(), Freshness::NoData);
    let mut v = fresh();
    v.provider_run = false;
    assert!(img.rt_set_validity(v));
    assert_eq!(img.validity().freshness(), Freshness::Stopped);
    v.provider_run = true;
    v.watchdog = WatchdogState::Expired;
    assert!(img.rt_set_validity(v));
    assert_eq!(img.validity().freshness(), Freshness::Stale);
}

#[test]
fn set_validity_is_the_blocking_app_side_counterpart() {
    let mut img = IoImage::new(&layout());
    assert_eq!(img.validity().freshness(), Freshness::NoData);
    img.set_validity(fresh());
    assert_eq!(img.validity().freshness(), Freshness::Fresh);
    let mut stale = fresh();
    stale.watchdog = WatchdogState::Expired;
    stale.provider_run = false;
    img.set_validity(stale);
    assert_eq!(img.validity(), stale);
    assert_eq!(img.validity().freshness(), Freshness::Stale);
}

/// The two directions are held apart, each in an image of its own.
#[test]
fn read_outputs_closure_may_write_inputs() {
    let mut outputs = IoImage::new(&layout());
    let mut inputs = IoImage::new(&layout());
    let mut csdu = vec![0u8; 40];
    csdu[4] = 0x5a;
    assert!(outputs.rt_publish(&csdu, fresh()));
    outputs
        .read_outputs(2, 1, |b, _| inputs.write_inputs(1, 1, b).unwrap())
        .unwrap();
    let mut snap = vec![0u8; 40];
    assert!(inputs.rt_snapshot_inputs(&mut snap));
    assert_eq!(snap[3], 0x5a);
}

#[test]
fn outputs_that_were_read_can_be_written_as_inputs() {
    let mut img = IoImage::new(&layout());
    let mut csdu = vec![0u8; 40];
    csdu[4] = 0x5a;
    assert!(img.rt_publish(&csdu, fresh()));
    let b = img.read_outputs(2, 1, |b, _| b.to_vec()).unwrap();
    img.write_inputs(1, 1, &b).unwrap();
    let mut snap = vec![0u8; 40];
    assert!(img.rt_snapshot_inputs(&mut snap));
    assert_eq!(snap[3], 0x5a);
}

#[test]
fn empty_then_rebuild() {
    let mut img = IoImage::empty();
    assert_eq!(
        img.write_inputs(1, 1, &[1]).unwrap_err(),
        ImageError::UnknownSubmodule {
            slot: 1,
            subslot: 1
        }
    );
    img.rebuild(&layout());
    img.write_inputs(1, 1, &[1]).unwrap();
    assert_eq!(img.cells().len(), 7);
}

#[test]
fn clear_drops_the_layout_but_not_the_validity() {
    let mut img = IoImage::new(&layout());
    img.rebuild(&layout());
    assert_eq!(img.cells().len(), 7);
    // The validity `device::Device::stop_runner` just set (watchdog Expired,
    // provider_run false) must survive `clear`.
    let mut v = fresh();
    v.watchdog = WatchdogState::Expired;
    v.provider_run = false;
    img.set_validity(v);

    img.clear();

    assert!(img.cells().is_empty());
    assert_eq!(
        img.write_inputs(1, 1, &[1]).unwrap_err(),
        ImageError::UnknownSubmodule {
            slot: 1,
            subslot: 1
        }
    );
    assert_eq!(
        img.read_outputs(1, 1, |_, _| ()).unwrap_err(),
        ImageError::UnknownSubmodule {
            slot: 1,
            subslot: 1
        }
    );
    assert_eq!(img.validity(), v);
    assert_eq!(img.validity().freshness(), Freshness::Stale);
}

#[test]
fn tick_grid_anchors_on_first_read_and_does_not_count_its_setup_expirations() {
    let period: u64 = 1_000_000;
    let mut grid = TickGrid::new(period);
    let t0: u64 = 5_000_000_000;

    // The first read anchors the grid: lateness is always 0, and only 1 tick
    // is counted no matter how many expirations the timerfd reports (those
    // extra ones are the RT thread's own setup time, not missed cycles).
    assert_eq!(grid.on_read(t0, 3), 0);
    assert_eq!(grid.ticks(), 1);

    // Exactly one period later, on time: still 0.
    assert_eq!(grid.on_read(t0 + period, 1), 0);
    assert_eq!(grid.ticks(), 2);

    // One period after that tick's own ideal instant, plus 250 us of jitter.
    let late = t0 + 2 * period + 250_000;
    assert_eq!(grid.on_read(late, 1), 250_000);
    assert_eq!(grid.ticks(), 3);

    // Two periods after *this* tick's ideal instant (t0 + 2*period), plus
    // 10 us, and reporting 2 expirations (one missed tick in between).
    let later = t0 + 4 * period + 10_000;
    assert_eq!(grid.on_read(later, 2), 10_000);
    assert_eq!(grid.ticks(), 5);

    // A wake earlier than the ideal grid (clock jitter): clamped to 0, never
    // a panic or an underflow.
    let early = t0 + 5 * period - 1_000_000;
    assert_eq!(grid.on_read(early, 1), 0);
    assert_eq!(grid.ticks(), 6);
}

#[test]
fn drain_should_continue_pins_the_policy() {
    // With a raw fd, only the pre-check's readability matters: a skipped
    // frame does not stop the drain as long as the queue still reports
    // readable.
    assert!(drain_should_continue(true, true, false));
    assert!(drain_should_continue(true, true, true));
    // Without a fd to probe ahead of time, only whether `recv` actually
    // handed back a frame matters.
    assert!(drain_should_continue(false, true, true));
    assert!(!drain_should_continue(false, true, false));
}

#[test]
fn prefault_stack_returns() {
    prefault_stack();
}

#[test]
fn set_affinity_rejects_an_empty_list() {
    assert_eq!(check_cpus(&[], 1024), Err(CpuListError::Empty));
}

#[test]
fn set_affinity_rejects_a_cpu_beyond_the_bitmap_width() {
    let max_cpu = 1024;
    assert_eq!(
        check_cpus(&[max_cpu], max_cpu),
        Err(CpuListError::OutOfRange { cpu: max_cpu, max_cpu })
    );
    // A valid CPU earlier in the slice does not save an out-of-range one later.
    assert_eq!(
        check_cpus(&[0, max_cpu], max_cpu),
        Err(CpuListError::OutOfRange { cpu: max_cpu, max_cpu })
    );
    assert_eq!(check_cpus(&[0, max_cpu - 1], max_cpu), Ok(()));
}

#[test]
fn waits_round_up_to_whole_milliseconds() {
    assert_eq!(wait_millis(0), Some(0));
    assert_eq!(wait_millis(500_000), Some(1));
    assert_eq!(wait_millis(1_000_000), Some(1));
    assert_eq!(wait_millis(1_000_001), Some(2));
    assert_eq!(wait_millis(70_000_000_000), Some(70_000));
    assert_eq!(wait_millis(2_147_483_647_000_000), Some(i32::MAX));
    assert_eq!(wait_millis(2_147_483_647_000_001), None);
    assert_eq!(wait_millis(u64::MAX), None);
}

#[test]
fn the_first_read_counts_one_expiration() {
    assert_eq!(engine_expirations(true, 5), 1);
    assert_eq!(engine_expirations(false, 5), 5);
    assert_eq!(engine_expirations(false, u64::MAX), u32::MAX);
}

#[test]
fn a_pass_drains_a_ready_socket_or_after_a_tick() {
    assert!(should_drain(true, true, false));
    assert!(!should_drain(true, false, true));
    assert!(should_drain(false, false, true));
    assert!(!should_drain(false, false, false));
}

#[test]
fn a_publish_that_could_not_happen_is_retried() {
    let mut l = RtLoop::new(1_000_000);
    l.begin();
    l.on_publish(fresh(), false);
    l.begin();
    let plan = l.on_timer(10, 1).unwrap();
    assert!(plan.retry.is_some());
    l.on_retry(plan.retry.unwrap(), true);
    let plan = l.on_timer(1_000_010, 1).unwrap();
    assert!(plan.retry.is_none());
}

const PROVIDER: ProviderState = ProviderState { run: true, primary: true };

fn act(d: Decision) -> LoopAction {
    d.action
}

/// A machine that has been woken for a tick.
fn in_a_tick(has_fd: bool) -> RtMachine {
    let mut m = RtMachine::new(1_000_000, has_fd);
    let d = m.step(LoopEvent::Woke { timer: true, socket: false });
    assert_eq!(act(d), LoopAction::ReadTimer);
    m
}

#[test]
fn a_tick_goes_through_its_steps_to_a_frame() {
    let mut m = in_a_tick(true);
    let d = m.step(LoopEvent::Timer { now: 10, expirations: 7 });
    assert_eq!(
        (d.action, d.sample),
        (LoopAction::CheckWatchdog { now: 10 }, Some(Sample::Lateness(0)))
    );
    let d = m.step(LoopEvent::Watchdog {
        expired: true,
        provider: PROVIDER,
        last_rx: Some(4),
    });
    let LoopAction::Expire(v) = act(d) else {
        panic!("the outputs go stale")
    };
    assert_eq!(v.last_rx_age, Some(6));
    assert_eq!((v.watchdog, v.cycle), (WatchdogState::Expired, 1));
    assert_eq!(
        act(m.step(LoopEvent::ValiditySet { taken: false })),
        LoopAction::TakeInputs
    );
    // setup time before the first read counts one expiration
    assert_eq!(
        act(m.step(LoopEvent::Snapshot { taken: false })),
        LoopAction::Produce(1)
    );
    let d = m.step(LoopEvent::Sent { now: 35 });
    assert_eq!((d.action, d.sample), (LoopAction::Wait, Some(Sample::Work(25))));
    assert_eq!(
        (m.state.output_publish_deferred, m.state.input_snapshot_reused),
        (1, 1)
    );
    // the validity that was not taken is tried again at the next tick
    m.step(LoopEvent::Woke { timer: true, socket: false });
    let d = m.step(LoopEvent::Timer { now: 1_000_110, expirations: 1 });
    assert_eq!(
        (d.action, d.sample),
        (
            LoopAction::Retry(Pending::Validity(v)),
            Some(Sample::Lateness(100))
        )
    );
    assert_eq!(
        act(m.step(LoopEvent::Retried { taken: true })),
        LoopAction::CheckWatchdog { now: 1_000_110 }
    );
}

#[test]
fn every_frame_brings_one_lateness_and_one_work_time() {
    let mut m = RtMachine::new(1_000_000, false);
    let (mut late, mut work, mut sent) = (0, 0, 0);
    let mut produced = Vec::new();
    for (i, expirations) in [3, 1, 0, 2, 1].into_iter().enumerate() {
        let now = 1_000_000 * (i as u64 + 1);
        let mut e = LoopEvent::Woke { timer: true, socket: false };
        loop {
            let d = m.step(e);
            match d.sample {
                Some(Sample::Lateness(_)) => late += 1,
                Some(Sample::Work(w)) => {
                    assert_eq!(w, 7);
                    work += 1;
                }
                _ => {}
            }
            e = match d.action {
                LoopAction::ReadTimer => LoopEvent::Timer { now, expirations },
                LoopAction::CheckWatchdog { now: at } => {
                    assert_eq!(at, now);
                    LoopEvent::Watchdog { expired: false, provider: PROVIDER, last_rx: None }
                }
                LoopAction::TakeInputs => LoopEvent::Snapshot { taken: true },
                LoopAction::Produce(n) => {
                    produced.push(n);
                    sent += 1;
                    LoopEvent::Sent { now: now + 7 }
                }
                LoopAction::Receive => LoopEvent::Received {
                    outcome: Received::Nothing,
                    provider: PROVIDER,
                    now,
                },
                _ => break,
            };
        }
    }
    assert_eq!((late, work, sent), (4, 4, 4));
    // the first read counts one, whatever setting up took
    assert_eq!(produced, [1, 1, 2, 1]);
}

#[test]
fn a_receive_pass_is_bounded_and_reports_intervals() {
    let mut m = RtMachine::new(1_000_000, true);
    assert_eq!(
        act(m.step(LoopEvent::Woke { timer: false, socket: true })),
        LoopAction::Probe
    );
    for i in 0..MAX_RX_PER_PASS {
        assert_eq!(
            act(m.step(LoopEvent::Probed { readable: true })),
            LoopAction::Receive
        );
        let d = m.step(LoopEvent::Received {
            outcome: Received::Accepted { previous: Some(5) },
            provider: PROVIDER,
            now: 9,
        });
        assert_eq!(d.sample, Some(Sample::Interval(4)));
        let LoopAction::Publish(v) = act(d) else {
            panic!("an accepted frame is published")
        };
        assert_eq!(v.freshness(), Freshness::Fresh);
        let last = i + 1 == MAX_RX_PER_PASS;
        assert_eq!(
            act(m.step(LoopEvent::Published { taken: true })),
            if last { LoopAction::Wait } else { LoopAction::Probe }
        );
    }
}

#[test]
fn an_oversized_frame_is_counted_and_the_pass_goes_on() {
    let mut m = RtMachine::new(1_000_000, true);
    m.step(LoopEvent::Woke { timer: false, socket: true });
    m.step(LoopEvent::Probed { readable: true });
    let d = m.step(LoopEvent::Received {
        outcome: Received::TooLong,
        provider: PROVIDER,
        now: 0,
    });
    assert_eq!(act(d), LoopAction::Probe);
    assert_eq!(m.state.rx_invalid, 1);
    // an empty queue ends the pass
    assert_eq!(
        act(m.step(LoopEvent::Probed { readable: false })),
        LoopAction::Wait
    );
}

#[test]
fn a_transport_without_a_descriptor_is_drained_after_a_tick() {
    let mut m = in_a_tick(false);
    m.step(LoopEvent::Timer { now: 10, expirations: 1 });
    m.step(LoopEvent::Watchdog {
        expired: false,
        provider: PROVIDER,
        last_rx: None,
    });
    m.step(LoopEvent::Snapshot { taken: true });
    // a clock that went back measures no work
    let d = m.step(LoopEvent::Sent { now: 9 });
    assert_eq!((d.action, d.sample), (LoopAction::Receive, Some(Sample::Work(0))));
    let d = m.step(LoopEvent::Received {
        outcome: Received::Dropped,
        provider: PROVIDER,
        now: 11,
    });
    assert_eq!(act(d), LoopAction::Receive);
    let d = m.step(LoopEvent::Received {
        outcome: Received::Nothing,
        provider: PROVIDER,
        now: 11,
    });
    assert_eq!(act(d), LoopAction::Wait);
}

#[test]
fn a_loop_that_gets_nowhere_ends() {
    let mut m = RtMachine::new(1_000_000, true);
    for i in 1..=MAX_NO_PROGRESS_ITERATIONS {
        let d = m.step(LoopEvent::Woke { timer: false, socket: false });
        assert_eq!(
            act(d),
            if i == MAX_NO_PROGRESS_ITERATIONS {
                LoopAction::Stop(StopReason::NoProgress)
            } else {
                LoopAction::Wait
            }
        );
    }
}

#[test]
fn failures_and_stop_requests_end_the_loop() {
    let mut m = in_a_tick(true);
    assert!(!m.expects(&LoopEvent::StopRequested));
    assert_eq!(
        act(m.step(LoopEvent::Failed)),
        LoopAction::Stop(StopReason::Timer)
    );
    assert_eq!(m.phase, Phase::Stopped);
    assert!(!m.expects(&LoopEvent::Failed));
    let mut m = RtMachine::new(1_000_000, true);
    assert_eq!(
        act(m.step(LoopEvent::StopRequested)),
        LoopAction::Stop(StopReason::Requested)
    );
    let mut m = RtMachine::new(1_000_000, true);
    assert_eq!(
        act(m.step(LoopEvent::Failed)),
        LoopAction::Stop(StopReason::Poll)
    );
}

#[test]
fn the_thread_is_prepared_as_configured() {
    let model = DeviceModel::pnet_sample(MAC);
    let req = ConnectReq::parse(&connect_blocks()).unwrap();
    let layout = Layout::from_ar(&validate(&req, &model).unwrap(), &model).unwrap();
    let mut cfg = RtConfig {
        iface: "eth0".into(),
        our_mac: MAC,
        cpu_mac: CPU_MAC,
        layout,
        cpu_pin: Some(3),
        rt_priority: Some(80),
        lock_memory: true,
    };
    assert_eq!(
        setup_steps(&cfg),
        vec![
            SetupStep::Pin(3),
            SetupStep::Fifo(80),
            SetupStep::LockMemory,
            SetupStep::PrefaultStack
        ]
    );
    cfg.cpu_pin = None;
    cfg.lock_memory = false;
    assert_eq!(setup_steps(&cfg), vec![SetupStep::Fifo(80)]);
}

#[test]
fn overlapping_objects_are_no_layout() {
    let model = DeviceModel::pnet_sample(MAC);
    let req = ConnectReq::parse(&connect_blocks()).unwrap();
    let mut params = validate(&req, &model).unwrap();
    params.input_cr.io_data[5].frame_offset = 8;
    assert!(matches!(
        Layout::from_ar(&params, &model),
        Err(LayoutError::Overlap { .. })
    ));
}
