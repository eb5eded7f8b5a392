//! The device in its acyclic loop: bring-up, alarms, diagnoses, aborts.
#![allow(dead_code)]

use pnio::alarm::{is_alarm_frame, parse_frame, AlarmType, RtaBody, RtaData};
use pnio::cm::{
    app_ready_req, build_connect_res, build_write_res, prm_end_done, release_done, validate,
    AbortReason, Action, ArParams, ArState, Cm, CmOutput, ControlBlock, DeviceModel, Event,
    Handled, PnioStatus,
};
use pnio::config::{Direction, Slot};
use pnio::dcp::{DcpConfig, DeviceProperties, IdentifyRequest};
use pnio::device::{
    err_rta_code2, prepare_runner, retire_image, Device, DeviceSetup, DiagCommand, Effect,
    RtOptions, StepReport,
};
use pnio::device::turn::{Stage, Turn, TurnAction, TurnEvent};
use pnio::diag::{ChannelError, Diagnosis, Severity};
use pnio::eth::{MacAddr, MockTransport};
use pnio::im::{Im0, ImStore, SwRevision};
use pnio::rpc::{Drep, Endpoint, MockRpcTransport, RpcError, Uuid};
use pnio::rt::{Freshness, IoImage, RtEvent};

/// The device and the controller of the reference exchange.
const MAC: MacAddr = MacAddr([0x8c, 0xf3, 0x19, 0xcd, 0x19, 0xf8]);
const CPU_MAC: MacAddr = MacAddr([0xec, 0x1c, 0x5d, 0x61, 0xe7, 0x3f]);
const AR_UUID: &str = "e5e1aecc-b133-4b4d-b187-cc68b0211ed2";
const READ_AR_UUID: &str = "ef796d60-ef2b-9946-b39e-8531f5b7f966";
const OBJECT: &str = "dea00000-6c97-11d1-8271-000100020493";
const CPU_OBJECT: &str = "dea00000-6c97-11d1-8271-1064010e002a";
const DEVICE_IF: &str = "dea00001-6c97-11d1-8271-00a02442df7d";
const CONTROLLER_IF: &str = "dea00002-6c97-11d1-8271-00a02442df7d";
const CPU_ACTIVITY: &str = "5c6e1f6a-0000-1010-a8c0-ec1c5d61e73f";
const SEED: &str = "14af198a-1234-1056-8079-8cf319cd19f8";

fn uuid_bytes(text: &str, little: bool) -> Vec<u8> {
    let hex: Vec<u8> = text.bytes().filter(|c| *c != b'-').collect();
    let mut b: Vec<u8> = hex
        .chunks(2)
        .map(|p| u8::from_str_radix(std::str::from_utf8(p).unwrap(), 16).unwrap())
        .collect();
    if little {
        b[..4].reverse();
        b[4..6].reverse();
        b[6..8].reverse();
    }
    b
}

fn put16(b: &mut Vec<u8>, v: u16) {
    b.extend_from_slice(&v.to_be_bytes());
}

fn put32(b: &mut Vec<u8>, v: u32) {
    b.extend_from_slice(&v.to_be_bytes());
}

fn block(block_type: u16, body: &[u8]) -> Vec<u8> {
    let mut b = Vec::new();
    put16(&mut b, block_type);
    put16(&mut b, body.len() as u16 + 2);
    b.extend_from_slice(&[1, 0]);
    b.extend_from_slice(body);
    b
}

fn iocr(kind: u16, frame_id: u16, data: &[(u16, u16, u16)], iocs: &[(u16, u16, u16)]) -> Vec<u8> {
    let mut b = Vec::new();
    for v in [kind, kind, 0x8892] {
        put16(&mut b, v);
    }
    put32(&mut b, 2);
    for v in [40, frame_id, 32, 32, 1, 0] {
        put16(&mut b, v);
    }
    put32(&mut b, 0xffff_ffff);
    for v in [3, 3, 0xc000, 0, 0, 0, 1] {
        put16(&mut b, v);
    }
    put32(&mut b, 0);
    for list in [data, iocs] {
        put16(&mut b, list.len() as u16);
        for o in list {
            put16(&mut b, o.0);
            put16(&mut b, o.1);
            put16(&mut b, o.2);
        }
    }
    block(0x0102, &b)
}

/// `(subslot, ident, properties, input length, output length)` of each submodule.
fn expected(slot: u16, module: u32, submodules: &[(u16, u32, u16, u16, u16)]) -> Vec<u8> {
    let mut b = Vec::new();
    put16(&mut b, 1);
    put32(&mut b, 0);
    put16(&mut b, slot);
    put32(&mut b, module);
    put16(&mut b, 0);
    put16(&mut b, submodules.len() as u16);
    for s in submodules {
        put16(&mut b, s.0);
        put32(&mut b, s.1);
        put16(&mut b, s.2);
        if s.2 != 2 {
            put16(&mut b, 1);
            put16(&mut b, s.3);
            b.extend_from_slice(&[1, 1]);
        }
        if s.2 >= 2 {
            put16(&mut b, 2);
            put16(&mut b, s.4);
            b.extend_from_slice(&[1, 1]);
        }
    }
    block(0x0104, &b)
}

fn connect_blocks() -> Vec<u8> {
    let name = b"plcxbbench.profinetxainterfacexb25fbd";
    let mut ar = Vec::new();
    put16(&mut ar, 1);
    ar.extend_from_slice(&uuid_bytes(AR_UUID, false));
    put16(&mut ar, 2);
    ar.extend_from_slice(&CPU_MAC.0);
    ar.extend_from_slice(&uuid_bytes(CPU_OBJECT, false));
    put32(&mut ar, 0x4000_0011);
    put16(&mut ar, 200);
    put16(&mut ar, 0x8892);
    put16(&mut ar, name.len() as u16);
    ar.extend_from_slice(name);
    let mut alarm = Vec::new();
    put16(&mut alarm, 1);
    put16(&mut alarm, 0x8892);
    put32(&mut alarm, 0);
    for v in [1, 3, 0, 256, 0xc000, 0xa000] {
        put16(&mut alarm, v);
    }
    [
        block(0x0101, &ar),
        iocr(
            1,
            0x8000,
            &[(0, 1, 0), (0, 0x8000, 1), (0, 0x8001, 2), (1, 1, 3), (3, 1, 6), (4, 1, 9)],
            &[(2, 1, 5), (3, 1, 8), (4, 1, 18)],
        ),
        iocr(
            2,
            0x8001,
            &[(2, 1, 4), (3, 1, 7), (4, 1, 10)],
            &[(0, 1, 0), (0, 0x8000, 1), (0, 0x8001, 2), (1, 1, 3), (3, 1, 6), (4, 1, 9)],
        ),
        expected(
            0,
            1,
            &[(1, 1, 0, 0, 0), (0x8000, 0x8000, 0, 0, 0), (0x8001, 0x8001, 0, 0, 0)],
        ),
        expected(1, 0x30, &[(1, 0x130, 1, 1, 0)]),
        expected(2, 0x31, &[(1, 0x131, 2, 0, 1)]),
        expected(3, 0x32, &[(1, 0x132, 3, 1, 1)]),
        expected(4, 0x40, &[(1, 0x140, 3, 8, 8)]),
        block(0x0103, &alarm),
    ]
    .concat()
}

fn connect_res_blocks() -> Vec<u8> {
    let mut ar = Vec::new();
    put16(&mut ar, 1);
    ar.extend_from_slice(&uuid_bytes(AR_UUID, false));
    put16(&mut ar, 2);
    ar.extend_from_slice(&MAC.0);
    put16(&mut ar, 0x8892);
    [
        block(0x8101, &ar),
        block(0x8102, &[0, 1, 0, 1, 0x80, 0x00]),
        block(0x8102, &[0, 2, 0, 2, 0x80, 0x01]),
        block(0x8103, &[0, 1, 0, 0, 0, 200]),
        block(0x8106, b"\x00\x0brt-labs-dev\x00"),
    ]
    .concat()
}

/// A record header and its data: `(api, slot, subslot)` and index.
fn record(block_type: u16, seq: u16, at: (u32, u16, u16), index: u16, data: &[u8]) -> Vec<u8> {
    let mut b = Vec::new();
    put16(&mut b, seq);
    b.extend_from_slice(&uuid_bytes(AR_UUID, false));
    put32(&mut b, at.0);
    put16(&mut b, at.1);
    put16(&mut b, at.2);
    put16(&mut b, 0);
    put16(&mut b, index);
    put32(&mut b, data.len() as u32);
    b.resize(58, 0);
    let mut r = block(block_type, &b);
    r.extend_from_slice(data);
    r
}

fn write_blocks() -> Vec<u8> {
    let nested = [
        record(
            8,
            1,
            (0, 0, 0x8000),
            0x8071,
            &[0x02, 0x50, 0x00, 0x08, 0x01, 0x00, 0x00, 0x00, 0x00, 0x00, 0x00, 0x01],
        ),
        record(8, 2, (0, 3, 1), 0x7b, &[0, 0, 0, 1]),
        record(8, 3, (0, 3, 1), 0x7c, &[0, 0, 0, 2]),
        record(8, 4, (0, 4, 1), 0x7d, &[0, 0, 0, 2]),
    ]
    .concat();
    record(8, 0, (0xffff_ffff, 0xffff, 0xffff), 0xe040, &nested)
}

fn write_res_blocks() -> Vec<u8> {
    [
        record(0x8008, 0, (0xffff_ffff, 0xffff, 0xffff), 0xe040, &[]),
        record(0x8008, 1, (0, 0, 0x8000), 0x8071, &[]),
        record(0x8008, 2, (0, 3, 1), 0x7b, &[]),
        record(0x8008, 3, (0, 3, 1), 0x7c, &[]),
        record(0x8008, 4, (0, 4, 1), 0x7d, &[]),
    ]
    .concat()
}

fn control(block_type: u16, command: u16) -> Vec<u8> {
    let mut b = vec![0, 0];
    b.extend_from_slice(&uuid_bytes(AR_UUID, false));
    for v in [2, 0, command, 0] {
        put16(&mut b, v);
    }
    block(block_type, &b)
}

fn read_blocks(slot: u16, subslot: u16) -> Vec<u8> {
    let mut b = vec![0, 7];
    b.extend_from_slice(&uuid_bytes(READ_AR_UUID, false));
    put32(&mut b, 0);
    for v in [slot, subslot, 0, 0xaff0] {
        put16(&mut b, v);
    }
    put32(&mut b, 0x8000);
    b.resize(58, 0);
    block(0x0009, &b)
}

/// The identity of the reference device and the I&M0 record it answers.
fn pnet_im0() -> Im0 {
    Im0 {
        order_id: "12345 Abcdefghijk".into(),
        serial_number: "007".into(),
        hardware_revision: 3,
        software_revision: SwRevision {
            prefix: 'V',
            functional: 0,
            bug_fix: 2,
            internal: 0,
        },
        revision_counter: 0,
        profile_id: 0x1234,
        profile_specific_type: 0x5678,
    }
}

fn pnet_im0_record() -> Vec<u8> {
    let mut b = vec![0x04, 0x93];
    b.extend_from_slice(b"12345 Abcdefghijk   ");
    b.extend_from_slice(b"007             ");
    b.extend_from_slice(&[0, 3, b'V', 0, 2, 0, 0, 0, 0x12, 0x34, 0x56, 0x78, 1, 1, 0, 0x0e]);
    block(0x0020, &b)
}

fn read_res_blocks(slot: u16, subslot: u16) -> Vec<u8> {
    let data = pnet_im0_record();
    let mut b = vec![0, 7];
    b.extend_from_slice(&uuid_bytes(READ_AR_UUID, false));
    put32(&mut b, 0);
    for v in [slot, subslot, 0, 0xaff0] {
        put16(&mut b, v);
    }
    put32(&mut b, data.len() as u32);
    b.resize(58, 0);
    [block(0x8009, &b), data].concat()
}

/// A DCE-RPC PDU: header, the NDR words, and blocks.
struct Pdu<'a> {
    response: bool,
    little: bool,
    flags: u8,
    object: &'a str,
    interface: &'a str,
    activity: &'a str,
    seq: u32,
    opnum: u16,
    first_word: u32,
    max_count: u32,
    blocks: Vec<u8>,
}

fn pdu_bytes(p: &Pdu) -> Vec<u8> {
    let w16 = |v: u16| if p.little { v.to_le_bytes() } else { v.to_be_bytes() };
    let w32 = |v: u32| if p.little { v.to_le_bytes() } else { v.to_be_bytes() };
    let mut b = vec![4, if p.response { 2 } else { 0 }, p.flags, 0];
    b.extend_from_slice(&[if p.little { 0x10 } else { 0 }, 0, 0, 0]);
    for u in [p.object, p.interface, p.activity] {
        b.extend_from_slice(&uuid_bytes(u, p.little));
    }
    for v in [0, 1, p.seq] {
        b.extend_from_slice(&w32(v));
    }
    for v in [p.opnum, 0xffff, 0xffff, 20 + p.blocks.len() as u16, 0] {
        b.extend_from_slice(&w16(v));
    }
    b.extend_from_slice(&[0, 0]);
    let n = p.blocks.len() as u32;
    for v in [p.first_word, n, p.max_count, 0, n] {
        b.extend_from_slice(&w32(v));
    }
    b.extend_from_slice(&p.blocks);
    b
}

/// A request of the controller, little-endian.
fn request(seq: u32, opnum: u16, blocks: Vec<u8>) -> Vec<u8> {
    let n = blocks.len() as u32;
    pdu_bytes(&Pdu {
        response: false,
        little: true,
        flags: 0x20,
        object: OBJECT,
        interface: DEVICE_IF,
        activity: CPU_ACTIVITY,
        seq,
        opnum,
        first_word: n,
        max_count: n,
        blocks,
    })
}

/// The device's answer to such a request, big-endian.
fn response(seq: u32, opnum: u16, request_len: u32, blocks: Vec<u8>) -> Vec<u8> {
    pdu_bytes(&Pdu {
        response: true,
        little: false,
        flags: 0x28,
        object: OBJECT,
        interface: DEVICE_IF,
        activity: CPU_ACTIVITY,
        seq,
        opnum,
        first_word: 0,
        max_count: request_len,
        blocks,
    })
}

fn pdu(name: &str) -> Vec<u8> {
    match name {
        "connect_req" => request(0, 0, connect_blocks()),
        "connect_res" => response(0, 0, 557, connect_res_blocks()),
        "write_req" => request(1, 3, write_blocks()),
        "write_res" => response(1, 3, 344, write_res_blocks()),
        "prmend_req" => request(2, 4, control(0x0110, 1)),
        "prmend_res" => response(2, 4, 32, control(0x8110, 8)),
        "appready_req" => pdu_bytes(&Pdu {
            response: false,
            little: false,
            flags: 0x20,
            object: CPU_OBJECT,
            interface: CONTROLLER_IF,
            activity: SEED,
            seq: 0,
            opnum: 4,
            first_word: 1340,
            max_count: 1340,
            blocks: control(0x0112, 2),
        }),
        "appready_res" => pdu_bytes(&Pdu {
            response: true,
            little: true,
            flags: 0x0a,
            object: CPU_OBJECT,
            interface: CONTROLLER_IF,
            activity: SEED,
            seq: 0,
            opnum: 4,
            first_word: 0,
            max_count: 1340,
            blocks: control(0x8112, 8),
        }),
        "im0_read_req" => request(0x40, 2, read_blocks(0, 1)),
        "im0_read_res" => response(0x40, 2, 64, read_res_blocks(0, 1)),
        "im0_read_req_if" => request(0x41, 2, read_blocks(0, 0x8000)),
        "im0_read_res_if" => response(0x41, 2, 64, read_res_blocks(0, 0x8000)),
        _ => panic!("no pdu {name}"),
    }
}


const MS: u64 = 1_000_000;
const APP_READY_TIMEOUT: u64 = 1_000 * MS;

fn cpu() -> Endpoint {
    Endpoint::V4 { ip: 0xac10_0264, port: 54766 }
}
fn cpu_cm() -> Endpoint {
    Endpoint::V4 { ip: 0xac10_0264, port: 34964 }
}

/// A lifecycle machine of the AR, as far as these exchanges need one.
struct Machine {
    state: ArState,
    ar: Option<ArParams>,
    model: DeviceModel,
    deadline: Option<u64>,
}

impl Machine {
    fn control(c: &ControlBlock) -> Vec<u8> {
        let mut b = Vec::new();
        c.write(&mut b);
        b
    }

    fn app_ready(&self) -> Action {
        let ar = self.ar.as_ref().unwrap();
        Action::CallController {
            blocks: Self::control(&app_ready_req(ar.ar_uuid, ar.session_key)),
        }
    }

    fn end(&mut self, reason: AbortReason) -> Vec<Action> {
        if self.state == ArState::Idle {
            return vec![];
        }
        self.state = ArState::Idle;
        self.ar = None;
        self.deadline = None;
        vec![Action::Notify {
            state: ArState::Idle,
            reason: Some(reason),
        }]
    }

    fn on(&mut self, event: Event, now: u64) -> Vec<Action> {
        match event {
            Event::ConnectReq(req) => match validate(&req, &self.model) {
                Err(status) => vec![Action::Respond {
                    status,
                    blocks: vec![],
                }],
                Ok(p) => {
                    let mut out = vec![];
                    if let Some(ar) = &self.ar {
                        if ar.ar_uuid != p.ar_uuid {
                            return vec![Action::Respond {
                                status: PnioStatus::connect_ar_already_exists(),
                                blocks: vec![],
                            }];
                        }
                        out = self.end(AbortReason::ControllerReconnect);
                    }
                    out.push(Action::Respond {
                        status: PnioStatus::ok(),
                        blocks: build_connect_res(&p, &self.model),
                    });
                    self.ar = Some(p);
                    self.state = ArState::Connected;
                    out.push(Action::Notify {
                        state: ArState::Connected,
                        reason: None,
                    });
                    out
                }
            },
            Event::WriteReq(w) => vec![Action::Respond {
                status: PnioStatus::ok(),
                blocks: build_write_res(&w),
            }],
            Event::PrmEndReq(c) => {
                self.state = ArState::AppReadySent;
                self.deadline = Some(now + APP_READY_TIMEOUT);
                vec![
                    Action::Respond {
                        status: PnioStatus::ok(),
                        blocks: Self::control(&prm_end_done(&c)),
                    },
                    self.app_ready(),
                ]
            }
            Event::ReleaseReq(c) => {
                let mut out = vec![Action::Respond {
                    status: PnioStatus::ok(),
                    blocks: Self::control(&release_done(&c)),
                }];
                out.extend(self.end(AbortReason::ControllerRelease));
                out
            }
            Event::AppReadyRsp { status } => {
                if self.state != ArState::AppReadySent || !status.is_ok() {
                    return vec![];
                }
                self.state = ArState::Data;
                self.deadline = None;
                vec![Action::Notify {
                    state: ArState::Data,
                    reason: None,
                }]
            }
            Event::Tick => match self.deadline {
                Some(d) if now >= d => {
                    self.deadline = Some(now + APP_READY_TIMEOUT);
                    vec![self.app_ready()]
                }
                _ => vec![],
            },
            Event::Abort(reason) => self.end(reason),
        }
    }
}

/// The context manager and the machine it asks.
struct Manager {
    cm: Cm,
    machine: Machine,
}

impl Manager {
    fn new(model: DeviceModel, seed: Uuid) -> Manager {
        Manager {
            cm: Cm::new(model.clone(), seed),
            machine: Machine {
                state: ArState::Idle,
                ar: None,
                model,
                deadline: None,
            },
        }
    }

    fn state(&self) -> ArState {
        self.machine.state
    }

    fn set_im(&mut self, im0: Im0, store: ImStore) {
        self.cm.set_im(im0, store);
    }

    fn handle_datagram(
        &mut self,
        buf: &[u8],
        from: Endpoint,
        now: u64,
    ) -> Result<CmOutput, RpcError> {
        match self.cm.handle_datagram(buf, from, self.machine.ar.as_ref())? {
            Handled::Done(out) => Ok(out),
            Handled::Ask { event, pending } => {
                let actions = self.machine.on(event, now);
                let ar = self.machine.ar.as_ref();
                assert!(self.cm.can_resume(&pending, &actions, ar));
                Ok(self.cm.resume(&pending, &actions, ar))
            }
        }
    }

    fn tick(&mut self, now: u64) -> CmOutput {
        let actions = self.machine.on(Event::Tick, now);
        let ar = self.machine.ar.as_ref();
        assert!(self.cm.can_retry(&actions, ar));
        self.cm.tick(&actions, ar)
    }

    fn abort(&mut self, reason: AbortReason, now: u64) -> CmOutput {
        let actions = self.machine.on(Event::Abort(reason), now);
        let ar = self.machine.ar.as_ref();
        assert!(self.cm.can_retry(&actions, ar));
        self.cm.abort(&actions, ar)
    }
}

/// `bytes` with every occurrence of `old` replaced by `new` (PNIO blocks are big-endian).
fn retag_ar_uuid(mut bytes: Vec<u8>, old: Uuid, new: Uuid) -> Vec<u8> {
    let mut old_b = Vec::new();
    old.write(&mut old_b, Drep::big());
    let mut new_b = Vec::new();
    new.write(&mut new_b, Drep::big());
    let mut i = 0;
    while i + 16 <= bytes.len() {
        if bytes[i..i + 16] == old_b[..] {
            bytes[i..i + 16].copy_from_slice(&new_b);
        }
        i += 1;
    }
    bytes
}

fn alarm_frame(dst: MacAddr, src: MacAddr, high: bool, kind: u8, flags: u8, seqs: (u16, u16), var: &[u8]) -> Vec<u8> {
    let mut f = Vec::new();
    f.extend_from_slice(&dst.0);
    f.extend_from_slice(&src.0);
    f.extend_from_slice(&[0x81, 0x00, if high { 0xc0 } else { 0xa0 }, 0x00, 0x88, 0x92]);
    f.extend_from_slice(&[if high { 0xfc } else { 0xfe }, 0x01]);
    f.extend_from_slice(&[0, 0, 0, 0, kind, flags]);
    f.extend_from_slice(&seqs.0.to_be_bytes());
    f.extend_from_slice(&seqs.1.to_be_bytes());
    f.extend_from_slice(&(var.len() as u16).to_be_bytes());
    f.extend_from_slice(var);
    f
}

fn notification(high: bool, alarm_type: u16, specifier: u16, usi: u16, data: &[u8]) -> Vec<u8> {
    let mut b = vec![0x00, if high { 0x01 } else { 0x02 }];
    b.extend_from_slice(&(24 + data.len() as u16).to_be_bytes());
    b.extend_from_slice(&[1, 0]);
    b.extend_from_slice(&alarm_type.to_be_bytes());
    b.extend_from_slice(&[0, 0, 0, 0, 0, 1, 0, 1, 0, 0, 0, 0x30, 0, 0, 0x01, 0x30]);
    b.extend_from_slice(&specifier.to_be_bytes());
    b.extend_from_slice(&usi.to_be_bytes());
    b.extend_from_slice(data);
    b
}

fn golden_alarm(name: &str) -> Vec<u8> {
    let ack = |high: bool, alarm_type: u8| {
        vec![
            0x80, if high { 0x01 } else { 0x02 }, 0, 18, 1, 0, 0, alarm_type, 0, 0, 0, 0, 0, 1, 0, 1, 0, 0,
            0, 0, 0, 0,
        ]
    };
    let mut f = match name {
        "alarm_process_notif" => alarm_frame(
            CPU_MAC,
            MAC,
            true,
            0x11,
            0x11,
            (0xffff, 0xfffe),
            &notification(true, 2, 0, 0x0010, &[1]),
        ),
        "alarm_ack_rta_high_cpu" => alarm_frame(MAC, CPU_MAC, true, 0x13, 0x01, (0xfffe, 0xffff), &[]),
        "alarm_ack_high_cpu" => alarm_frame(MAC, CPU_MAC, true, 0x11, 0x11, (0xffff, 0xffff), &ack(true, 2)),
        "alarm_ack_rta_high_dev" => alarm_frame(CPU_MAC, MAC, true, 0x13, 0x01, (0xffff, 0xffff), &[]),
        "alarm_diag_ack_cpu" => alarm_frame(MAC, CPU_MAC, false, 0x11, 0x11, (0xffff, 0xffff), &ack(false, 1)),
        "alarm_ack_rta_low_cpu" => alarm_frame(MAC, CPU_MAC, false, 0x13, 0x01, (0xfffe, 0xffff), &[]),
        "alarm_ack_rta_low_dev" => alarm_frame(CPU_MAC, MAC, false, 0x13, 0x01, (0xffff, 0xffff), &[]),
        "alarm_err_rta_cpu_removed" => {
            alarm_frame(MAC, CPU_MAC, false, 0x14, 0x01, (0xfffe, 0xfffe), &[0xcf, 0x81, 0xfd, 0x11])
        }
        _ => panic!("no frame {name}"),
    };
    // what comes from the wire is padded
    if f[..6] == MAC.0 && f.len() < 60 {
        f.resize(60, 0);
    }
    f
}


fn set_req() -> Vec<u8> {
    let mut f = Vec::new();
    f.extend_from_slice(&MAC.0);
    f.extend_from_slice(&CPU_MAC.0);
    f.extend_from_slice(&[0x81, 0x00, 0x00, 0x00, 0x88, 0x92, 0xfe, 0xfd]);
    f.extend_from_slice(&[0x04, 0x00, 0x03, 0x00, 0x01, 0x2d, 0x00, 0x00, 0x00, 0x12]);
    f.extend_from_slice(&[0x01, 0x02, 0x00, 0x0e, 0x00, 0x00]);
    f.extend_from_slice(&[172, 16, 2, 10, 255, 255, 255, 0, 172, 16, 2, 10]);
    f.resize(64, 0);
    f
}

fn set_res() -> Vec<u8> {
    let mut f = Vec::new();
    f.extend_from_slice(&CPU_MAC.0);
    f.extend_from_slice(&MAC.0);
    f.extend_from_slice(&[0x88, 0x92, 0xfe, 0xfd]);
    f.extend_from_slice(&[0x04, 0x01, 0x03, 0x00, 0x01, 0x2d, 0x00, 0x00, 0x00, 0x08]);
    f.extend_from_slice(&[0x05, 0x04, 0x00, 0x03, 0x01, 0x02, 0x00, 0x00]);
    f
}

fn setup() -> DeviceSetup {
    DeviceSetup {
        dcp: DcpConfig {
            mac: MAC,
            properties: DeviceProperties {
                name_of_station: "rt-labs-dev".into(),
                type_of_station: "P-Net Sample Application".into(),
                vendor_id: 0x0493,
                device_id: 0x0002,
                device_role: 0x0100,
                device_instance: 1,
                device_options: vec![1, 2, 2, 2, 2, 3],
                ip: [172, 16, 2, 10],
                subnet: [255, 255, 255, 0],
                gateway: [172, 16, 2, 10],
                ip_block_info: 1,
            },
        },
        model: DeviceModel::pnet_sample(MAC),
        activity_seed: Uuid::parse_str(SEED).unwrap(),
        rt: None,
        im0: pnet_im0(),
        im_store: None,
    }
}

/// A device on in-memory transports, with the acyclic loop around it.
struct Bench {
    setup: DeviceSetup,
    dev: Device,
    mgr: Manager,
    eth: MockTransport,
    rpc: MockRpcTransport,
    image: IoImage,
    queue: Vec<DiagCommand>,
    rt_events: Vec<RtEvent>,
    seen: Vec<(ArState, Option<AbortReason>)>,
    identified: Vec<IdentifyRequest>,
    running: bool,
}

impl Bench {
    fn new(setup: DeviceSetup) -> Bench {
        let mut mgr = Manager::new(setup.model.clone(), setup.activity_seed);
        mgr.set_im(setup.im0.clone(), ImStore::load(None));
        Bench {
            dev: Device::new(setup.dcp.clone(), &setup.model),
            mgr,
            eth: MockTransport::new(),
            rpc: MockRpcTransport::new(),
            image: IoImage::empty(),
            queue: vec![],
            rt_events: vec![],
            seen: vec![],
            identified: vec![],
            running: false,
            setup,
        }
    }

    fn state(&self) -> ArState {
        self.mgr.state()
    }

    fn perform(&mut self, effects: Vec<Effect>, now: u64, report: &mut StepReport) {
        for e in effects {
            match e {
                Effect::SendEth(f) => self.eth.send(&f).unwrap(),
                Effect::AnswerIdentify(request) => self.identified.push(request),
                Effect::Abort(reason) => {
                    let out = self.mgr.abort(reason, now);
                    self.dispatch(out, now, report);
                }
                Effect::StartRunner => {
                    let ar = self.mgr.machine.ar.as_ref();
                    let cfg = prepare_runner(
                        &self.setup.rt,
                        ar,
                        &self.setup.model,
                        MAC,
                        &mut self.image,
                    );
                    self.running = matches!(cfg, Ok(Some(_)));
                }
                Effect::StopRunner => {
                    if self.running {
                        retire_image(&mut self.image);
                    }
                    self.running = false;
                }
            }
        }
    }

    fn dispatch(&mut self, out: CmOutput, now: u64, report: &mut StepReport) {
        for o in out.send {
            self.rpc.send(&o.bytes, o.to).unwrap();
            report.sent += 1;
        }
        for (state, reason) in out.notify {
            self.seen.push((state, reason));
            let ar = self.mgr.machine.ar.clone();
            let effects = self.dev.on_notify(state, reason, ar.as_ref(), now);
            self.perform(effects, now, report);
        }
    }

    fn step(&mut self, now: u64) -> StepReport {
        let mut report = StepReport::default();
        let mut turn = Turn::new();
        let mut action = TurnAction::ReceiveFrame;
        loop {
            let event = match action {
                TurnAction::ReceiveFrame => match self.eth.recv(Some(0)).unwrap() {
                    Some(frame) => {
                        report.eth_frames += 1;
                        TurnEvent::Frame(frame)
                    }
                    None => TurnEvent::NoFrame,
                },
                TurnAction::TakeCommands => TurnEvent::Commands(std::mem::take(&mut self.queue)),
                TurnAction::ReceiveDatagram => match self.rpc.recv(Some(0)).unwrap() {
                    Some((buf, from)) => {
                        report.rpc_datagrams += 1;
                        if let Ok(out) = self.mgr.handle_datagram(&buf, from, now) {
                            self.dispatch(out, now, &mut report);
                        }
                        TurnEvent::Handled
                    }
                    None => TurnEvent::NoDatagram,
                },
                TurnAction::TakeRtEvent => {
                    if self.rt_events.is_empty() {
                        TurnEvent::NoRtEvent
                    } else {
                        TurnEvent::Rt(self.rt_events.remove(0))
                    }
                }
                TurnAction::Tick => {
                    let out = self.mgr.tick(now);
                    self.dispatch(out, now, &mut report);
                    TurnEvent::Ticked
                }
                TurnAction::Perform(effects) => {
                    self.perform(effects, now, &mut report);
                    TurnEvent::Performed
                }
                TurnAction::Finish => return report,
            };
            assert!(turn.expects(&event) && self.dev.has_room());
            action = turn.next(event, &mut self.dev, now);
        }
    }

    fn shutdown(&mut self, now: u64) {
        let effects = self.dev.shutdown(self.mgr.state());
        self.perform(effects, now, &mut StepReport::default());
    }
}

/// Queues the four PDUs that drive the AR to `Data`. `seq_base` renumbers their `seq_num` so
/// a second bring-up is not answered from the response cache; a new session key on the same
/// AR makes a Connect that arrives in `Data` a reconnect.
fn feed_bring_up(dev: &mut Bench, seq_base: Option<u32>, session_key: Option<u16>) {
    for (i, name) in ["connect_req", "write_req", "prmend_req"].iter().enumerate() {
        let mut p = pdu(name);
        if let Some(base) = seq_base {
            p[64..68].copy_from_slice(&(base + i as u32).to_le_bytes());
        }
        if let (Some(key), 0) = (session_key, i) {
            p[124..126].copy_from_slice(&key.to_be_bytes());
        }
        dev.rpc.push_rx(p, cpu());
    }
    dev.rpc.push_rx(pdu("appready_res"), cpu_cm());
}

/// A device whose AR is up (`Data`).
fn device_in_data() -> Bench {
    let mut dev = Bench::new(setup());
    feed_bring_up(&mut dev, None, None);
    dev.step(T0);
    assert_eq!(dev.state(), ArState::Data);
    dev
}

/// Re-establishes the AR from `Idle` with a fresh set of RPC sequence numbers.
fn reconnect(dev: &mut Bench) {
    feed_bring_up(dev, Some(0x100), None);
    dev.step(T0);
}

fn line_break() -> Diagnosis {
    Diagnosis {
        slot: Slot(1),
        channel: 0,
        error: ChannelError::LineBreak,
        severity: Severity::Fault,
        direction: Direction::Input,
    }
}

const T0: u64 = 5_000 * MS;

#[test]
fn diagnosis_raised_through_the_queue_hits_the_wire_and_the_problem_bit() {
    let mut dev = device_in_data();
    dev.queue.push(DiagCommand::Raise(line_break()));
    dev.step(T0);
    let sent = dev.eth.sent();
    let last = sent.last().expect("a notification was sent");
    let pdu = parse_frame(last).unwrap();
    let RtaBody::Data(RtaData::Notification(n)) = pdu.body else {
        panic!("expected an AlarmNotification, got {:?}", pdu.body)
    };
    assert_eq!(n.alarm_type, AlarmType::Diagnosis);
    assert_eq!(n.slot, 1);
    assert_eq!(n.specifier.sequence, 0);
    assert_eq!(pdu.header.send_seq, 0xFFFF);
    assert!(dev.dev.problem_indicator());
    assert!(dev.dev.alarm_in_flight());
    assert_eq!(
        dev.dev.poll_interval(200 * MS, false),
        20 * MS
    );
    assert_eq!(dev.dev.diag_shared().active.len(), 1);
    assert_eq!(dev.dev.diag_shared().stats.sent, 1);
}

#[test]
fn controller_err_rta_aborts_and_drops_the_channel() {
    let mut dev = device_in_data();
    dev.eth.push_rx(golden_alarm("alarm_err_rta_cpu_removed"));
    dev.step(T0);
    assert_eq!(dev.state(), ArState::Idle);
    assert!(!dev.dev.alarm_in_flight());
    assert!(
        dev.eth.sent().iter().all(|f| !is_alarm_frame(f)),
        "no ERR-RTA answer to a controller abort"
    );
    assert_eq!(dev.dev.diag_shared().stats.rx_err_rta, 1);
}

#[test]
fn shutdown_sends_err_rta_ar_removed() {
    let mut dev = device_in_data();
    dev.shutdown(T0);
    let last = dev.eth.sent().last().unwrap().clone();
    let pdu = parse_frame(&last).unwrap();
    assert_eq!(
        pdu.body,
        RtaBody::Error(PnioStatus::rta_abort(PnioStatus::RTA_ABORT_AR_REMOVED))
    );
    assert_eq!(dev.state(), ArState::Idle);
    // Idempotent: a second shutdown from `Idle` sends nothing more.
    let before = dev.eth.sent().len();
    dev.shutdown(T0);
    assert_eq!(dev.eth.sent().len(), before);
}

#[test]
fn active_diagnosis_is_replayed_on_the_next_data() {
    let mut dev = device_in_data();
    dev.queue.push(DiagCommand::Raise(line_break()));
    dev.step(T0);
    dev.eth.push_rx(golden_alarm("alarm_err_rta_cpu_removed"));
    dev.step(T0);
    assert_eq!(dev.state(), ArState::Idle);
    let before = dev.eth.sent().len();
    reconnect(&mut dev);
    assert_eq!(dev.state(), ArState::Data);
    let replayed: Vec<Vec<u8>> = dev.eth.sent()[before..]
        .iter()
        .filter(|f| is_alarm_frame(f))
        .cloned()
        .collect();
    assert_eq!(replayed.len(), 1);
    let RtaBody::Data(RtaData::Notification(n)) = parse_frame(&replayed[0]).unwrap().body
    else {
        panic!("expected a replayed AlarmNotification")
    };
    assert_eq!(n.alarm_type, AlarmType::Diagnosis);
    assert_eq!(n.slot, 1);
    assert!(dev.dev.problem_indicator());
}

#[test]
fn stale_abort_does_not_tear_down_an_ar_rebuilt_in_the_same_step() {
    let mut dev = device_in_data();
    dev.eth.push_rx(golden_alarm("alarm_err_rta_cpu_removed"));
    feed_bring_up(&mut dev, Some(0x200), Some(3));
    dev.step(T0);

    assert_eq!(dev.state(), ArState::Data, "the reconnected AR survives");
    assert_eq!(dev.mgr.machine.ar.as_ref().unwrap().session_key, 3);
    assert!(!dev.dev.alarm_in_flight());
    // ... and the channel that came with it works: a raise still reaches the wire.
    let before = dev.eth.sent().len();
    dev.queue.push(DiagCommand::Raise(line_break()));
    dev.step(T0);
    let fresh: Vec<Vec<u8>> = dev.eth.sent()[before..]
        .iter()
        .filter(|f| is_alarm_frame(f))
        .cloned()
        .collect();
    assert_eq!(fresh.len(), 1);
    assert!(matches!(
        parse_frame(&fresh[0]).unwrap().body,
        RtaBody::Data(RtaData::Notification(_))
    ));
    assert!(dev.dev.alarm_in_flight());
}

#[test]
fn alarm_frames_addressed_to_another_station_are_ignored() {
    let mut dev = device_in_data();
    let mut foreign = golden_alarm("alarm_err_rta_cpu_removed");
    foreign[..6].copy_from_slice(&[0x8c, 0xf3, 0x19, 0xcd, 0x19, 0xff]);
    dev.eth.push_rx(foreign);
    dev.step(T0);
    assert_eq!(dev.state(), ArState::Data);
    assert_eq!(dev.dev.diag_shared().rx_no_channel, 0);
    assert_eq!(dev.dev.diag_shared().stats.rx_err_rta, 0);
    assert_eq!(dev.dev.diag_shared().stats.unexpected_rx, 0);
}

#[test]
fn alarm_frames_without_a_channel_are_counted_and_dropped() {
    let mut dev = Bench::new(setup());
    dev.eth.push_rx(golden_alarm("alarm_ack_high_cpu"));
    let r = dev.step(T0);
    assert_eq!(r.eth_frames, 1);
    assert_eq!(dev.eth.sent(), Vec::<Vec<u8>>::new());
    assert_eq!(dev.dev.diag_shared().rx_no_channel, 1);
}

#[test]
fn full_bring_up_through_the_loop() {
    let mut dev = Bench::new(setup());
    dev.eth.push_rx(set_req());
    dev.rpc.push_rx(pdu("connect_req"), cpu());
    dev.rpc.push_rx(pdu("write_req"), cpu());
    dev.rpc.push_rx(pdu("prmend_req"), cpu());
    dev.rpc.push_rx(pdu("appready_res"), cpu_cm());
    let r = dev.step(T0);
    assert_eq!((r.eth_frames, r.rpc_datagrams), (1, 4));
    assert_eq!(dev.state(), ArState::Data);
    assert_eq!(dev.eth.sent(), vec![set_res()]);
    let sent = dev.rpc.sent();
    assert_eq!(sent.len(), 4);
    assert_eq!(sent[0].0, pdu("connect_res"));
    assert_eq!(sent[3].0, pdu("appready_req"));
    assert_eq!(sent[3].1, cpu_cm());
    assert_eq!(
        dev.seen,
        vec![(ArState::Connected, None), (ArState::Data, None)]
    );
}

#[test]
fn garbage_is_dropped_and_loop_continues() {
    let mut dev = Bench::new(setup());
    dev.rpc.push_rx(vec![1, 2, 3], cpu());
    dev.rpc.push_rx(pdu("connect_req"), cpu());
    dev.step(T0);
    assert_eq!(dev.state(), ArState::Connected);
}

fn with_runner() -> Bench {
    let mut s = setup();
    s.rt = Some(RtOptions {
        iface: "mock".into(),
        cpu_pin: None,
        rt_priority: None,
        lock_memory: false,
    });
    let mut dev = Bench::new(s);
    dev.rpc.push_rx(pdu("connect_req"), cpu());
    dev.rpc.push_rx(pdu("prmend_req"), cpu());
    dev.rpc.push_rx(pdu("appready_res"), cpu_cm());
    dev.step(T0);
    assert_eq!(dev.state(), ArState::Data);
    assert!(dev.running);
    dev
}

#[test]
fn data_starts_the_runner_and_idle_stops_it() {
    let mut dev = with_runner();
    assert_eq!(dev.image.cells().len(), 7);
    // controller Release -> Idle -> runner stopped
    let mut rel = pdu("prmend_req");
    rel[68] = 1; // opnum Release (LE low byte)
    rel[64] = 9; // new seq_num
    rel[100] = 0x01;
    rel[101] = 0x14; // block type ReleaseBlockReq
                     // command field: RPC header (80) + NDR (20) = block at 100; block header (6) +
                     // reserved (2) + ar_uuid (16) + session_key (2) + reserved (2) = command at 128.
    rel[128] = 0x00;
    rel[129] = 0x04; // command Release
    dev.rpc.push_rx(rel, cpu());
    dev.step(T0);
    assert_eq!(dev.state(), ArState::Idle);
    assert!(!dev.running);
    // A clean release must not leave the image `Fresh` over frozen outputs.
    assert_eq!(dev.image.validity().freshness(), Freshness::Stale);
    // ... nor keep the stopped AR's cell index around.
    assert!(dev.image.cells().is_empty());
}

#[test]
fn watchdog_event_aborts_the_ar() {
    let mut dev = with_runner();
    dev.rt_events.push(RtEvent::SchedWarning("priority".into()));
    dev.rt_events.push(RtEvent::WatchdogExpired);
    dev.rt_events.push(RtEvent::Exited);
    dev.step(T0);
    assert_eq!(dev.state(), ArState::Idle);
    assert_eq!(
        dev.seen.last(),
        Some(&(ArState::Idle, Some(AbortReason::RtWatchdog)))
    );
    assert!(!dev.running);
    // ... announced on the alarm channel as "DHT watchdog expired" first.
    let last = dev.eth.sent().last().expect("an ERR-RTA was sent").clone();
    assert_eq!(
        parse_frame(&last).unwrap().body,
        RtaBody::Error(PnioStatus::rta_abort(PnioStatus::RTA_ABORT_DHT_WDT_EXPIRED))
    );
}

#[test]
fn socket_error_event_aborts_the_ar_with_rt_socket() {
    let mut dev = with_runner();
    dev.rt_events.push(RtEvent::SocketError("boom".into()));
    dev.step(T0);
    assert_eq!(dev.state(), ArState::Idle);
    assert_eq!(
        dev.seen.last(),
        Some(&(ArState::Idle, Some(AbortReason::RtSocket)))
    );
    assert!(!dev.running);
    // ... announced on the alarm channel as "AR removed" first.
    let last = dev.eth.sent().last().expect("an ERR-RTA was sent").clone();
    assert_eq!(
        parse_frame(&last).unwrap().body,
        RtaBody::Error(PnioStatus::rta_abort(PnioStatus::RTA_ABORT_AR_REMOVED))
    );
}

#[test]
fn only_a_controller_abort_is_not_announced() {
    assert_eq!(
        err_rta_code2(AbortReason::ControllerErrRta(PnioStatus::ok())),
        None
    );
    assert_eq!(
        err_rta_code2(AbortReason::AlarmSendFailed),
        Some(PnioStatus::RTA_ABORT_ALARM_SEND_FAILED)
    );
    assert_eq!(
        err_rta_code2(AbortReason::External("test")),
        Some(PnioStatus::RTA_ABORT_AR_REMOVED)
    );
}

#[test]
fn a_turn_waits_for_one_thing_at_a_time() {
    let mut dev = device_in_data();
    let mut turn = Turn::new();
    assert!(turn.expects(&TurnEvent::NoFrame));
    assert!(!turn.expects(&TurnEvent::Ticked));
    assert_eq!(
        turn.next(TurnEvent::NoFrame, &mut dev.dev, T0),
        TurnAction::TakeCommands
    );
    let cmds = vec![DiagCommand::Raise(line_break())];
    assert_eq!(
        turn.next(TurnEvent::Commands(cmds), &mut dev.dev, T0),
        TurnAction::ReceiveDatagram
    );
    assert_eq!((turn.stage, turn.pending.len()), (Stage::Rpc, 1));
    assert_eq!(
        turn.next(TurnEvent::Handled, &mut dev.dev, T0),
        TurnAction::ReceiveDatagram
    );
    assert_eq!(
        turn.next(TurnEvent::NoDatagram, &mut dev.dev, T0),
        TurnAction::TakeRtEvent
    );
    assert_eq!(
        turn.next(TurnEvent::NoRtEvent, &mut dev.dev, T0),
        TurnAction::Tick
    );
    let TurnAction::Perform(effects) = turn.next(TurnEvent::Ticked, &mut dev.dev, T0) else {
        panic!("the notification is sent last")
    };
    assert!(matches!(&effects[..], [Effect::SendEth(f)] if is_alarm_frame(f)));
    assert_eq!(
        turn.next(TurnEvent::Performed, &mut dev.dev, T0),
        TurnAction::Finish
    );
    assert_eq!(turn.stage, Stage::Done);
}

#[test]
fn an_unanswered_alarm_shortens_the_wait_and_is_repeated() {
    let mut dev = device_in_data();
    assert_eq!(dev.dev.effective_wait(T0, Some(200 * MS), None), Some(200 * MS));
    dev.queue.push(DiagCommand::Raise(line_break()));
    dev.step(T0);
    assert_eq!(dev.dev.effective_wait(T0, Some(200 * MS), None), Some(100 * MS));
    assert_eq!(
        dev.dev.effective_wait(T0, None, Some(T0 + 30 * MS)),
        Some(30 * MS)
    );
    dev.step(T0 + 99 * MS);
    assert_eq!(dev.dev.diag_shared().stats.retries, 0);
    dev.step(T0 + 100 * MS);
    assert_eq!(dev.dev.diag_shared().stats.retries, 1);
    let sent = dev.eth.sent();
    assert_eq!(sent[sent.len() - 1], sent[sent.len() - 2]);
    // every retry used up: the AR ends
    for i in 2..8 {
        dev.step(T0 + i * 100 * MS);
    }
    assert_eq!(dev.state(), ArState::Idle);
    assert_eq!(
        dev.seen.last(),
        Some(&(ArState::Idle, Some(AbortReason::AlarmSendFailed)))
    );
}

#[test]
fn reference_exchange_replays_byte_exact() {
    let mut dev = Bench::new(setup());
    dev.eth.push_rx(set_req());
    for name in ["connect_req", "write_req", "prmend_req"] {
        dev.rpc.push_rx(pdu(name), cpu());
    }
    dev.rpc.push_rx(pdu("appready_res"), cpu_cm());
    dev.step(T0);
    assert_eq!(dev.state(), ArState::Data);
    assert_eq!(dev.eth.sent(), vec![set_res()]);
    let sent: Vec<Vec<u8>> = dev.rpc.sent().into_iter().map(|(b, _)| b).collect();
    let expected: Vec<Vec<u8>> = ["connect_res", "write_res", "prmend_res", "appready_req"]
        .iter()
        .map(|n| pdu(n))
        .collect();
    assert_eq!(sent, expected);
}

#[test]
fn alarm_handshake_err_rta_and_im0_read_replay_byte_exact() {
    let mut dev = Bench::new(setup());
    let old = Uuid::parse_str(AR_UUID).unwrap();
    let new = Uuid::parse_str(READ_AR_UUID).unwrap();
    let bring_up = |dev: &mut Bench, seq_base: Option<u32>| {
        for (i, name) in ["connect_req", "write_req", "prmend_req"].iter().enumerate() {
            let mut p = retag_ar_uuid(pdu(name), old, new);
            if let Some(base) = seq_base {
                p[64..68].copy_from_slice(&(base + i as u32).to_le_bytes());
            }
            dev.rpc.push_rx(p, cpu());
        }
        dev.rpc.push_rx(pdu("appready_res"), cpu_cm());
    };
    bring_up(&mut dev, None);
    dev.step(T0);
    assert_eq!(dev.state(), ArState::Data);

    // I&M0 read on the DAP -> the exact response blocks.
    dev.rpc.push_rx(pdu("im0_read_req"), cpu());
    dev.step(T0);
    let last = dev.rpc.sent().last().unwrap().0.clone();
    assert_eq!(last[80 + 20..], pdu("im0_read_res")[80 + 20..]);

    // Diagnosis raise -> notification. Slot 1's idents (0x30/0x130) come from the model.
    dev.queue.push(DiagCommand::Raise(Diagnosis {
        slot: Slot(1),
        channel: 4,
        error: ChannelError::ShortCircuit,
        severity: Severity::Fault,
        direction: Direction::Input,
    }));
    dev.step(T0);
    let notif = dev.eth.sent().last().unwrap().clone();
    let p = parse_frame(&notif).unwrap();
    assert_eq!((p.header.send_seq, p.header.ack_seq), (0xFFFF, 0xFFFE));
    let RtaBody::Data(RtaData::Notification(n)) = p.body else {
        panic!("expected an AlarmNotification, got {:?}", p.body)
    };
    assert_eq!(
        (
            n.alarm_type,
            n.slot,
            n.subslot,
            n.module_ident,
            n.submodule_ident,
            n.usi
        ),
        (AlarmType::Diagnosis, 1, 1, 0x30, 0x130, 0x8000)
    );

    // CPU's ack-rta + alarm-ack -> our ack-rta, byte-exact.
    dev.eth.push_rx(golden_alarm("alarm_ack_rta_low_cpu"));
    dev.eth.push_rx(golden_alarm("alarm_diag_ack_cpu"));
    dev.step(T0);
    assert_eq!(
        dev.eth.sent().last().unwrap(),
        &golden_alarm("alarm_ack_rta_low_dev")
    );
    assert!(dev.dev.problem_indicator());
    assert_eq!(dev.dev.diag_shared().stats.acked, 1);

    // Clear -> DiagnosisDisappears, problem indicator clears.
    dev.queue.push(DiagCommand::Clear {
        slot: Slot(1),
        channel: 4,
        error: ChannelError::ShortCircuit,
    });
    dev.step(T0);
    let RtaBody::Data(RtaData::Notification(n)) =
        parse_frame(dev.eth.sent().last().unwrap()).unwrap().body
    else {
        panic!("expected a DiagnosisDisappears notification")
    };
    assert_eq!(n.alarm_type, AlarmType::DiagnosisDisappears);
    assert!(!dev.dev.problem_indicator());

    // Controller ERR-RTA -> Idle, no reply on the wire.
    let before = dev.eth.sent().len();
    dev.eth.push_rx(golden_alarm("alarm_err_rta_cpu_removed"));
    dev.step(T0);
    assert_eq!(dev.state(), ArState::Idle);
    assert_eq!(dev.eth.sent().len(), before);

    // Reconnect (fresh RPC seq_nums so the response cache does not answer) -> Data.
    bring_up(&mut dev, Some(0x100));
    dev.step(T0);
    assert_eq!(dev.state(), ArState::Data);

    // Stop from Data -> ERR-RTA AR removed.
    dev.shutdown(T0);
    let err = parse_frame(dev.eth.sent().last().unwrap()).unwrap();
    assert_eq!(
        err.body,
        RtaBody::Error(PnioStatus::rta_abort(PnioStatus::RTA_ABORT_AR_REMOVED))
    );
}

#[test]
fn an_identify_request_is_handed_on_to_be_answered() {
    let mut f = vec![0x01, 0x0e, 0xcf, 0x00, 0x00, 0x00];
    f.extend_from_slice(&CPU_MAC.0);
    f.extend_from_slice(&[0x88, 0x92, 0xfe, 0xfe]);
    f.extend_from_slice(&[0x05, 0x00, 0x03, 0x00, 0x01, 0x52, 0x00, 0x01, 0x00, 0x04]);
    f.extend_from_slice(&[0xff, 0xff, 0x00, 0x00]);
    let mut garbled = f.clone();
    garbled[16] = 9;
    let mut dev = Bench::new(setup());
    dev.eth.push_rx(garbled);
    dev.eth.push_rx(f);
    let report = dev.step(T0);
    assert_eq!(report.eth_frames, 2);
    assert!(dev.eth.sent().is_empty());
    assert_eq!(
        dev.identified,
        vec![IdentifyRequest {
            from: CPU_MAC,
            xid: 0x0300_0152,
            response_delay: 1,
            blocks: vec![0xff, 0xff, 0x00, 0x00],
        }]
    );
}
