//! The context manager: the reference exchange, retransmissions, refusals and I&M reads.
#![allow(dead_code)]

use pnio::cm::{
    app_ready_req, build_connect_res, build_write_res, prm_end_done, release_done, validate,
    AbortReason, Action, ArParams, ArState, Cm, CmOutput, ConnectBlock, ControlBlock, DeviceModel,
    Event, Handled, PnioStatus,
};
use pnio::eth::MacAddr;
use pnio::im::{Im0, ImStore, SwRevision};
use pnio::rpc::{Drep, Endpoint, NdrResponse, PacketType, RpcError, RpcHeader, Uuid};

/// The device and the controller of the reference exchange.
const MAC: MacAddr = MacAddr([0x8c, 0xf3, 0x19, 0xcd, 0x19, 0xf8]);
const CPU_MAC: MacAddr = MacAddr([0xec, 0x1c, 0x5d, 0x61, 0xe7, 0x3f]);
const AR_UUID: &str = "e5e1aecc-b133-4b4d-b187-cc68b0211ed2";
const READ_AR_UUID: &str = "ef796d60-ef2b-9946-b39e-8531f5b7f966";
const OBJECT: &str = "dea00000-6c97-11d1-8271-000100020493";
const CPU_OBJECT: &str = "dea00000-6c97-11d1-8271-1064010e002a";
const DEVICE_IF: &str = "dea00001-6c97-11d1-8271-00a02442df7d";
const CONTROLLER_IF: &str = "dea00002-6c97-11d1-8271-00a02442df7d";
const CPU_ACTIVITY: &str = "5c6e1f6a-0000-1010-a8c0-ec1c5d61e73f";
const SEED: &str = "14af198a-1234-1056-8079-8cf319cd19f8";

fn uuid_bytes(text: &str, little: bool) -> Vec<u8> {
    let hex: Vec<u8> = text.bytes().filter(|c| *c != b'-').collect();
    let mut b: Vec<u8> = hex
        .chunks(2)
        .map(|p| u8::from_str_radix(std::str::from_utf8(p).unwrap(), 16).unwrap())
        .collect();
    if little {
        b[..4].reverse();
        b[4..6].reverse();
        b[6..8].reverse();
    }
    b
}

fn put16(b: &mut Vec<u8>, v: u16) {
    b.extend_from_slice(&v.to_be_bytes());
}

fn put32(b: &mut Vec<u8>, v: u32) {
    b.extend_from_slice(&v.to_be_bytes());
}

fn block(block_type: u16, body: &[u8]) -> Vec<u8> {
    let mut b = Vec::new();
    put16(&mut b, block_type);
    put16(&mut b, body.len() as u16 + 2);
    b.extend_from_slice(&[1, 0]);
    b.extend_from_slice(body);
    b
}

fn iocr(kind: u16, frame_id: u16, data: &[(u16, u16, u16)], iocs: &[(u16, u16, u16)]) -> Vec<u8> {
    let mut b = Vec::new();
    for v in [kind, kind, 0x8892] {
        put16(&mut b, v);
    }
    put32(&mut b, 2);
    for v in [40, frame_id, 32, 32, 1, 0] {
        put16(&mut b, v);
    }
    put32(&mut b, 0xffff_ffff);
    for v in [3, 3, 0xc000, 0, 0, 0, 1] {
        put16(&mut b, v);
    }
    put32(&mut b, 0);
    for list in [data, iocs] {
        put16(&mut b, list.len() as u16);
        for o in list {
            put16(&mut b, o.0);
            put16(&mut b, o.1);
            put16(&mut b, o.2);
        }
    }
    block(0x0102, &b)
}

/// `(subslot, ident, properties, input length, output length)` of each submodule.
fn expected(slot: u16, module: u32, submodules: &[(u16, u32, u16, u16, u16)]) -> Vec<u8> {
    let mut b = Vec::new();
    put16(&mut b, 1);
    put32(&mut b, 0);
    put16(&mut b, slot);
    put32(&mut b, module);
    put16(&mut b, 0);
    put16(&mut b, submodules.len() as u16);
    for s in submodules {
        put16(&mut b, s.0);
        put32(&mut b, s.1);
        put16(&mut b, s.2);
        if s.2 != 2 {
            put16(&mut b, 1);
            put16(&mut b, s.3);
            b.extend_from_slice(&[1, 1]);
        }
        if s.2 >= 2 {
            put16(&mut b, 2);
            put16(&mut b, s.4);
            b.extend_from_slice(&[1, 1]);
        }
    }
    block(0x0104, &b)
}

fn connect_blocks() -> Vec<u8> {
    let name = b"plcxbbench.profinetxainterfacexb25fbd";
    let mut ar = Vec::new();
    put16(&mut ar, 1);
    ar.extend_from_slice(&uuid_bytes(AR_UUID, false));
    put16(&mut ar, 2);
    ar.extend_from_slice(&CPU_MAC.0);
    ar.extend_from_slice(&uuid_bytes(CPU_OBJECT, false));
    put32(&mut ar, 0x4000_0011);
    put16(&mut ar, 200);
    put16(&mut ar, 0x8892);
    put16(&mut ar, name.len() as u16);
    ar.extend_from_slice(name);
    let mut alarm = Vec::new();
    put16(&mut alarm, 1);
    put16(&mut alarm, 0x8892);
    put32(&mut alarm, 0);
    for v in [1, 3, 0, 256, 0xc000, 0xa000] {
        put16(&mut alarm, v);
    }
    [
        block(0x0101, &ar),
        iocr(
            1,
            0x8000,
            &[(0, 1, 0), (0, 0x8000, 1), (0, 0x8001, 2), (1, 1, 3), (3, 1, 6), (4, 1, 9)],
            &[(2, 1, 5), (3, 1, 8), (4, 1, 18)],
        ),
        iocr(
            2,
            0x8001,
            &[(2, 1, 4), (3, 1, 7), (4, 1, 10)],
            &[(0, 1, 0), (0, 0x8000, 1), (0, 0x8001, 2), (1, 1, 3), (3, 1, 6), (4, 1, 9)],
        ),
        expected(
            0,
            1,
            &[(1, 1, 0, 0, 0), (0x8000, 0x8000, 0, 0, 0), (0x8001, 0x8001, 0, 0, 0)],
        ),
        expected(1, 0x30, &[(1, 0x130, 1, 1, 0)]),
        expected(2, 0x31, &[(1, 0x131, 2, 0, 1)]),
        expected(3, 0x32, &[(1, 0x132, 3, 1, 1)]),
        expected(4, 0x40, &[(1, 0x140, 3, 8, 8)]),
        block(0x0103, &alarm),
    ]
    .concat()
}

fn connect_res_blocks() -> Vec<u8> {
    let mut ar = Vec::new();
    put16(&mut ar, 1);
    ar.extend_from_slice(&uuid_bytes(AR_UUID, false));
    put16(&mut ar, 2);
    ar.extend_from_slice(&MAC.0);
    put16(&mut ar, 0x8892);
    [
        block(0x8101, &ar),
        block(0x8102, &[0, 1, 0, 1, 0x80, 0x00]),
        block(0x8102, &[0, 2, 0, 2, 0x80, 0x01]),
        block(0x8103, &[0, 1, 0, 0, 0, 200]),
        block(0x8106, b"\x00\x0brt-labs-dev\x00"),
    ]
    .concat()
}

/// A record header and its data: `(api, slot, subslot)` and index.
fn record(block_type: u16, seq: u16, at: (u32, u16, u16), index: u16, data: &[u8]) -> Vec<u8> {
    let mut b = Vec::new();
    put16(&mut b, seq);
    b.extend_from_slice(&uuid_bytes(AR_UUID, false));
    put32(&mut b, at.0);
    put16(&mut b, at.1);
    put16(&mut b, at.2);
    put16(&mut b, 0);
    put16(&mut b, index);
    put32(&mut b, data.len() as u32);
    b.resize(58, 0);
    let mut r = block(block_type, &b);
    r.extend_from_slice(data);
    r
}

fn write_blocks() -> Vec<u8> {
    let nested = [
        record(
            8,
            1,
            (0, 0, 0x8000),
            0x8071,
            &[0x02, 0x50, 0x00, 0x08, 0x01, 0x00, 0x00, 0x00, 0x00, 0x00, 0x00, 0x01],
        ),
        record(8, 2, (0, 3, 1), 0x7b, &[0, 0, 0, 1]),
        record(8, 3, (0, 3, 1), 0x7c, &[0, 0, 0, 2]),
        record(8, 4, (0, 4, 1), 0x7d, &[0, 0, 0, 2]),
    ]
    .concat();
    record(8, 0, (0xffff_ffff, 0xffff, 0xffff), 0xe040, &nested)
}

fn write_res_blocks() -> Vec<u8> {
    [
        record(0x8008, 0, (0xffff_ffff, 0xffff, 0xffff), 0xe040, &[]),
        record(0x8008, 1, (0, 0, 0x8000), 0x8071, &[]),
        record(0x8008, 2, (0, 3, 1), 0x7b, &[]),
        record(0x8008, 3, (0, 3, 1), 0x7c, &[]),
        record(0x8008, 4, (0, 4, 1), 0x7d, &[]),
    ]
    .concat()
}

fn control(block_type: u16, command: u16) -> Vec<u8> {
    let mut b = vec![0, 0];
    b.extend_from_slice(&uuid_bytes(AR_UUID, false));
    for v in [2, 0, command, 0] {
        put16(&mut b, v);
    }
    block(block_type, &b)
}

fn read_blocks(slot: u16, subslot: u16) -> Vec<u8> {
    let mut b = vec![0, 7];
    b.extend_from_slice(&uuid_bytes(READ_AR_UUID, false));
    put32(&mut b, 0);
    for v in [slot, subslot, 0, 0xaff0] {
        put16(&mut b, v);
    }
    put32(&mut b, 0x8000);
    b.resize(58, 0);
    block(0x0009, &b)
}

/// The identity of the reference device and the I&M0 record it answers.
fn pnet_im0() -> Im0 {
    Im0 {
        order_id: "12345 Abcdefghijk".into(),
        serial_number: "007".into(),
        hardware_revision: 3,
        software_revision: SwRevision {
            prefix: 'V',
            functional: 0,
            bug_fix: 2,
            internal: 0,
        },
        revision_counter: 0,
        profile_id: 0x1234,
        profile_specific_type: 0x5678,
    }
}

fn pnet_im0_record() -> Vec<u8> {
    let mut b = vec![0x04, 0x93];
    b.extend_from_slice(b"12345 Abcdefghijk   ");
    b.extend_from_slice(b"007             ");
    b.extend_from_slice(&[0, 3, b'V', 0, 2, 0, 0, 0, 0x12, 0x34, 0x56, 0x78, 1, 1, 0, 0x0e]);
    block(0x0020, &b)
}

fn read_res_blocks(slot: u16, subslot: u16) -> Vec<u8> {
    let data = pnet_im0_record();
    let mut b = vec![0, 7];
    b.extend_from_slice(&uuid_bytes(READ_AR_UUID, false));
    put32(&mut b, 0);
    for v in [slot, subslot, 0, 0xaff0] {
        put16(&mut b, v);
    }
    put32(&mut b, data.len() as u32);
    b.resize(58, 0);
    [block(0x8009, &b), data].concat()
}

/// A DCE-RPC PDU: header, the NDR words, and blocks.
struct Pdu<'a> {
    response: bool,
    little: bool,
    flags: u8,
    object: &'a str,
    interface: &'a str,
    activity: &'a str,
    seq: u32,
    opnum: u16,
    first_word: u32,
    max_count: u32,
    blocks: Vec<u8>,
}

fn pdu_bytes(p: &Pdu) -> Vec<u8> {
    let w16 = |v: u16| if p.little { v.to_le_bytes() } else { v.to_be_bytes() };
    let w32 = |v: u32| if p.little { v.to_le_bytes() } else { v.to_be_bytes() };
    let mut b = vec![4, if p.response { 2 } else { 0 }, p.flags, 0];
    b.extend_from_slice(&[if p.little { 0x10 } else { 0 }, 0, 0, 0]);
    for u in [p.object, p.interface, p.activity] {
        b.extend_from_slice(&uuid_bytes(u, p.little));
    }
    for v in [0, 1, p.seq] {
        b.extend_from_slice(&w32(v));
    }
    for v in [p.opnum, 0xffff, 0xffff, 20 + p.blocks.len() as u16, 0] {
        b.extend_from_slice(&w16(v));
    }
    b.extend_from_slice(&[0, 0]);
    let n = p.blocks.len() as u32;
    for v in [p.first_word, n, p.max_count, 0, n] {
        b.extend_from_slice(&w32(v));
    }
    b.extend_from_slice(&p.blocks);
    b
}

/// A request of the controller, little-endian.
fn request(seq: u32, opnum: u16, blocks: Vec<u8>) -> Vec<u8> {
    let n = blocks.len() as u32;
    pdu_bytes(&Pdu {
        response: false,
        little: true,
        flags: 0x20,
        object: OBJECT,
        interface: DEVICE_IF,
        activity: CPU_ACTIVITY,
        seq,
        opnum,
        first_word: n,
        max_count: n,
        blocks,
    })
}

/// The device's answer to such a request, big-endian.
fn response(seq: u32, opnum: u16, request_len: u32, blocks: Vec<u8>) -> Vec<u8> {
    pdu_bytes(&Pdu {
        response: true,
        little: false,
        flags: 0x28,
        object: OBJECT,
        interface: DEVICE_IF,
        activity: CPU_ACTIVITY,
        seq,
        opnum,
        first_word: 0,
        max_count: request_len,
        blocks,
    })
}

fn pdu(name: &str) -> Vec<u8> {
    match name {
        "connect_req" => request(0, 0, connect_blocks()),
        "connect_res" => response(0, 0, 557, connect_res_blocks()),
        "write_req" => request(1, 3, write_blocks()),
        "write_res" => response(1, 3, 344, write_res_blocks()),
        "prmend_req" => request(2, 4, control(0x0110, 1)),
        "prmend_res" => response(2, 4, 32, control(0x8110, 8)),
        "appready_req" => pdu_bytes(&Pdu {
            response: false,
            little: false,
            flags: 0x20,
            object: CPU_OBJECT,
            interface: CONTROLLER_IF,
            activity: SEED,
            seq: 0,
            opnum: 4,
            first_word: 1340,
            max_count: 1340,
            blocks: control(0x0112, 2),
        }),
        "appready_res" => pdu_bytes(&Pdu {
            response: true,
            little: true,
            flags: 0x0a,
            object: CPU_OBJECT,
            interface: CONTROLLER_IF,
            activity: SEED,
            seq: 0,
            opnum: 4,
            first_word: 0,
            max_count: 1340,
            blocks: control(0x8112, 8),
        }),
        "im0_read_req" => request(0x40, 2, read_blocks(0, 1)),
        "im0_read_res" => response(0x40, 2, 64, read_res_blocks(0, 1)),
        "im0_read_req_if" => request(0x41, 2, read_blocks(0, 0x8000)),
        "im0_read_res_if" => response(0x41, 2, 64, read_res_blocks(0, 0x8000)),
        _ => panic!("no pdu {name}"),
    }
}


const MS: u64 = 1_000_000;
const APP_READY_TIMEOUT: u64 = 1_000 * MS;

fn cpu() -> Endpoint {
    Endpoint::V4 { ip: 0xac10_0264, port: 54766 }
}
fn cpu_cm() -> Endpoint {
    Endpoint::V4 { ip: 0xac10_0264, port: 34964 }
}

/// A lifecycle machine of the AR, as far as these exchanges need one.
struct Machine {
    state: ArState,
    ar: Option<ArParams>,
    model: DeviceModel,
    deadline: Option<u64>,
}

impl Machine {
    fn control(c: &ControlBlock) -> Vec<u8> {
        let mut b = Vec::new();
        c.write(&mut b);
        b
    }

    fn app_ready(&self) -> Action {
        let ar = self.ar.as_ref().unwrap();
        Action::CallController {
            blocks: Self::control(&app_ready_req(ar.ar_uuid, ar.session_key)),
        }
    }

    fn end(&mut self, reason: AbortReason) -> Vec<Action> {
        if self.state == ArState::Idle {
            return vec![];
        }
        self.state = ArState::Idle;
        self.ar = None;
        self.deadline = None;
        vec![Action::Notify {
            state: ArState::Idle,
            reason: Some(reason),
        }]
    }

    fn on(&mut self, event: Event, now: u64) -> Vec<Action> {
        match event {
            Event::ConnectReq(req) => match validate(&req, &self.model) {
                Err(status) => vec![Action::Respond {
                    status,
                    blocks: vec![],
                }],
                Ok(p) => {
                    let mut out = vec![];
                    if let Some(ar) = &self.ar {
                        if ar.ar_uuid != p.ar_uuid {
                            return vec![Action::Respond {
                                status: PnioStatus::connect_ar_already_exists(),
                                blocks: vec![],
                            }];
                        }
                        out = self.end(AbortReason::ControllerReconnect);
                    }
                    out.push(Action::Respond {
                        status: PnioStatus::ok(),
                        blocks: build_connect_res(&p, &self.model),
                    });
                    self.ar = Some(p);
                    self.state = ArState::Connected;
                    out.push(Action::Notify {
                        state: ArState::Connected,
                        reason: None,
                    });
                    out
                }
            },
            Event::WriteReq(w) => vec![Action::Respond {
                status: PnioStatus::ok(),
                blocks: build_write_res(&w),
            }],
            Event::PrmEndReq(c) => {
                self.state = ArState::AppReadySent;
                self.deadline = Some(now + APP_READY_TIMEOUT);
                vec![
                    Action::Respond {
                        status: PnioStatus::ok(),
                        blocks: Self::control(&prm_end_done(&c)),
                    },
                    self.app_ready(),
                ]
            }
            Event::ReleaseReq(c) => {
                let mut out = vec![Action::Respond {
                    status: PnioStatus::ok(),
                    blocks: Self::control(&release_done(&c)),
                }];
                out.extend(self.end(AbortReason::ControllerRelease));
                out
            }
            Event::AppReadyRsp { status } => {
                if self.state != ArState::AppReadySent || !status.is_ok() {
                    return vec![];
                }
                self.state = ArState::Data;
                self.deadline = None;
                vec![Action::Notify {
                    state: ArState::Data,
                    reason: None,
                }]
            }
            Event::Tick => match self.deadline {
                Some(d) if now >= d => {
                    self.deadline = Some(now + APP_READY_TIMEOUT);
                    vec![self.app_ready()]
                }
                _ => vec![],
            },
            Event::Abort(reason) => self.end(reason),
        }
    }
}

/// The context manager and the machine it asks.
struct Manager {
    cm: Cm,
    machine: Machine,
}

impl Manager {
    fn new(model: DeviceModel, seed: Uuid) -> Manager {
        Manager {
            cm: Cm::new(model.clone(), seed),
            machine: Machine {
                state: ArState::Idle,
                ar: None,
                model,
                deadline: None,
            },
        }
    }

    fn state(&self) -> ArState {
        self.machine.state
    }

    fn set_im(&mut self, im0: Im0, store: ImStore) {
        self.cm.set_im(im0, store);
    }

    fn handle_datagram(
        &mut self,
        buf: &[u8],
        from: Endpoint,
        now: u64,
    ) -> Result<CmOutput, RpcError> {
        match self.cm.handle_datagram(buf, from, self.machine.ar.as_ref())? {
            Handled::Done(out) => Ok(out),
            Handled::Ask { event, pending } => {
                let actions = self.machine.on(event, now);
                let ar = self.machine.ar.as_ref();
                assert!(self.cm.can_resume(&pending, &actions, ar));
                Ok(self.cm.resume(&pending, &actions, ar))
            }
        }
    }

    fn tick(&mut self, now: u64) -> CmOutput {
        let actions = self.machine.on(Event::Tick, now);
        let ar = self.machine.ar.as_ref();
        assert!(self.cm.can_retry(&actions, ar));
        self.cm.tick(&actions, ar)
    }

    fn abort(&mut self, reason: AbortReason, now: u64) -> CmOutput {
        let actions = self.machine.on(Event::Abort(reason), now);
        let ar = self.machine.ar.as_ref();
        assert!(self.cm.can_retry(&actions, ar));
        self.cm.abort(&actions, ar)
    }
}

/// `bytes` with every occurrence of `old` replaced by `new` (PNIO blocks are big-endian).
fn retag_ar_uuid(mut bytes: Vec<u8>, old: Uuid, new: Uuid) -> Vec<u8> {
    let mut old_b = Vec::new();
    old.write(&mut old_b, Drep::big());
    let mut new_b = Vec::new();
    new.write(&mut new_b, Drep::big());
    let mut i = 0;
    while i + 16 <= bytes.len() {
        if bytes[i..i + 16] == old_b[..] {
            bytes[i..i + 16].copy_from_slice(&new_b);
        }
        i += 1;
    }
    bytes
}

fn cm() -> Manager {
    Manager::new(
        DeviceModel::pnet_sample(MAC),
        Uuid::parse_str(SEED).unwrap(),
    )
}

#[test]
fn full_exchange_is_byte_exact_including_rpc_headers() {
    let mut cm = cm();
    let now = 7 * MS;
    let o = cm.handle_datagram(&pdu("connect_req"), cpu(), now).unwrap();
    assert_eq!(o.send.len(), 1);
    assert_eq!(o.send[0].bytes, pdu("connect_res"));
    assert_eq!(o.send[0].to, cpu());
    assert_eq!(o.notify, vec![(ArState::Connected, None)]);
    let o = cm.handle_datagram(&pdu("write_req"), cpu(), now).unwrap();
    assert_eq!(o.send[0].bytes, pdu("write_res"));
    let o = cm.handle_datagram(&pdu("prmend_req"), cpu(), now).unwrap();
    assert_eq!(o.send[0].bytes, pdu("prmend_res"));
    assert_eq!(o.send[1].bytes, pdu("appready_req"));
    assert_eq!(o.send[1].to, cpu_cm());
    assert_eq!(cm.state(), ArState::AppReadySent);
    let o = cm
        .handle_datagram(&pdu("appready_res"), cpu_cm(), now)
        .unwrap();
    assert!(o.send.is_empty());
    assert_eq!(o.notify, vec![(ArState::Data, None)]);
    assert_eq!(cm.state(), ArState::Data);
}

#[test]
fn retransmitted_request_gets_cached_response() {
    let mut cm = cm();
    let now = 7 * MS;
    let first = cm.handle_datagram(&pdu("connect_req"), cpu(), now).unwrap();
    let again = cm.handle_datagram(&pdu("connect_req"), cpu(), now).unwrap();
    assert_eq!(again.send[0].bytes, first.send[0].bytes);
    assert!(again.notify.is_empty());
}

#[test]
fn stray_connect_does_not_redirect_app_ready() {
    let mut cm = cm();
    let now = 7 * MS;
    let o = cm.handle_datagram(&pdu("connect_req"), cpu(), now).unwrap();
    assert_eq!(o.notify, vec![(ArState::Connected, None)]);

    // Same Connect request bytes, but from a different host, with a different AR
    // UUID, initiator object UUID, and seq_num (so it's a distinct RPC call, not
    // a cached-response retransmit, and not a same-initiator reconnect either):
    // the AR is already `Connected`, so this must be refused without touching
    // `controller_addr`.
    let mut stray = pdu("connect_req");
    stray[64] = 1; // seq_num (LE low byte): 0 -> 1
    stray[108..124].copy_from_slice(&[0x11; 16]); // ARBlockReq.ARUUID
    stray[132..148].copy_from_slice(&[0x22; 16]); // ARBlockReq.InitiatorObjectUUID
    let stray_from = Endpoint::V4 { ip: 0xac10_024d, port: 40000 };
    let o = cm.handle_datagram(&stray, stray_from, now).unwrap();
    let (n, _) =
        NdrResponse::parse(&o.send[0].bytes[80..], Drep::big()).unwrap();
    assert_eq!(
        PnioStatus(n.status),
        PnioStatus::connect_ar_already_exists()
    );
    assert_eq!(cm.state(), ArState::Connected);

    // The real AR's ApplicationReady call (via PrmEnd) must still go to the real
    // controller, not to the stray host.
    let o = cm.handle_datagram(&pdu("prmend_req"), cpu(), now).unwrap();
    assert_eq!(o.send[1].bytes, pdu("appready_req"));
    assert_eq!(o.send[1].to, cpu_cm());
}

#[test]
fn unsupported_opnum_gets_error_status_response() {
    let mut cm = cm();
    let mut read = pdu("prmend_req");
    read[68] = 2; // opnum Read (LE low byte)
    let o = cm.handle_datagram(&read, cpu(), 7 * MS).unwrap();
    let h = RpcHeader::parse(&o.send[0].bytes).unwrap();
    assert_eq!(h.ptype, PacketType::Response);
    assert_eq!(h.opnum, 2);
    let (n, blocks) =
        NdrResponse::parse(&o.send[0].bytes[80..], Drep::big()).unwrap();
    assert_eq!(PnioStatus(n.status), PnioStatus::read_index_unsupported());
    assert!(blocks.is_empty());
}

#[test]
fn unknown_opnum_gets_service_unsupported_status() {
    let mut cm = cm();
    let mut bad = pdu("prmend_req");
    bad[68] = 99; // opnum unmapped by Opnum::from_u16 (LE low byte)
    let o = cm.handle_datagram(&bad, cpu(), 7 * MS).unwrap();
    let (n, blocks) =
        NdrResponse::parse(&o.send[0].bytes[80..], Drep::big()).unwrap();
    assert_eq!(PnioStatus(n.status), PnioStatus::service_unsupported());
    assert!(blocks.is_empty());
}

#[test]
fn rejected_connect_has_error_status_and_no_blocks() {
    let mut cm = Manager::new(
        {
            let mut m = DeviceModel::pnet_sample(MAC);
            m.slots.pop();
            m
        },
        Uuid::nil(),
    );
    let o = cm
        .handle_datagram(&pdu("connect_req"), cpu(), 7 * MS)
        .unwrap();
    let (n, blocks) =
        NdrResponse::parse(&o.send[0].bytes[80..], Drep::big()).unwrap();
    assert_eq!(
        PnioStatus(n.status),
        PnioStatus::connect_reject(ConnectBlock::ExpectedSubmodule, 7)
    );
    assert!(blocks.is_empty());
    assert_eq!(cm.state(), ArState::Idle);
}

#[test]
fn wrong_interface_and_garbage_are_errors_not_panics() {
    let mut cm = cm();
    let mut bad = pdu("connect_req");
    bad[24] = 0xff;
    assert!(matches!(
        cm.handle_datagram(&bad, cpu(), 7 * MS),
        Err(RpcError::BadInterface(_))
    ));
    assert!(matches!(
        cm.handle_datagram(&[1, 2, 3], cpu(), 7 * MS),
        Err(RpcError::TooShort { .. })
    ));
}

#[test]
fn reconnect_updates_controller_addr() {
    let mut cm = cm();
    let now = 7 * MS;
    let o = cm.handle_datagram(&pdu("connect_req"), cpu(), now).unwrap();
    assert_eq!(o.notify, vec![(ArState::Connected, None)]);
    cm.handle_datagram(&pdu("write_req"), cpu(), now).unwrap();
    cm.handle_datagram(&pdu("prmend_req"), cpu(), now).unwrap();
    let o = cm
        .handle_datagram(&pdu("appready_res"), cpu_cm(), now)
        .unwrap();
    assert_eq!(o.notify, vec![(ArState::Data, None)]);
    assert_eq!(cm.state(), ArState::Data);

    // Same AR (ARUUID unchanged), new SessionKey, from a new source port and a
    // fresh RPC call (new seq_num — the bench also gets a new activity UUID;
    // seq_num alone is enough here to not collide with the cached responses of
    // the exchange above, which used 0/1/2 on this same activity) — as the CPU
    // does on the bench after it aborts and re-Identifies. ARBlockReq starts at
    // PDU offset 108 (ARUUID, 16 bytes), so SessionKey is at [124..126].
    let mut reconnect = pdu("connect_req");
    reconnect[64] = 3; // seq_num (LE low byte): 0 -> 3, a new RPC call
    reconnect[124..126].copy_from_slice(&5u16.to_be_bytes());
    let reconnect_from = Endpoint::V4 { ip: 0xac10_0264, port: 54800 };
    let o = cm.handle_datagram(&reconnect, reconnect_from, now).unwrap();
    assert_eq!(
        o.notify,
        vec![
            (ArState::Idle, Some(AbortReason::ControllerReconnect)),
            (ArState::Connected, None),
        ]
    );
    assert_eq!(o.send.len(), 1);
    let (n, _) =
        NdrResponse::parse(&o.send[0].bytes[80..], Drep::big()).unwrap();
    assert!(PnioStatus(n.status).is_ok());

    // A PrmEnd on the reconnected AR (again a fresh RPC call, not a retransmit of
    // the first one already cached above) must place the ApplicationReady call
    // to the controller address captured by the takeover. The reconnect's source
    // IP matches the original controller's, so the address itself is unchanged
    // here — but this exercises the takeover code path (not the stale
    // `was_idle` guard it replaces) that sets `controller_addr`.
    let mut prmend = pdu("prmend_req");
    prmend[64] = 4; // seq_num (LE low byte): 2 -> 4, a new RPC call
                    // A real controller's PrmEnd carries the SessionKey it just negotiated (5),
                    // not the golden capture's original one (2); SessionKey is at the same
                    // [124..126] offset as in ARBlockReq (see the reconnect above).
    prmend[124..126].copy_from_slice(&5u16.to_be_bytes());
    let o = cm.handle_datagram(&prmend, cpu(), now).unwrap();
    assert_eq!(o.send[1].to, cpu_cm());
    // `call_seq` is scoped to the device's fixed `activity_seed`, not to the AR,
    // so it must keep counting up across the reconnect rather than restarting at
    // 0 (which would resend the RPC-CL pair `(activity_seed, 0)` the controller
    // already completed for the first AR). The call is therefore identical to
    // the golden ApplicationReady request everywhere except `seq_num` (bytes
    // [64..68], big-endian on our own outgoing calls, which is 1, not 0) and
    // SessionKey (bytes [124..126]): the ApplicationReady call is built from the
    // AR's own context — the reconnected session (5) — not from the PrmEnd
    // request that triggered it.
    let mut expected = pdu("appready_req");
    expected[124..126].copy_from_slice(&5u16.to_be_bytes());
    assert_eq!(o.send[1].bytes[..64], expected[..64]);
    assert_eq!(o.send[1].bytes[68..124], expected[68..124]);
    assert_eq!(o.send[1].bytes[126..], expected[126..]);
    assert_eq!(
        u32::from_be_bytes(o.send[1].bytes[64..68].try_into().unwrap()),
        1
    );
}

#[test]
fn tick_resends_app_ready_to_controller() {
    let mut cm = cm();
    let now = 7 * MS;
    cm.handle_datagram(&pdu("connect_req"), cpu(), now).unwrap();
    cm.handle_datagram(&pdu("prmend_req"), cpu(), now).unwrap();
    let o =
        cm.tick(now + APP_READY_TIMEOUT + MS);
    assert_eq!(o.send[0].bytes, pdu("appready_req"));
    assert_eq!(o.send[0].to, cpu_cm());
}

/// Brings an AR up to `Data` and re-tags it with the alarm capture's `ar_uuid`.
///
/// The AR established from the cm-golden capture carries `ar_uuid` e5e1aecc-...;
/// the alarm capture's Read requests carry ef796d60-... (a different
/// session). Re-tagging the request PDUs aligns the two so the Read is answered
/// rather than refused as foreign. Only the PNIO blocks' own `ar_uuid` fields
/// (ARBlockReq, each Write record, PrmEnd's ControlBlock) carry this value — the
/// RPC header's object/interface/activity UUIDs are unrelated and untouched, and
/// `appready_res` carries no `ar_uuid` at all.
fn cm_in_data_with_the_alarm_capture_ar(now: u64) -> Manager {
    let mut cm = cm();
    let old = Uuid::parse_str("e5e1aecc-b133-4b4d-b187-cc68b0211ed2").unwrap();
    let new = Uuid::parse_str("ef796d60-ef2b-9946-b39e-8531f5b7f966").unwrap();
    let retag = |name: &str| retag_ar_uuid(pdu(name), old, new);

    cm.handle_datagram(&retag("connect_req"), cpu(), now)
        .unwrap();
    cm.handle_datagram(&retag("write_req"), cpu(), now).unwrap();
    let o = cm
        .handle_datagram(&retag("prmend_req"), cpu(), now)
        .unwrap();
    assert_eq!(o.send[1].to, cpu_cm());
    let o = cm
        .handle_datagram(&pdu("appready_res"), cpu_cm(), now)
        .unwrap();
    assert_eq!(o.notify, vec![(ArState::Data, None)]);
    assert_eq!(cm.state(), ArState::Data);
    cm.set_im(pnet_im0(), ImStore::new());
    cm
}

#[test]
fn read_response_matches_the_pnet_im0_golden_byte_exact() {
    let now = 7 * MS;
    let mut cm = cm_in_data_with_the_alarm_capture_ar(now);
    let o = cm
        .handle_datagram(&pdu("im0_read_req"), cpu(), now)
        .unwrap();
    assert_eq!(o.send.len(), 1);
    assert_eq!(o.send[0].bytes, pdu("im0_read_res"));
    assert_eq!(o.send[0].to, cpu());
}

/// The capture reads I&M0 on the interface submodule (slot 0, subslot 0x8000)
/// too, and p-net answers it with the very same record — `IM_Supported = 0x000E`
/// included, not a zeroed mask.
#[test]
fn read_response_on_the_interface_submodule_matches_the_golden_byte_exact() {
    let now = 7 * MS;
    let mut cm = cm_in_data_with_the_alarm_capture_ar(now);
    let o = cm
        .handle_datagram(&pdu("im0_read_req_if"), cpu(), now)
        .unwrap();
    assert_eq!(o.send.len(), 1);
    assert_eq!(o.send[0].bytes, pdu("im0_read_res_if"));
    assert_eq!(o.send[0].to, cpu());
}

#[test]
fn read_with_a_foreign_ar_uuid_is_refused() {
    let mut cm = cm();
    let now = 7 * MS;
    cm.handle_datagram(&pdu("connect_req"), cpu(), now).unwrap();
    cm.handle_datagram(&pdu("write_req"), cpu(), now).unwrap();
    cm.handle_datagram(&pdu("prmend_req"), cpu(), now).unwrap();
    cm.handle_datagram(&pdu("appready_res"), cpu_cm(), now)
        .unwrap();
    assert_eq!(cm.state(), ArState::Data);

    // Unpatched: the alarm capture's `ar_uuid` (ef796d60-...) is genuinely
    // foreign to the AR just established (e5e1aecc-...).
    let o = cm
        .handle_datagram(&pdu("im0_read_req"), cpu(), now)
        .unwrap();
    let (n, blocks) =
        NdrResponse::parse(&o.send[0].bytes[80..], Drep::big()).unwrap();
    assert_eq!(PnioStatus(n.status), PnioStatus::read_wrong_ar());
    assert!(blocks.is_empty());
}

#[test]
fn read_implicit_answers_ok_from_idle_without_an_ar() {
    let mut cm = cm();
    assert_eq!(cm.state(), ArState::Idle);
    let mut req = pdu("im0_read_req");
    req[68] = 5; // opnum: Read (2) -> ReadImplicit (5), LE low byte
    let o = cm.handle_datagram(&req, cpu(), 7 * MS).unwrap();
    assert_eq!(o.send.len(), 1);
    let h = RpcHeader::parse(&o.send[0].bytes).unwrap();
    assert_eq!(h.opnum, 5);
    let (n, blocks) =
        NdrResponse::parse(&o.send[0].bytes[80..], Drep::big()).unwrap();
    assert!(PnioStatus(n.status).is_ok());
    assert!(!blocks.is_empty());
    assert_eq!(cm.state(), ArState::Idle);
}

#[test]
fn an_accepted_write_of_an_im_record_reads_back() {
    let mut cm = cm();
    let now = 7 * MS;
    cm.handle_datagram(&pdu("connect_req"), cpu(), now).unwrap();
    let mut im1 = vec![0x00, 0x21, 0, 56, 1, 0];
    im1.extend_from_slice(b"TAG-FUNCTION                    ");
    im1.extend_from_slice(b"TAG-LOCATION          ");
    let write = request(1, 3, record(8, 0, (0, 0, 1), 0xaff1, &im1));
    let o = cm.handle_datagram(&write, cpu(), now).unwrap();
    assert_eq!(o.send.len(), 1);
    assert_eq!(cm.cm.im_store().tag_function(), "TAG-FUNCTION");
    assert_eq!(cm.cm.im_store().tag_location(), "TAG-LOCATION");
    // the retransmitted write is answered again and not carried out again
    let again = cm.handle_datagram(&write, cpu(), now).unwrap();
    assert_eq!(again.send[0].bytes, o.send[0].bytes);
    let read = request(2, 2, {
        let mut b = record(9, 3, (0, 0, 1), 0xaff1, &[]);
        b[36..40].copy_from_slice(&[0, 0, 0x80, 0]);
        b
    });
    let o = cm.handle_datagram(&read, cpu(), now).unwrap();
    let (n, blocks) = NdrResponse::parse(&o.send[0].bytes[80..], Drep::big()).unwrap();
    assert!(PnioStatus(n.status).is_ok());
    assert_eq!(&blocks[64..], &im1[..]);
}

#[test]
fn a_write_outside_an_ar_writes_nothing_if_it_is_refused() {
    let mut cm = cm();
    let mut im1 = vec![0x00, 0x21, 0, 56, 1, 0];
    im1.resize(60, b'x');
    let write = request(1, 3, record(8, 0, (0, 0, 1), 0xaff1, &im1));
    let Handled::Ask { event, pending } = cm.cm.handle_datagram(&write, cpu(), None).unwrap() else {
        panic!("the machine is asked")
    };
    assert!(matches!(event, Event::WriteReq(_)));
    let refused = vec![Action::Respond {
        status: PnioStatus::write_wrong_ar(),
        blocks: vec![],
    }];
    assert!(cm.cm.can_resume(&pending, &refused, None));
    cm.cm.resume(&pending, &refused, None);
    assert_eq!(cm.cm.im_store().tag_function(), "");
    // a call without an AR cannot be placed
    let call = vec![Action::CallController { blocks: vec![] }];
    assert!(!cm.cm.can_resume(&pending, &call, None));
    assert!(!cm.cm.can_retry(&call, None));
}

#[test]
fn a_response_is_kept_while_three_others_are_answered() {
    let mut cm = cm();
    let now = 7 * MS;
    let first = cm.handle_datagram(&pdu("connect_req"), cpu(), now).unwrap();
    for seq in 1..4 {
        let mut other = pdu("connect_req");
        other[64] = seq; // seq_num (LE low byte)
        other[68] = 99; // an opnum that nobody serves
        let o = cm.handle_datagram(&other, cpu(), now).unwrap();
        assert_ne!(o.send[0].bytes, first.send[0].bytes);
        let again = cm.handle_datagram(&pdu("connect_req"), cpu(), now).unwrap();
        assert_eq!(again.send[0].bytes, first.send[0].bytes);
        assert!(again.notify.is_empty());
    }
}
