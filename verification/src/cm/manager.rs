//! [`Cm`]: RPC datagrams to AR events, AR actions to RPC datagrams.
//!
//! The lifecycle machine of the AR stands between the two halves: [`Cm::handle_datagram`]
//! says what to tell it, and [`Cm::resume`], [`Cm::tick`] and [`Cm::abort`] carry out what it
//! asks for.

use vstd::prelude::*;

use vstd::slice::slice_subrange;

use crate::bytes;
use crate::cm::ar;
use crate::cm::block::BlockHeader;
use crate::cm::control::cmd;
use crate::cm::records;
use crate::cm::write::RecordView;
use crate::cm::{
    build_read_res, read_record, write_im_record, AbortReason, Action, ArParams, ArState,
    CmError, ConnectBlock, ConnectReq, ControlBlock, DeviceModel, Event, PnioStatus, ReadReq,
    Record, RecordCtx, WriteReq,
};
use crate::im::{self, Im0, ImStore, INDEX_IM1, INDEX_IM3};
use crate::rpc::{
    pnio_controller_interface, pnio_device_interface, Drep, Endpoint, NdrRequest, NdrResponse,
    Opnum, PacketType, RpcError, RpcHeader, Uuid, FLAG1_IDEMPOTENT, FLAG1_NO_FACK, PNIO_UDP_PORT,
};

verus! {

/// Our advertised max NDR args length (`args_max`/`max_count`) for outgoing calls.
pub const RPC_ARGS_MAX: u32 = 1340;

/// Maximum number of cached full response PDUs kept for retransmission, FIFO eviction.
pub const CACHE_CAPACITY: usize = 4;

// ---------------------------------------------------------------------------------
// What goes out
// ---------------------------------------------------------------------------------

/// One outgoing RPC datagram: the raw bytes to send and the address to send them to.
#[derive(Debug, Clone, PartialEq)]
pub struct Outgoing {
    /// The complete UDP payload (RPC header + NDR body) to send.
    pub bytes: Vec<u8>,
    /// Destination address.
    pub to: Endpoint,
}

/// What an [`Outgoing`] holds.
pub struct OutgoingView {
    pub bytes: Seq<u8>,
    pub to: Endpoint,
}

impl View for Outgoing {
    type V = OutgoingView;

    open spec fn view(&self) -> OutgoingView {
        OutgoingView { bytes: self.bytes@, to: self.to }
    }
}

/// The effects of one step: datagrams to send, and AR state changes to report (state plus
/// the abort reason, when any).
#[derive(Debug, PartialEq)]
pub struct CmOutput {
    /// Datagrams the caller must send on the wire, in order.
    pub send: Vec<Outgoing>,
    /// AR state transitions to report to the application, each with the reason when the
    /// transition is a fall back to [`ArState::Idle`] due to an abort.
    pub notify: Vec<(ArState, Option<AbortReason>)>,
}

/// What a [`CmOutput`] holds.
pub struct OutputView {
    pub send: Seq<OutgoingView>,
    pub notify: Seq<(ArState, Option<AbortReason>)>,
}

impl View for CmOutput {
    type V = OutputView;

    open spec fn view(&self) -> OutputView {
        OutputView {
            send: self.send@.map_values(|o: Outgoing| o@),
            notify: self.notify@,
        }
    }
}

impl OutputView {
    /// Nothing to send, nothing to report.
    pub open spec fn nothing() -> OutputView {
        OutputView { send: Seq::empty(), notify: Seq::empty() }
    }

    /// One datagram more.
    pub open spec fn sending(self, bytes: Seq<u8>, to: Endpoint) -> OutputView {
        OutputView { send: self.send.push(OutgoingView { bytes, to }), notify: self.notify }
    }

    /// One state change more.
    pub open spec fn reporting(self, state: ArState, reason: Option<AbortReason>) -> OutputView {
        OutputView { send: self.send, notify: self.notify.push((state, reason)) }
    }
}

impl Default for CmOutput {
    fn default() -> (r: Self)
        ensures
            r@ == OutputView::nothing(),
    {
        let r = CmOutput { send: Vec::new(), notify: Vec::new() };
        assert(r@.send =~= Seq::empty());
        assert(r@.notify =~= Seq::empty());
        r
    }
}

impl CmOutput {
    fn push_send(&mut self, bytes: Vec<u8>, to: Endpoint)
        ensures
            final(self)@ == old(self)@.sending(bytes@, to),
    {
        self.send.push(Outgoing { bytes, to });
        assert(self@.send =~= old(self)@.sending(bytes@, to).send);
    }

    fn push_notify(&mut self, state: ArState, reason: Option<AbortReason>)
        ensures
            final(self)@ == old(self)@.reporting(state, reason),
    {
        self.notify.push((state, reason));
        assert(self@.send =~= old(self)@.send);
    }
}

// ---------------------------------------------------------------------------------
// PDUs
// ---------------------------------------------------------------------------------

/// The request-specific fields needed to build and cache a Response PDU, gathered from the
/// incoming request's RPC header plus its NDR `args_max`.
#[derive(Debug, Clone, Copy, PartialEq, Eq, Structural)]
pub struct RespondCtx {
    /// Object UUID, echoed.
    pub object: Uuid,
    /// Interface UUID, echoed.
    pub interface: Uuid,
    /// Activity UUID, echoed.
    pub activity: Uuid,
    /// Sequence number, echoed.
    pub seq_num: u32,
    /// Operation number, echoed.
    pub opnum: u16,
    /// The NDR capacity the caller offers.
    pub args_max: u32,
    /// Where the request came from.
    pub from: Endpoint,
}

/// The low 16 bits of the length of an NDR body with `len` bytes of blocks.
pub open spec fn frag_len(len: nat) -> u16 {
    ((20 + len) % 0x10000) as u16
}

fn fragment_len(len: usize) -> (r: u16)
    ensures
        r == frag_len(len as nat),
{
    ((len % 0x10000 + 20) % 0x10000) as u16
}

impl RespondCtx {
    /// The header of the response to this request.
    pub open spec fn response_header(self, len: nat) -> RpcHeader {
        RpcHeader {
            ptype: PacketType::Response,
            flags1: 0x28,
            flags2: 0,
            drep: Drep::big(),
            serial_hi: 0,
            object: self.object,
            interface: self.interface,
            activity: self.activity,
            server_boot: 0,
            if_version: 1,
            seq_num: self.seq_num,
            opnum: self.opnum,
            ihint: 0xffff,
            ahint: 0xffff,
            frag_len: frag_len(len),
            frag_num: 0,
            auth_proto: 0,
            serial_lo: 0,
        }
    }

    /// The NDR header of the response to this request.
    pub open spec fn response_ndr(self, status: PnioStatus, len: nat) -> NdrResponse {
        NdrResponse {
            status: status.0,
            args_len: len as u32,
            max_count: self.args_max,
            offset: 0,
            actual_count: len as u32,
        }
    }

    /// The Response PDU: an OK status carries the blocks, any other none.
    pub open spec fn response(self, status: PnioStatus, blocks: Seq<u8>) -> Seq<u8> {
        let out = if status.is_ok() {
            blocks
        } else {
            Seq::empty()
        };
        self.response_header(out.len()).spec_bytes() + self.response_ndr(
            status,
            out.len(),
        ).spec_bytes(Drep::big()) + out
    }

    /// What the response is cached under.
    pub open spec fn key(self) -> (Uuid, u32) {
        (self.activity, self.seq_num)
    }
}

/// Build the Response PDU for a request: an OK status echoes the blocks, any other status
/// answers with no blocks (the NDR header still carries the request's `args_max` in
/// `max_count`).
fn build_response_pdu(ctx: &RespondCtx, status: PnioStatus, blocks: &[u8]) -> (pdu: Vec<u8>)
    ensures
        pdu@ == ctx.response(status, blocks@),
{
    let len: usize = if status.is_ok() {
        blocks.len()
    } else {
        0
    };
    let header = RpcHeader {
        ptype: PacketType::Response,
        flags1: FLAG1_IDEMPOTENT + FLAG1_NO_FACK,
        flags2: 0,
        drep: Drep::big(),
        serial_hi: 0,
        object: ctx.object,
        interface: ctx.interface,
        activity: ctx.activity,
        server_boot: 0,
        if_version: 1,
        seq_num: ctx.seq_num,
        opnum: ctx.opnum,
        ihint: 0xffff,
        ahint: 0xffff,
        frag_len: fragment_len(len),
        frag_num: 0,
        auth_proto: 0,
        serial_lo: 0,
    };
    let mut pdu: Vec<u8> = Vec::new();
    header.write(&mut pdu);
    if status.is_ok() {
        let ndr = NdrResponse::ok(ctx.args_max, len as u32);
        ndr.write(&mut pdu, Drep::big());
        bytes::put_all(&mut pdu, blocks);
    } else {
        let ndr = NdrResponse::error(status.to_u32(), ctx.args_max);
        ndr.write(&mut pdu, Drep::big());
    }
    assert(pdu@ =~= ctx.response(status, blocks@));
    pdu
}

/// The header of a call to the controller.
pub open spec fn call_header(object: Uuid, activity: Uuid, seq_num: u32, len: nat) -> RpcHeader {
    RpcHeader {
        ptype: PacketType::Request,
        flags1: FLAG1_IDEMPOTENT,
        flags2: 0,
        drep: Drep::big(),
        serial_hi: 0,
        object,
        interface: pnio_controller_interface(),
        activity,
        server_boot: 0,
        if_version: 1,
        seq_num,
        opnum: 4,
        ihint: 0xffff,
        ahint: 0xffff,
        frag_len: frag_len(len),
        frag_num: 0,
        auth_proto: 0,
        serial_lo: 0,
    }
}

/// The Request PDU of a call to the controller.
pub open spec fn call_bytes(object: Uuid, activity: Uuid, seq_num: u32, blocks: Seq<u8>) -> Seq<
    u8,
> {
    let ndr = NdrRequest {
        args_max: RPC_ARGS_MAX,
        args_len: blocks.len() as u32,
        max_count: RPC_ARGS_MAX,
        offset: 0,
        actual_count: blocks.len() as u32,
    };
    call_header(object, activity, seq_num, blocks.len()).spec_bytes() + ndr.spec_bytes(Drep::big())
        + blocks
}

fn build_request_pdu(object: Uuid, activity: Uuid, seq_num: u32, blocks: &[u8]) -> (pdu: Vec<u8>)
    ensures
        pdu@ == call_bytes(object, activity, seq_num, blocks@),
{
    let header = RpcHeader {
        ptype: PacketType::Request,
        flags1: FLAG1_IDEMPOTENT,
        flags2: 0,
        drep: Drep::big(),
        serial_hi: 0,
        object,
        interface: pnio_controller_interface(),
        activity,
        server_boot: 0,
        if_version: 1,
        seq_num,
        opnum: Opnum::Control.to_u16(),
        ihint: 0xffff,
        ahint: 0xffff,
        frag_len: fragment_len(blocks.len()),
        frag_num: 0,
        auth_proto: 0,
        serial_lo: 0,
    };
    let ndr = NdrRequest::for_blocks(RPC_ARGS_MAX, blocks.len() as u32);
    let mut pdu: Vec<u8> = Vec::new();
    header.write(&mut pdu);
    ndr.write(&mut pdu, Drep::big());
    bytes::put_all(&mut pdu, blocks);
    assert(pdu@ =~= call_bytes(object, activity, seq_num, blocks@));
    pdu
}

// ---------------------------------------------------------------------------------
// State
// ---------------------------------------------------------------------------------

/// A response PDU kept for retransmission.
struct CachedResponse {
    activity: Uuid,
    seq_num: u32,
    pdu: Vec<u8>,
}

/// RPC datagram <-> AR glue: parses the DCE-RPC/NDR/PNIO envelope of an incoming UDP
/// datagram into the [`Event`] for the lifecycle machine of the AR, and wraps its
/// [`Action`]s back into complete RPC PDUs. Also owns the small response cache (a
/// retransmitted request is answered with the identical cached bytes instead of re-running
/// the lifecycle machine), the I&M records, and the call sequence number / controller
/// address used for the outgoing ApplicationReady calls.
pub struct Cm {
    model: DeviceModel,
    im0: Im0,
    im: ImStore,
    activity_seed: Uuid,
    call_seq: u32,
    current_call_seq: Option<u32>,
    controller_addr: Option<Endpoint>,
    cache: Vec<CachedResponse>,
}

/// What a [`Cm`] holds.
pub struct CmView {
    /// The device model.
    pub model: DeviceModel,
    /// Device identity answered by I&M0 reads.
    pub im0: Im0,
    /// The writable I&M1-3 records.
    pub im: ImStore,
    /// Activity UUID used for calls placed to the controller (ApplicationReady).
    pub activity_seed: Uuid,
    /// Sequence number to assign to the *next new* outgoing call to the controller.
    pub call_seq: u32,
    /// Sequence number of the current outstanding call, reused unchanged by retries.
    pub current_call_seq: Option<u32>,
    /// Controller address for outgoing calls: the Connect request's source IP, PNIO's
    /// well-known UDP port.
    pub controller_addr: Option<Endpoint>,
    /// Cached full response PDUs, keyed by `(activity, seq_num)`, oldest first.
    pub cache: Seq<((Uuid, u32), Seq<u8>)>,
}

/// The first PDU cached under `key`.
pub open spec fn lookup(cache: Seq<((Uuid, u32), Seq<u8>)>, key: (Uuid, u32)) -> Option<Seq<u8>>
    decreases cache.len(),
{
    if cache.len() == 0 {
        None
    } else if cache[0].0 == key {
        Some(cache[0].1)
    } else {
        lookup(cache.skip(1), key)
    }
}

/// The cache with one PDU more: the oldest leaves when it is full.
pub open spec fn inserted(
    cache: Seq<((Uuid, u32), Seq<u8>)>,
    key: (Uuid, u32),
    pdu: Seq<u8>,
) -> Seq<((Uuid, u32), Seq<u8>)> {
    if cache.len() >= CACHE_CAPACITY {
        cache.skip(1).push((key, pdu))
    } else {
        cache.push((key, pdu))
    }
}

proof fn lemma_lookup(cache: Seq<((Uuid, u32), Seq<u8>)>, key: (Uuid, u32), i: int)
    requires
        0 <= i <= cache.len(),
        i < cache.len() ==> cache[i].0 == key,
        forall|j: int| 0 <= j < i ==> (#[trigger] cache[j]).0 != key,
    ensures
        lookup(cache, key) == if i < cache.len() {
            Some(cache[i].1)
        } else {
            None
        },
    decreases cache.len(),
{
    if cache.len() > 0 && i > 0 {
        assert(cache[0].0 != key);
        lemma_lookup(cache.skip(1), key, i - 1);
    }
}

impl View for Cm {
    type V = CmView;

    closed spec fn view(&self) -> CmView {
        CmView {
            model: self.model,
            im0: self.im0,
            im: self.im,
            activity_seed: self.activity_seed,
            call_seq: self.call_seq,
            current_call_seq: self.current_call_seq,
            controller_addr: self.controller_addr,
            cache: self.cache@.map_values(
                |c: CachedResponse| ((c.activity, c.seq_num), c.pdu@),
            ),
        }
    }
}

impl CmView {
    /// The state with this I&M store.
    pub open spec fn with_im(self, im: ImStore) -> CmView {
        CmView { im, ..self }
    }

    /// The state with one response more in the cache.
    pub open spec fn caching(self, ctx: RespondCtx, pdu: Seq<u8>) -> CmView {
        CmView { cache: inserted(self.cache, ctx.key(), pdu), ..self }
    }

    /// The sequence number of the next call.
    pub open spec fn next_seq(self, is_new: bool) -> u32 {
        if is_new {
            self.call_seq
        } else {
            self.current_call_seq->0
        }
    }

    /// The state once a call has been placed: a new one takes the next number.
    pub open spec fn calling(self, is_new: bool) -> CmView {
        if is_new {
            CmView {
                call_seq: (self.call_seq + 1) as u32,
                current_call_seq: Some(self.call_seq),
                ..self
            }
        } else {
            self
        }
    }
}

impl Cm {
    /// A fresh context manager for `model`. `activity_seed` is the activity UUID used for
    /// calls this device places to the controller (ApplicationReady); it should be stable
    /// across the device's lifetime.
    pub fn new(model: DeviceModel, activity_seed: Uuid) -> (r: Cm)
        ensures
            r@.model == model,
            r@.activity_seed == activity_seed,
            r@.call_seq == 0,
            r@.current_call_seq is None,
            r@.controller_addr is None,
            r@.cache == Seq::<((Uuid, u32), Seq<u8>)>::empty(),
            r@.im0.is_default(),
            r@.im.spec_image() == bytes::repeated(im::SPACE, 124),
    {
        let r = Cm {
            model,
            im0: Im0::default(),
            im: ImStore::load(None),
            activity_seed,
            call_seq: 0,
            current_call_seq: None,
            controller_addr: None,
            cache: Vec::new(),
        };
        assert(r@.cache =~= Seq::empty());
        r
    }

    /// Replace the device identity answered by I&M0 reads and the writable I&M1-3 store
    /// (e.g. once loaded from config/a backing file at startup). Until called, `Cm` answers
    /// with `Im0::default()` and blank I&M1-3 records.
    pub fn set_im(&mut self, im0: Im0, store: ImStore)
        ensures
            final(self)@ == (CmView { im0, im: store, ..old(self)@ }),
    {
        self.im0 = im0;
        self.im = store;
    }

    /// The current I&M1-3 store (e.g. so the application can read back tag
    /// function/location after a controller Write).
    pub fn im_store(&self) -> (r: &ImStore)
        ensures
            *r == self@.im,
    {
        &self.im
    }

    /// The response cached under `(activity, seq_num)`.
    fn cache_lookup(&self, activity: Uuid, seq_num: u32) -> (r: Option<Vec<u8>>)
        ensures
            match r {
                Some(v) => lookup(self@.cache, (activity, seq_num)) == Some(v@),
                None => lookup(self@.cache, (activity, seq_num)) is None,
            },
    {
        let mut i: usize = 0;
        while i < self.cache.len()
            invariant
                i <= self.cache@.len(),
                forall|j: int|
                    0 <= j < i ==> (#[trigger] self@.cache[j]).0 != (activity, seq_num),
            decreases self.cache@.len() - i,
        {
            let c = &self.cache[i];
            assert(self@.cache[i as int] == ((c.activity, c.seq_num), c.pdu@));
            if c.activity == activity && c.seq_num == seq_num {
                proof {
                    lemma_lookup(self@.cache, (activity, seq_num), i as int);
                }
                let mut out: Vec<u8> = Vec::new();
                bytes::put_all(&mut out, c.pdu.as_slice());
                assert(out@ =~= c.pdu@);
                return Some(out);
            }
            i = i + 1;
        }
        proof {
            lemma_lookup(self@.cache, (activity, seq_num), i as int);
        }
        None
    }

    fn cache_insert(&mut self, ctx: &RespondCtx, pdu: &Vec<u8>)
        ensures
            final(self)@ == old(self)@.caching(*ctx, pdu@),
    {
        if self.cache.len() >= CACHE_CAPACITY {
            let _oldest = self.cache.remove(0);
            assert(self@.cache =~= old(self)@.cache.skip(1));
        }
        let mut copy: Vec<u8> = Vec::new();
        bytes::put_all(&mut copy, pdu.as_slice());
        assert(copy@ =~= pdu@);
        self.cache.push(
            CachedResponse { activity: ctx.activity, seq_num: ctx.seq_num, pdu: copy },
        );
        assert(self@.cache =~= old(self)@.caching(*ctx, pdu@).cache);
    }
}

// ---------------------------------------------------------------------------------
// Requests
// ---------------------------------------------------------------------------------

/// The PNIO status to answer a refused request with: a refusal carries its own, a block
/// that does not parse is answered with `default` (the operation's convention).
pub open spec fn status_of(e: CmError, default: PnioStatus) -> PnioStatus {
    match e {
        CmError::Reject(status) => status,
        CmError::Block(_) => default,
    }
}

fn error_status(e: &CmError, default: PnioStatus) -> (r: PnioStatus)
    ensures
        r == status_of(*e, default),
{
    match e {
        CmError::Reject(status) => *status,
        CmError::Block(_) => default,
    }
}

/// The answer to a Read: with `check_ar`, only for the established AR.
pub open spec fn read_answer(
    cm: CmView,
    blocks: Seq<u8>,
    check_ar: bool,
    ar_uuid: Option<Uuid>,
) -> (PnioStatus, Seq<u8>) {
    match ReadReq::spec_parse(blocks) {
        Err(e) => (status_of(e, PnioStatus::read_index_unsupported()), Seq::empty()),
        Ok(req) => if check_ar && ar_uuid != Some(req.ar_uuid) {
            (PnioStatus::read_wrong_ar(), Seq::empty())
        } else {
            match records::served_record(req, cm.model, cm.im0, cm.im) {
                Some(data) => (PnioStatus::ok(), records::read_res_bytes(req, data)),
                None => (PnioStatus::read_index_unsupported(), Seq::empty()),
            }
        },
    }
}

/// The answer to a request that the lifecycle machine is not asked about, `None` for one
/// that it is.
pub open spec fn own_answer(cm: CmView, opnum: u16, blocks: Seq<u8>, ar_uuid: Option<Uuid>) -> Option<
    (PnioStatus, Seq<u8>),
> {
    match Opnum::spec_from_u16(opnum) {
        Some(Opnum::Connect) => match ConnectReq::fault(blocks) {
            Some(e) => Some(
                (
                    status_of(e, PnioStatus::connect_reject(ConnectBlock::ArBlock, 0xfe)),
                    Seq::empty(),
                ),
            ),
            None => None,
        },
        Some(Opnum::Write) => match WriteReq::spec_parse(blocks) {
            Err(_) => Some((PnioStatus::write_index_unsupported(), Seq::empty())),
            Ok(_) => None,
        },
        Some(Opnum::Control) => match ControlBlock::spec_parse(blocks) {
            Err(e) => Some((status_of(e, PnioStatus::control_wrong_state()), Seq::empty())),
            Ok(cb) => if cb.command == cmd::PRM_END {
                None
            } else {
                Some((PnioStatus::control_wrong_state(), Seq::empty()))
            },
        },
        Some(Opnum::Release) => match ControlBlock::spec_parse(blocks) {
            Err(e) => Some((status_of(e, PnioStatus::control_wrong_state()), Seq::empty())),
            Ok(_) => None,
        },
        Some(Opnum::Read) => Some(read_answer(cm, blocks, true, ar_uuid)),
        Some(Opnum::ReadImplicit) => Some(read_answer(cm, blocks, false, ar_uuid)),
        None => Some((PnioStatus::service_unsupported(), Seq::empty())),
    }
}

impl Event {
    /// Whether this is what a request reads as.
    pub open spec fn asks(self, opnum: u16, blocks: Seq<u8>) -> bool {
        match self {
            Event::ConnectReq(r) => {
                &&& Opnum::spec_from_u16(opnum) == Some(Opnum::Connect)
                &&& r.reads(blocks)
            },
            Event::WriteReq(w) => {
                &&& Opnum::spec_from_u16(opnum) == Some(Opnum::Write)
                &&& WriteReq::spec_parse(blocks) == Ok::<_, crate::cm::BlockError>(
                    w.record_views(),
                )
            },
            Event::PrmEndReq(cb) => {
                &&& Opnum::spec_from_u16(opnum) == Some(Opnum::Control)
                &&& ControlBlock::spec_parse(blocks) == Ok::<_, CmError>(cb)
            },
            Event::ReleaseReq(cb) => {
                &&& Opnum::spec_from_u16(opnum) == Some(Opnum::Release)
                &&& ControlBlock::spec_parse(blocks) == Ok::<_, CmError>(cb)
            },
            _ => false,
        }
    }
}

/// What a request needs done around the lifecycle machine's answer.
pub enum PendingRequest {
    /// A Connect: an AR that it establishes moves the controller's address.
    Connect,
    /// A Write: these records take effect once the lifecycle machine accepts it.
    Write(Vec<Record>),
    /// Nothing more.
    Other,
}

/// A datagram whose effects depend on what the lifecycle machine of the AR asks for.
pub struct Pending {
    /// What to respond to, when the datagram was a request.
    pub reply: Option<RespondCtx>,
    /// What the request was.
    pub request: PendingRequest,
}

impl Pending {
    /// Whether this goes with `event` as the reading of a request.
    pub open spec fn fits(self, event: Event) -> bool {
        match event {
            Event::ConnectReq(_) => self.request is Connect,
            Event::WriteReq(w) => {
                &&& self.request is Write
                &&& self.record_views() == w.record_views()
            },
            _ => self.request is Other,
        }
    }

    /// The records of a Write, none for another request.
    pub open spec fn record_views(self) -> Seq<RecordView> {
        match self.request {
            PendingRequest::Write(records) => records@.map_values(|r: Record| r@),
            _ => Seq::empty(),
        }
    }
}

/// What [`Cm::handle_datagram`] found.
pub enum Handled {
    /// The datagram is dealt with.
    Done(CmOutput),
    /// Tell the lifecycle machine `event`, and hand its actions to [`Cm::resume`].
    Ask {
        /// What to tell the lifecycle machine.
        event: Event,
        /// What to hand back with its actions.
        pending: Pending,
    },
}

/// What a datagram calls for.
pub enum Step {
    /// It is dropped, and the caller told why.
    Refuse(RpcError),
    /// It is dropped.
    Ignore,
    /// It is answered with a cached response, sent to where it came from.
    Resend(Seq<u8>, Endpoint),
    /// It is answered without the lifecycle machine.
    Answer(RespondCtx, PnioStatus, Seq<u8>),
    /// The lifecycle machine is told of the request in these blocks.
    Request(RespondCtx, Seq<u8>),
    /// The lifecycle machine is told of the controller's answer.
    Response(PnioStatus),
}

/// What the request `h` in front of `body` calls for.
pub open spec fn request_step(
    cm: CmView,
    h: RpcHeader,
    body: Seq<u8>,
    from: Endpoint,
    ar_uuid: Option<Uuid>,
) -> Step {
    if h.interface != pnio_device_interface() {
        Step::Refuse(RpcError::BadInterface(h.interface))
    } else {
        match lookup(cm.cache, (h.activity, h.seq_num)) {
            Some(pdu) => Step::Resend(pdu, from),
            None => match NdrRequest::spec_parse(body, h.drep) {
                Err(e) => Step::Refuse(e),
                Ok((ndr, blocks)) => {
                    let ctx = RespondCtx {
                        object: h.object,
                        interface: h.interface,
                        activity: h.activity,
                        seq_num: h.seq_num,
                        opnum: h.opnum,
                        args_max: ndr.args_max,
                        from,
                    };
                    match own_answer(cm, h.opnum, blocks, ar_uuid) {
                        Some((status, out)) => Step::Answer(ctx, status, out),
                        None => Step::Request(ctx, blocks),
                    }
                },
            },
        }
    }
}

/// What the datagram `buf` calls for.
pub open spec fn step_of(cm: CmView, buf: Seq<u8>, from: Endpoint, ar_uuid: Option<Uuid>) -> Step {
    match RpcHeader::spec_parse(buf) {
        Err(e) => Step::Refuse(e),
        Ok(h) => {
            let body = buf.skip(80);
            if h.ptype == PacketType::Response {
                match NdrResponse::spec_parse(body, h.drep) {
                    Err(e) => Step::Refuse(e),
                    Ok((n, _)) => Step::Response(PnioStatus(n.status)),
                }
            } else if h.ptype != PacketType::Request {
                Step::Ignore
            } else {
                request_step(cm, h, body, from, ar_uuid)
            }
        },
    }
}

/// The AR a set of parameters establishes.
pub open spec fn uuid_of(ar: Option<&ArParams>) -> Option<Uuid> {
    match ar {
        Some(p) => Some(p.ar_uuid),
        None => None,
    }
}

fn copy_record(r: &Record) -> (c: Record)
    ensures
        c@ == r@,
{
    let mut data: Vec<u8> = Vec::new();
    bytes::put_all(&mut data, r.data.as_slice());
    assert(data@ =~= r.data@);
    Record {
        seq: r.seq,
        ar_uuid: r.ar_uuid,
        api: r.api,
        slot: r.slot,
        subslot: r.subslot,
        index: r.index,
        data,
    }
}

fn copy_records(w: &WriteReq) -> (records: Vec<Record>)
    ensures
        records@.map_values(|r: Record| r@) == w.record_views(),
{
    let mut out: Vec<Record> = Vec::new();
    let mut i: usize = 0;
    while i < w.records.len()
        invariant
            i <= w.records@.len(),
            out@.len() == i,
            forall|k: int| 0 <= k < i ==> (#[trigger] out@[k])@ == w.records@[k]@,
        decreases w.records@.len() - i,
    {
        out.push(copy_record(&w.records[i]));
        i = i + 1;
    }
    assert(out@.map_values(|r: Record| r@) =~= w.record_views());
    out
}

/// What a request turns out to be.
enum Parsed {
    /// Answered with this status and these blocks.
    Answer(PnioStatus, Vec<u8>),
    /// The lifecycle machine is told this.
    Ask(Event, PendingRequest),
}

fn refuse(status: PnioStatus) -> (r: Parsed)
    ensures
        r matches Parsed::Answer(s, blocks) && s == status && blocks@ == Seq::<u8>::empty(),
{
    let blocks: Vec<u8> = Vec::new();
    assert(blocks@ =~= Seq::empty());
    Parsed::Answer(status, blocks)
}

impl Cm {
    /// Serve a Read or ReadImplicit request: `check_ar` gates the AR check (`Read` requires
    /// the request's `ar_uuid` to match the established AR; `ReadImplicit` is meant to be
    /// usable before/without an AR).
    fn handle_read(&self, blocks: &[u8], check_ar: bool, ar_uuid: Option<Uuid>) -> (r: Parsed)
        ensures
            r matches Parsed::Answer(status, out) && (status, out@) == read_answer(
                self@,
                blocks@,
                check_ar,
                ar_uuid,
            ),
    {
        let req = match ReadReq::parse(blocks) {
            Ok(req) => req,
            Err(e) => {
                return refuse(error_status(&e, PnioStatus::read_index_unsupported()));
            },
        };
        if check_ar {
            let established = match ar_uuid {
                Some(u) => u == req.ar_uuid,
                None => false,
            };
            if !established {
                return refuse(PnioStatus::read_wrong_ar());
            }
        }
        let ctx = RecordCtx { model: &self.model, im0: &self.im0, im: &self.im };
        match read_record(&req, &ctx) {
            Some(data) => Parsed::Answer(PnioStatus::ok(), build_read_res(&req, data.as_slice())),
            None => refuse(PnioStatus::read_index_unsupported()),
        }
    }

    /// Read a request's blocks, and answer it where the lifecycle machine need not be asked.
    fn parse_request(&self, opnum: u16, blocks: &[u8], ar_uuid: Option<Uuid>) -> (r: Parsed)
        ensures
            match r {
                Parsed::Answer(status, out) => own_answer(self@, opnum, blocks@, ar_uuid) == Some(
                    (status, out@),
                ),
                Parsed::Ask(event, request) => {
                    &&& own_answer(self@, opnum, blocks@, ar_uuid) is None
                    &&& event.asks(opnum, blocks@)
                    &&& (Pending { reply: None, request }).fits(event)
                },
            },
    {
        match Opnum::from_u16(opnum) {
            Some(Opnum::Connect) => match ConnectReq::parse(blocks) {
                Ok(req) => Parsed::Ask(Event::ConnectReq(req), PendingRequest::Connect),
                Err(e) => refuse(
                    error_status(&e, PnioStatus::connect_reject(ConnectBlock::ArBlock, 0xfe)),
                ),
            },
            Some(Opnum::Write) => match WriteReq::parse(blocks) {
                Ok(req) => {
                    let records = copy_records(&req);
                    Parsed::Ask(Event::WriteReq(req), PendingRequest::Write(records))
                },
                Err(e) => refuse(error_status(&e, PnioStatus::write_index_unsupported())),
            },
            Some(Opnum::Control) => match ControlBlock::parse(blocks) {
                Ok(cb) => if cb.command == cmd::PRM_END {
                    Parsed::Ask(Event::PrmEndReq(cb), PendingRequest::Other)
                } else {
                    refuse(PnioStatus::control_wrong_state())
                },
                Err(e) => refuse(error_status(&e, PnioStatus::control_wrong_state())),
            },
            Some(Opnum::Release) => match ControlBlock::parse(blocks) {
                Ok(cb) => Parsed::Ask(Event::ReleaseReq(cb), PendingRequest::Other),
                Err(e) => refuse(error_status(&e, PnioStatus::control_wrong_state())),
            },
            Some(Opnum::Read) => self.handle_read(blocks, true, ar_uuid),
            Some(Opnum::ReadImplicit) => self.handle_read(blocks, false, ar_uuid),
            None => refuse(PnioStatus::service_unsupported()),
        }
    }

    /// Build, cache and send a response.
    fn answer(&mut self, ctx: &RespondCtx, status: PnioStatus, blocks: &[u8], output: &mut CmOutput)
        ensures
            final(self)@ == old(self)@.caching(*ctx, ctx.response(status, blocks@)),
            final(output)@ == old(output)@.sending(ctx.response(status, blocks@), ctx.from),
    {
        let pdu = build_response_pdu(ctx, status, blocks);
        self.cache_insert(ctx, &pdu);
        output.push_send(pdu, ctx.from);
    }

    fn handle_request(
        &mut self,
        h: &RpcHeader,
        body: &[u8],
        from: Endpoint,
        ar_uuid: Option<Uuid>,
    ) -> (res: Result<Handled, RpcError>)
        ensures
            handles(old(self)@, final(self)@, request_step(old(self)@, *h, body@, from, ar_uuid), res),
    {
        if h.interface != pnio_device_interface() {
            return Err(RpcError::BadInterface(h.interface));
        }
        let mut output = CmOutput::default();
        match self.cache_lookup(h.activity, h.seq_num) {
            Some(bytes) => {
                output.push_send(bytes, from);
                return Ok(Handled::Done(output));
            },
            None => {},
        }
        let (req, blocks) = match NdrRequest::parse(body, h.drep) {
            Ok(x) => x,
            Err(e) => {
                return Err(e);
            },
        };
        let ctx = RespondCtx {
            object: h.object,
            interface: h.interface,
            activity: h.activity,
            seq_num: h.seq_num,
            opnum: h.opnum,
            args_max: req.args_max,
            from,
        };
        match self.parse_request(h.opnum, blocks, ar_uuid) {
            Parsed::Answer(status, out) => {
                self.answer(&ctx, status, out.as_slice(), &mut output);
                Ok(Handled::Done(output))
            },
            Parsed::Ask(event, request) => Ok(
                Handled::Ask { event, pending: Pending { reply: Some(ctx), request } },
            ),
        }
    }

    /// Parse one incoming UDP datagram: deal with it, or say what to tell the lifecycle
    /// machine of the AR. `ar` are the parameters of the established AR, if there is one.
    ///
    /// RPC envelope errors ([`RpcHeader::parse`], [`NdrRequest::parse`]/
    /// [`NdrResponse::parse`], a foreign interface UUID) go to the caller to log and drop;
    /// PNIO-block-level parse failures are answered in-band with the appropriate PNIO status
    /// instead. A packet that is neither a request nor a response is ignored.
    pub fn handle_datagram(&mut self, buf: &[u8], from: Endpoint, ar: Option<&ArParams>) -> (res:
        Result<Handled, RpcError>)
        ensures
            handles(old(self)@, final(self)@, step_of(old(self)@, buf@, from, uuid_of(ar)), res),
    {
        let h = match RpcHeader::parse(buf) {
            Ok(h) => h,
            Err(e) => {
                return Err(e);
            },
        };
        let body = slice_subrange(buf, RpcHeader::LEN, buf.len());
        assert(body@ =~= buf@.skip(80));
        if h.ptype == PacketType::Response {
            // The controller answering our ApplicationReady call.
            return match NdrResponse::parse(body, h.drep) {
                Ok((n, _blocks)) => Ok(
                    Handled::Ask {
                        event: Event::AppReadyRsp { status: PnioStatus(n.status) },
                        pending: Pending { reply: None, request: PendingRequest::Other },
                    },
                ),
                Err(e) => Err(e),
            };
        }
        if h.ptype != PacketType::Request {
            return Ok(Handled::Done(CmOutput::default()));
        }
        let ar_uuid = match ar {
            Some(p) => Some(p.ar_uuid),
            None => None,
        };
        self.handle_request(&h, body, from, ar_uuid)
    }
}

/// Whether a datagram that calls for `step` has been handled: what is returned, and how the
/// state moves from `before` to `after`.
pub open spec fn handles(
    before: CmView,
    after: CmView,
    step: Step,
    res: Result<Handled, RpcError>,
) -> bool {
    match step {
        Step::Refuse(e) => res == Err::<Handled, _>(e) && after == before,
        Step::Ignore => {
            &&& res matches Ok(Handled::Done(out)) && out@ == OutputView::nothing()
            &&& after == before
        },
        Step::Resend(pdu, to) => {
            &&& res matches Ok(Handled::Done(out)) && out@ == OutputView::nothing().sending(pdu, to)
            &&& after == before
        },
        Step::Answer(ctx, status, blocks) => {
            &&& res matches Ok(Handled::Done(out)) && out@ == OutputView::nothing().sending(
                ctx.response(status, blocks),
                ctx.from,
            )
            &&& after == before.caching(ctx, ctx.response(status, blocks))
        },
        Step::Request(ctx, blocks) => {
            &&& res matches Ok(Handled::Ask { event, pending }) && event.asks(ctx.opnum, blocks)
                && pending.reply == Some(ctx) && pending.fits(event)
            &&& after == before
        },
        Step::Response(status) => {
            &&& res matches Ok(Handled::Ask { event, pending }) && event == (Event::AppReadyRsp {
                status,
            }) && pending.reply is None && pending.request is Other
            &&& after == before
        },
    }
}


// ---------------------------------------------------------------------------------
// Actions
// ---------------------------------------------------------------------------------

/// Whether an action reports a new AR.
pub open spec fn is_connection(a: ar::ActionView) -> bool {
    a matches ar::ActionView::Notify { state, .. } && state == ArState::Connected
}

/// Whether an action answers without error.
pub open spec fn is_acceptance(a: ar::ActionView) -> bool {
    a matches ar::ActionView::Respond { status, .. } && status.is_ok()
}

/// Whether the lifecycle machine established an AR: the nominal path, or a takeover by a
/// controller that connects anew.
pub open spec fn establishes(actions: Seq<ar::ActionView>) -> bool {
    exists|i: int| 0 <= i < actions.len() && #[trigger] is_connection(actions[i])
}

/// Whether the lifecycle machine answers without error.
pub open spec fn accepts(actions: Seq<ar::ActionView>) -> bool {
    exists|i: int| 0 <= i < actions.len() && #[trigger] is_acceptance(actions[i])
}

/// The number of calls to the controller.
pub open spec fn calls(actions: Seq<ar::ActionView>) -> nat
    decreases actions.len(),
{
    if actions.len() == 0 {
        0
    } else {
        calls(actions.drop_last()) + if actions.last() is CallController {
            1nat
        } else {
            0nat
        }
    }
}

/// The state once a Connect has been noted. Only one that establishes an AR moves the
/// controller's address and drops the outstanding call.
pub open spec fn noted(cm: CmView, pending: Pending, actions: Seq<ar::ActionView>) -> CmView {
    match pending.reply {
        Some(ctx) => if pending.request is Connect && establishes(actions) {
            CmView {
                controller_addr: Some(ctx.from.at_port(PNIO_UDP_PORT)),
                current_call_seq: None,
                ..cm
            }
        } else {
            cm
        },
        None => cm,
    }
}

/// Whether the calls among `actions` can be placed: there is an AR, its controller's
/// address and, for a retry, the call to repeat; new ones do not exhaust the numbers.
pub open spec fn ready(
    cm: CmView,
    actions: Seq<ar::ActionView>,
    is_new: bool,
    established: bool,
) -> bool {
    &&& calls(actions) > 0 ==> {
        &&& established
        &&& cm.controller_addr is Some
        &&& is_new || cm.current_call_seq is Some
    }
    &&& is_new ==> cm.call_seq + calls(actions) <= u32::MAX
}

/// The state and the effects of a step.
pub struct Applied {
    pub cm: CmView,
    pub output: OutputView,
}

impl Applied {
    /// One action more: a response is cached and sent, a call placed, a state reported. With
    /// nothing to respond to, a response is dropped.
    pub open spec fn applying(
        self,
        action: ar::ActionView,
        reply: Option<RespondCtx>,
        is_new: bool,
        object: Uuid,
    ) -> Applied {
        match action {
            ar::ActionView::Respond { status, blocks } => match reply {
                Some(ctx) => Applied {
                    cm: self.cm.caching(ctx, ctx.response(status, blocks)),
                    output: self.output.sending(ctx.response(status, blocks), ctx.from),
                },
                None => self,
            },
            ar::ActionView::CallController { blocks } => Applied {
                cm: self.cm.calling(is_new),
                output: self.output.sending(
                    call_bytes(
                        object,
                        self.cm.activity_seed,
                        self.cm.next_seq(is_new),
                        blocks,
                    ),
                    self.cm.controller_addr->0,
                ),
            },
            ar::ActionView::Notify { state, reason } => Applied {
                cm: self.cm,
                output: self.output.reporting(state, reason),
            },
        }
    }
}

/// The state and the effects of carrying out `actions` in order.
pub open spec fn applied(
    cm: CmView,
    actions: Seq<ar::ActionView>,
    reply: Option<RespondCtx>,
    is_new: bool,
    object: Uuid,
) -> Applied
    decreases actions.len(),
{
    if actions.len() == 0 {
        Applied { cm, output: OutputView::nothing() }
    } else {
        applied(cm, actions.drop_last(), reply, is_new, object).applying(
            actions.last(),
            reply,
            is_new,
            object,
        )
    }
}

/// The object of the controller of an AR.
pub open spec fn object_of(ar: Option<&ArParams>) -> Uuid {
    match ar {
        Some(p) => p.initiator_object_uuid,
        None => Uuid::nil(),
    }
}

/// The body of an I&M record once `records` are written over `before`: the last of them that
/// is written to a known submodule and has the record's shape.
pub open spec fn written(
    records: Seq<RecordView>,
    model: DeviceModel,
    index: u16,
    before: Seq<u8>,
) -> Seq<u8>
    decreases records.len(),
{
    if records.len() == 0 {
        before
    } else {
        let r = records.last();
        if r.index == index && model.spec_find(r.slot, r.subslot) is Some && im::record_fault(
            index,
            r.data,
        ) is None {
            BlockHeader::spec_parse(r.data)->Ok_0.1
        } else {
            written(records.drop_last(), model, index, before)
        }
    }
}

/// What carrying out actions keeps: the calls' addresses and numbers move only by calls.
proof fn lemma_applied_keeps(
    cm: CmView,
    actions: Seq<ar::ActionView>,
    reply: Option<RespondCtx>,
    is_new: bool,
    object: Uuid,
)
    requires
        is_new ==> cm.call_seq + calls(actions) <= u32::MAX,
    ensures
        ({
            let after = applied(cm, actions, reply, is_new, object).cm;
            &&& after.controller_addr == cm.controller_addr
            &&& after.activity_seed == cm.activity_seed
            &&& after.model == cm.model
            &&& after.im0 == cm.im0
            &&& after.im == cm.im
            &&& after.call_seq == cm.call_seq + if is_new {
                calls(actions)
            } else {
                0
            }
            &&& calls(actions) == 0 || !is_new ==> after.current_call_seq == cm.current_call_seq
            &&& calls(actions) > 0 && is_new ==> after.current_call_seq == Some(
                (after.call_seq - 1) as u32,
            )
        }),
    decreases actions.len(),
{
    if actions.len() > 0 {
        lemma_applied_keeps(cm, actions.drop_last(), reply, is_new, object);
    }
}

proof fn lemma_calls_prefix(actions: Seq<ar::ActionView>, i: int)
    requires
        0 <= i < actions.len(),
    ensures
        calls(actions.take(i)) + (if actions[i] is CallController {
            1nat
        } else {
            0nat
        }) == calls(actions.take(i + 1)),
        calls(actions.take(i + 1)) <= calls(actions),
    decreases actions.len() - i,
{
    assert(actions.take(i + 1).drop_last() =~= actions.take(i));
    assert(actions.take(i + 1).last() == actions[i]);
    if i + 1 < actions.len() {
        lemma_calls_prefix(actions, i + 1);
    } else {
        assert(actions.take(i + 1) =~= actions);
    }
}

fn count_calls(actions: &Vec<Action>) -> (n: usize)
    ensures
        n == calls(ar::action_views(actions@)),
{
    let ghost views = ar::action_views(actions@);
    let mut n: usize = 0;
    let mut i: usize = 0;
    assert(views.take(0) =~= Seq::empty());
    while i < actions.len()
        invariant
            i <= actions@.len(),
            n <= i,
            views == ar::action_views(actions@),
            n == calls(views.take(i as int)),
        decreases actions@.len() - i,
    {
        proof {
            lemma_calls_prefix(views, i as int);
            assert(views[i as int] == actions@[i as int]@);
        }
        match &actions[i] {
            Action::CallController { .. } => {
                n = n + 1;
            },
            _ => {},
        }
        i = i + 1;
    }
    assert(views.take(i as int) =~= views);
    n
}

fn establishes_ar(actions: &Vec<Action>) -> (r: bool)
    ensures
        r == establishes(ar::action_views(actions@)),
{
    let ghost views = ar::action_views(actions@);
    let mut i: usize = 0;
    while i < actions.len()
        invariant
            i <= actions@.len(),
            views == ar::action_views(actions@),
            forall|k: int|
                0 <= k < i ==> !#[trigger] is_connection(views[k]),
        decreases actions@.len() - i,
    {
        assert(views[i as int] == actions@[i as int]@);
        match &actions[i] {
            Action::Notify { state, .. } => {
                if *state == ArState::Connected {
                    assert(is_connection(views[i as int]));
                    return true;
                }
            },
            _ => {},
        }
        i = i + 1;
    }
    false
}

fn accepts_request(actions: &Vec<Action>) -> (r: bool)
    ensures
        r == accepts(ar::action_views(actions@)),
{
    let ghost views = ar::action_views(actions@);
    let mut i: usize = 0;
    while i < actions.len()
        invariant
            i <= actions@.len(),
            views == ar::action_views(actions@),
            forall|k: int|
                0 <= k < i ==> !#[trigger] is_acceptance(views[k]),
        decreases actions@.len() - i,
    {
        assert(views[i as int] == actions@[i as int]@);
        match &actions[i] {
            Action::Respond { status, .. } => {
                if status.is_ok() {
                    assert(is_acceptance(views[i as int]));
                    return true;
                }
            },
            _ => {},
        }
        i = i + 1;
    }
    false
}

impl Cm {
    /// Whether the calls among `actions` can be placed, for the AR `ar`: as new calls
    /// (`is_new`), or as retries of the outstanding one.
    fn can_place(&self, actions: &Vec<Action>, is_new: bool, established: bool) -> (r: bool)
        ensures
            r == ready(self@, ar::action_views(actions@), is_new, established),
    {
        let n: usize = count_calls(actions);
        let placeable = n == 0 || (established && self.controller_addr.is_some() && (is_new
            || self.current_call_seq.is_some()));
        placeable && (!is_new || n as u64 <= (u32::MAX - self.call_seq) as u64)
    }

    /// Build the ApplicationReady request PDU: a fresh call (`is_new`) advances `call_seq`
    /// and remembers it as the outstanding call; a retry reuses it unchanged.
    fn build_call_pdu(&mut self, blocks: &[u8], is_new: bool, object: Uuid) -> (pdu: Vec<u8>)
        requires
            is_new ==> old(self)@.call_seq < u32::MAX,
            !is_new ==> old(self)@.current_call_seq is Some,
        ensures
            pdu@ == call_bytes(
                object,
                old(self)@.activity_seed,
                old(self)@.next_seq(is_new),
                blocks@,
            ),
            final(self)@ == old(self)@.calling(is_new),
    {
        let seq_num: u32 = if is_new {
            let seq_num: u32 = self.call_seq;
            self.call_seq = self.call_seq + 1;
            self.current_call_seq = Some(seq_num);
            seq_num
        } else {
            match self.current_call_seq {
                Some(seq_num) => seq_num,
                None => 0,
            }
        };
        build_request_pdu(object, self.activity_seed, seq_num, blocks)
    }

    /// Carry out a batch of actions: build+cache a Response PDU for each `Respond`, build a
    /// Request PDU to the controller for each `CallController` (`is_new` selects a fresh
    /// call sequence number vs. reusing the outstanding one, for retries), and forward
    /// `Notify`s unchanged.
    fn apply(&mut self, actions: &Vec<Action>, reply: Option<RespondCtx>, is_new: bool, ar: Option<
        &ArParams,
    >) -> (output: CmOutput)
        requires
            ready(
                old(self)@,
                ar::action_views(actions@),
                is_new,
                ar is Some,
            ),
        ensures
            ({
                let done = applied(
                    old(self)@,
                    ar::action_views(actions@),
                    reply,
                    is_new,
                    object_of(ar),
                );
                final(self)@ == done.cm && output@ == done.output
            }),
    {
        let ghost views = ar::action_views(actions@);
        let ghost before = self@;
        let object = match ar {
            Some(p) => p.initiator_object_uuid,
            None => Uuid::nil(),
        };
        let mut output = CmOutput::default();
        let mut i: usize = 0;
        assert(views.take(0) =~= Seq::empty());
        while i < actions.len()
            invariant
                i <= actions@.len(),
                views == ar::action_views(actions@),
                ready(before, views, is_new, ar is Some),
                object == object_of(ar),
                self@ == applied(before, views.take(i as int), reply, is_new, object).cm,
                output@ == applied(before, views.take(i as int), reply, is_new, object).output,
            decreases actions@.len() - i,
        {
            proof {
                assert(views.take(i + 1).drop_last() =~= views.take(i as int));
                assert(views.take(i + 1).last() == views[i as int]);
                assert(views[i as int] == actions@[i as int]@);
                lemma_calls_prefix(views, i as int);
                lemma_applied_keeps(before, views.take(i as int), reply, is_new, object);
            }
            match &actions[i] {
                Action::Respond { status, blocks } => match &reply {
                    Some(ctx) => {
                        self.answer(ctx, *status, blocks.as_slice(), &mut output);
                    },
                    None => {},
                },
                Action::CallController { blocks } => {
                    let to = match self.controller_addr {
                        Some(to) => to,
                        None => Endpoint::V4 { ip: 0, port: 0 },
                    };
                    assert(Some(to) == self@.controller_addr);
                    let pdu = self.build_call_pdu(blocks.as_slice(), is_new, object);
                    output.push_send(pdu, to);
                },
                Action::Notify { state, reason } => {
                    output.push_notify(*state, *reason);
                },
            }
            i = i + 1;
        }
        assert(views.take(i as int) =~= views);
        output
    }

    /// Note a Connect that established an AR: the controller's address is the request's
    /// source IP at the well-known port, and the outstanding call is dropped. `call_seq` is
    /// NOT reset: it is scoped to `activity_seed`, which is fixed for the device's lifetime,
    /// and a controller discards a `(activity, seq_num)` pair it has already completed.
    fn note(&mut self, pending: &Pending, actions: &Vec<Action>)
        ensures
            final(self)@ == noted(
                old(self)@,
                *pending,
                ar::action_views(actions@),
            ),
    {
        match (&pending.request, &pending.reply) {
            (PendingRequest::Connect, Some(ctx)) => {
                if establishes_ar(actions) {
                    self.controller_addr = Some(ctx.from.at_port(PNIO_UDP_PORT));
                    self.current_call_seq = None;
                }
            },
            _ => {},
        }
        assert(self@.cache =~= old(self)@.cache);
    }

    /// Write the I&M1-3 records of an accepted Write; the others are the application's. A
    /// record that is refused is skipped.
    fn write_records(&mut self, records: &Vec<Record>)
        ensures
            final(self)@ == old(self)@.with_im(final(self)@.im),
            forall|index: u16|
                #![trigger final(self)@.im.body(index)]
                final(self)@.im.body(index) == written(
                    records@.map_values(|r: Record| r@),
                    old(self)@.model,
                    index,
                    old(self)@.im.body(index),
                ),
    {
        let ghost views = records@.map_values(|r: Record| r@);
        let ghost before = self@;
        let mut i: usize = 0;
        assert(views.take(0) =~= Seq::empty());
        while i < records.len()
            invariant
                i <= records@.len(),
                views == records@.map_values(|r: Record| r@),
                self@ == before.with_im(self@.im),
                forall|index: u16|
                    #![trigger self@.im.body(index)]
                    self@.im.body(index) == written(
                        views.take(i as int),
                        before.model,
                        index,
                        before.im.body(index),
                    ),
            decreases records@.len() - i,
        {
            let r = &records[i];
            proof {
                assert(views.take(i + 1).drop_last() =~= views.take(i as int));
                assert(views.take(i + 1).last() == r@);
            }
            let ghost held = self@.im;
            if INDEX_IM1 <= r.index && r.index <= INDEX_IM3 {
                let _status = write_im_record(r, &self.model, &mut self.im);
            } else {
                assert(im::record_fault(r.index, r.data@) is Some);
            }
            assert forall|index: u16|
                #![trigger self@.im.body(index)]
                self@.im.body(index) == written(
                    views.take(i + 1),
                    before.model,
                    index,
                    before.im.body(index),
                ) by {
                assert(held.body(index) == written(
                    views.take(i as int),
                    before.model,
                    index,
                    before.im.body(index),
                ));
            }
            assert(self@.cache =~= before.cache);
            i = i + 1;
        }
        assert(views.take(i as int) =~= views);
    }

    /// Whether [`Cm::resume`] can carry out `actions`: every call among them has an AR, the
    /// address of its controller and a number.
    pub fn can_resume(&self, pending: &Pending, actions: &Vec<Action>, ar: Option<&ArParams>) -> (r:
        bool)
        ensures
            r == ready(
                noted(self@, *pending, ar::action_views(actions@)),
                ar::action_views(actions@),
                pending.reply is Some,
                ar is Some,
            ),
    {
        let is_new = pending.reply.is_some();
        let connects = match (&pending.request, &pending.reply) {
            (PendingRequest::Connect, Some(_)) => establishes_ar(actions),
            _ => false,
        };
        if connects {
            let n: usize = count_calls(actions);
            (n == 0 || ar.is_some()) && n as u64 <= (u32::MAX - self.call_seq) as u64
        } else {
            self.can_place(actions, is_new, ar.is_some())
        }
    }

    /// Carry out what the lifecycle machine asked for when told of a datagram: note a
    /// Connect that established an AR, write the I&M records of an accepted Write, then
    /// respond, call and notify. `ar` are the parameters of the AR as the machine left it.
    ///
    /// A stray Connect from another host while an AR exists, or a rejected one, establishes
    /// nothing and does not redirect the real AR's outgoing calls.
    pub fn resume(&mut self, pending: &Pending, actions: &Vec<Action>, ar: Option<&ArParams>) -> (output:
        CmOutput)
        requires
            ready(
                noted(old(self)@, *pending, ar::action_views(actions@)),
                ar::action_views(actions@),
                pending.reply is Some,
                ar is Some,
            ),
        ensures
            ({
                let views = ar::action_views(actions@);
                let done = applied(
                    noted(old(self)@, *pending, views).with_im(final(self)@.im),
                    views,
                    pending.reply,
                    pending.reply is Some,
                    object_of(ar),
                );
                &&& final(self)@ == done.cm
                &&& output@ == done.output
                &&& forall|index: u16|
                    #![trigger final(self)@.im.body(index)]
                    final(self)@.im.body(index) == if accepts(views) {
                        written(
                            pending.record_views(),
                            old(self)@.model,
                            index,
                            old(self)@.im.body(index),
                        )
                    } else {
                        old(self)@.im.body(index)
                    }
            }),
    {
        let ghost views = ar::action_views(actions@);
        self.note(pending, actions);
        let ghost held = self@;
        match &pending.request {
            PendingRequest::Write(records) => {
                if accepts_request(actions) {
                    self.write_records(records);
                }
            },
            _ => {},
        }
        let ghost middle = self@;
        assert(middle == held.with_im(middle.im));
        let output = self.apply(actions, pending.reply, pending.reply.is_some(), ar);
        proof {
            lemma_applied_keeps(
                middle,
                views,
                pending.reply,
                pending.reply is Some,
                object_of(ar),
            );
        }
        output
    }

    /// Whether [`Cm::tick`] or [`Cm::abort`] can carry out `actions`.
    pub fn can_retry(&self, actions: &Vec<Action>, ar: Option<&ArParams>) -> (r: bool)
        ensures
            r == ready(self@, ar::action_views(actions@), false, ar is Some),
    {
        self.can_place(actions, false, ar.is_some())
    }

    /// Carry out what the lifecycle machine asked for when told [`Event::Tick`]: a call is a
    /// retry of the outstanding one.
    pub fn tick(&mut self, actions: &Vec<Action>, ar: Option<&ArParams>) -> (output: CmOutput)
        requires
            ready(old(self)@, ar::action_views(actions@), false, ar is Some),
        ensures
            ({
                let done = applied(
                    old(self)@,
                    ar::action_views(actions@),
                    None,
                    false,
                    object_of(ar),
                );
                final(self)@ == done.cm && output@ == done.output
            }),
    {
        self.apply(actions, None, false, ar)
    }

    /// Carry out what the lifecycle machine asked for when told [`Event::Abort`], exactly
    /// like [`Cm::tick`] does.
    pub fn abort(&mut self, actions: &Vec<Action>, ar: Option<&ArParams>) -> (output: CmOutput)
        requires
            ready(old(self)@, ar::action_views(actions@), false, ar is Some),
        ensures
            ({
                let done = applied(
                    old(self)@,
                    ar::action_views(actions@),
                    None,
                    false,
                    object_of(ar),
                );
                final(self)@ == done.cm && output@ == done.output
            }),
    {
        self.apply(actions, None, false, ar)
    }
}


// ---------------------------------------------------------------------------------
// Laws
// ---------------------------------------------------------------------------------

proof fn lemma_response_reads_back(h: RpcHeader, n: NdrResponse, out: Seq<u8>)
    requires
        h.frag_num == 0,
        !crate::rpc::header::is_fragment(h.flags1),
        n.args_len == n.actual_count,
        n.offset == 0,
        n.actual_count == out.len(),
    ensures
        ({
            let pdu = h.spec_bytes() + n.spec_bytes(Drep::big()) + out;
            &&& RpcHeader::spec_parse(pdu) == Ok::<_, RpcError>(h)
            &&& NdrResponse::spec_parse(pdu.skip(80), Drep::big()) == Ok::<_, RpcError>((n, out))
        }),
{
    let body = n.spec_bytes(Drep::big()) + out;
    let pdu = h.spec_bytes() + n.spec_bytes(Drep::big()) + out;
    crate::rpc::header::rpc_header_round_trip(h, body);
    crate::rpc::ndr::ndr_response_round_trip(n, Drep::big(), out, Seq::empty());
    lemma_three_parts(h.spec_bytes(), n.spec_bytes(Drep::big()), out);
}

proof fn lemma_three_parts(a: Seq<u8>, b: Seq<u8>, c: Seq<u8>)
    ensures
        a + b + c == a + (b + c),
        (a + b + c).skip(a.len() as int) == b + c,
        b + c + Seq::<u8>::empty() == b + c,
{
    assert(a + b + c =~= a + (b + c));
    assert((a + b + c).skip(a.len() as int) =~= b + c);
    assert(b + c + Seq::<u8>::empty() =~= b + c);
}

/// A response reads back: it echoes the request's identifiers, carries the status, and an
/// OK one carries its blocks, an error none.
pub proof fn responses_read_back(ctx: RespondCtx, status: PnioStatus, blocks: Seq<u8>)
    requires
        blocks.len() <= u32::MAX,
    ensures
        ({
            let pdu = ctx.response(status, blocks);
            let out = if status.is_ok() {
                blocks
            } else {
                Seq::empty()
            };
            &&& RpcHeader::spec_parse(pdu) == Ok::<_, RpcError>(ctx.response_header(out.len()))
            &&& NdrResponse::spec_parse(pdu.skip(80), Drep::big()) == Ok::<_, RpcError>(
                (ctx.response_ndr(status, out.len()), out),
            )
        }),
{
    let out = if status.is_ok() {
        blocks
    } else {
        Seq::empty()
    };
    assert(!crate::rpc::header::is_fragment(0x28));
    lemma_response_reads_back(
        ctx.response_header(out.len()),
        ctx.response_ndr(status, out.len()),
        out,
    );
}

/// A request whose response has been cached, sent again, is answered with the identical
/// bytes: nothing is asked of the lifecycle machine, and the state stays as it is.
pub proof fn a_retransmission_gets_the_same_response(
    cm: CmView,
    ctx: RespondCtx,
    pdu: Seq<u8>,
    h: RpcHeader,
    body: Seq<u8>,
    from: Endpoint,
    ar_uuid: Option<Uuid>,
)
    requires
        lookup(cm.cache, ctx.key()) is None,
        h.interface == pnio_device_interface(),
        (h.activity, h.seq_num) == ctx.key(),
    ensures
        request_step(cm.caching(ctx, pdu), h, body, from, ar_uuid) == Step::Resend(pdu, from),
{
    let cache = inserted(cm.cache, ctx.key(), pdu);
    lemma_absent(cm.cache, ctx.key());
    assert forall|j: int| 0 <= j < cache.len() - 1 implies (#[trigger] cache[j]).0 != ctx.key() by {
        if cm.cache.len() >= CACHE_CAPACITY {
            assert(cache[j] == cm.cache[j + 1]);
        } else {
            assert(cache[j] == cm.cache[j]);
        }
    }
    lemma_lookup(cache, ctx.key(), cache.len() - 1);
}

/// The cache once these answers have been added, one after the other.
pub open spec fn inserted_all(
    cache: Seq<((Uuid, u32), Seq<u8>)>,
    answers: Seq<((Uuid, u32), Seq<u8>)>,
) -> Seq<((Uuid, u32), Seq<u8>)>
    decreases answers.len(),
{
    if answers.len() == 0 {
        cache
    } else {
        let before = inserted_all(cache, answers.drop_last());
        inserted(before, answers.last().0, answers.last().1)
    }
}

/// An answer stays where its successors leave it: one place nearer to the oldest with each,
/// counted from the youngest.
proof fn lemma_answer_stays(
    cache: Seq<((Uuid, u32), Seq<u8>)>,
    key: (Uuid, u32),
    pdu: Seq<u8>,
    others: Seq<((Uuid, u32), Seq<u8>)>,
)
    requires
        cache.len() <= CACHE_CAPACITY,
        lookup(cache, key) is None,
        others.len() < CACHE_CAPACITY,
        forall|i: int| 0 <= i < others.len() ==> (#[trigger] others[i]).0 != key,
    ensures
        ({
            let after = inserted_all(inserted(cache, key, pdu), others);
            let i = after.len() - 1 - others.len();
            &&& after.len() <= CACHE_CAPACITY
            &&& after.len() >= others.len() + 1
            &&& after[i] == (key, pdu)
            &&& forall|j: int| 0 <= j < i ==> (#[trigger] after[j]).0 != key
        }),
    decreases others.len(),
{
    if others.len() == 0 {
        let after = inserted(cache, key, pdu);
        lemma_absent(cache, key);
        assert forall|j: int| 0 <= j < after.len() - 1 implies (#[trigger] after[j]).0 != key by {
            if cache.len() >= CACHE_CAPACITY {
                assert(after[j] == cache[j + 1]);
            } else {
                assert(after[j] == cache[j]);
            }
        }
    } else {
        let rest = others.drop_last();
        assert forall|i: int| 0 <= i < rest.len() implies (#[trigger] rest[i]).0 != key by {
            assert(rest[i] == others[i]);
        }
        lemma_answer_stays(cache, key, pdu, rest);
        let before = inserted_all(inserted(cache, key, pdu), rest);
        let after = inserted_all(inserted(cache, key, pdu), others);
        let i = after.len() - 1 - others.len();
        assert forall|j: int| 0 <= j < i implies (#[trigger] after[j]).0 != key by {
            if before.len() >= CACHE_CAPACITY {
                assert(after[j] == before[j + 1]);
            } else {
                assert(after[j] == before[j]);
            }
        }
    }
}

/// A response is kept for retransmission until as many others as the cache holds have been
/// cached: with fewer since, whoever they went to, the request sent again is answered with
/// the identical bytes.
pub proof fn a_response_outlives_a_few_others(
    cm: CmView,
    ctx: RespondCtx,
    pdu: Seq<u8>,
    others: Seq<((Uuid, u32), Seq<u8>)>,
    later: CmView,
    h: RpcHeader,
    body: Seq<u8>,
    from: Endpoint,
    ar_uuid: Option<Uuid>,
)
    requires
        cm.cache.len() <= CACHE_CAPACITY,
        lookup(cm.cache, ctx.key()) is None,
        others.len() < CACHE_CAPACITY,
        forall|i: int| 0 <= i < others.len() ==> (#[trigger] others[i]).0 != ctx.key(),
        later.cache == inserted_all(cm.caching(ctx, pdu).cache, others),
        h.interface == pnio_device_interface(),
        (h.activity, h.seq_num) == ctx.key(),
    ensures
        request_step(later, h, body, from, ar_uuid) == Step::Resend(pdu, from),
{
    lemma_answer_stays(cm.cache, ctx.key(), pdu, others);
    lemma_lookup(later.cache, ctx.key(), later.cache.len() - 1 - others.len());
}

proof fn lemma_absent(cache: Seq<((Uuid, u32), Seq<u8>)>, key: (Uuid, u32))
    requires
        lookup(cache, key) is None,
    ensures
        forall|j: int| 0 <= j < cache.len() ==> (#[trigger] cache[j]).0 != key,
    decreases cache.len(),
{
    if cache.len() > 0 {
        lemma_absent(cache.skip(1), key);
        assert forall|j: int| 0 <= j < cache.len() implies (#[trigger] cache[j]).0 != key by {
            if j > 0 {
                assert(cache[j] == cache.skip(1)[j - 1]);
            }
        }
    }
}

/// The cache never holds more than its capacity, whatever is carried out.
pub proof fn the_cache_is_bounded(
    cm: CmView,
    actions: Seq<ar::ActionView>,
    reply: Option<RespondCtx>,
    is_new: bool,
    object: Uuid,
)
    requires
        cm.cache.len() <= CACHE_CAPACITY,
    ensures
        applied(cm, actions, reply, is_new, object).cm.cache.len() <= CACHE_CAPACITY,
    decreases actions.len(),
{
    if actions.len() > 0 {
        the_cache_is_bounded(cm, actions.drop_last(), reply, is_new, object);
    }
}

/// Only a Connect that establishes an AR moves the address that calls go to.
pub proof fn only_an_established_connect_redirects(
    cm: CmView,
    pending: Pending,
    actions: Seq<ar::ActionView>,
    is_new: bool,
    object: Uuid,
)
    requires
        is_new ==> cm.call_seq + calls(actions) <= u32::MAX,
        !(pending.request is Connect && establishes(actions)),
    ensures
        applied(
            noted(cm, pending, actions),
            actions,
            pending.reply,
            is_new,
            object,
        ).cm.controller_addr == cm.controller_addr,
{
    lemma_applied_keeps(noted(cm, pending, actions), actions, pending.reply, is_new, object);
}

/// Call numbers are never taken back: each new call takes the next one, across a Connect
/// over the AR too, and a retry takes none.
pub proof fn call_numbers_keep_counting(
    cm: CmView,
    pending: Pending,
    actions: Seq<ar::ActionView>,
    is_new: bool,
    object: Uuid,
)
    requires
        is_new ==> cm.call_seq + calls(actions) <= u32::MAX,
    ensures
        applied(
            noted(cm, pending, actions),
            actions,
            pending.reply,
            is_new,
            object,
        ).cm.call_seq == cm.call_seq + if is_new {
            calls(actions)
        } else {
            0
        },
{
    lemma_applied_keeps(noted(cm, pending, actions), actions, pending.reply, is_new, object);
}

/// A retry repeats the outstanding call: the same bytes, to the same address.
pub proof fn a_retry_repeats_the_call(cm: CmView, blocks: Seq<u8>, object: Uuid)
    requires
        cm.controller_addr is Some,
        cm.call_seq < u32::MAX,
    ensures
        ({
            let call = seq![ar::ActionView::CallController { blocks }];
            let first = applied(cm, call, None, true, object);
            let again = applied(first.cm, call, None, false, object);
            again.output == first.output && again.cm == first.cm
        }),
{
    let call = seq![ar::ActionView::CallController { blocks }];
    let first = applied(cm, call, None, true, object);
    reveal_with_fuel(applied, 2);
    assert(call.drop_last() =~= Seq::empty());
}

/// Whether a record takes effect when it is written: it has the shape of one of the stored
/// records and goes to a known submodule.
pub open spec fn takes_effect(r: RecordView, model: DeviceModel) -> bool {
    model.spec_find(r.slot, r.subslot) is Some && im::record_fault(r.index, r.data) is None
}

proof fn lemma_last_effect(
    records: Seq<RecordView>,
    model: DeviceModel,
    k: int,
    before: Seq<u8>,
)
    requires
        0 <= k < records.len(),
        takes_effect(records[k], model),
        forall|j: int|
            k < j < records.len() && (#[trigger] records[j]).index == records[k].index
                ==> !takes_effect(records[j], model),
    ensures
        written(records, model, records[k].index, before) == BlockHeader::spec_parse(
            records[k].data,
        )->Ok_0.1,
    decreases records.len(),
{
    if k < records.len() - 1 {
        let less = records.drop_last();
        assert(less[k] == records[k]);
        assert(records[records.len() - 1] == records.last());
        lemma_last_effect(less, model, k, before);
    }
}

/// What a Write wrote, a Read gives back: once a Write with `records` is carried out, a Read
/// of the record `k`, from any known submodule, is served what that record held (as much of
/// it as its block counts), unless a later record of the same Write took its place.
pub proof fn a_written_record_is_read_back(
    records: Seq<RecordView>,
    model: DeviceModel,
    k: int,
    before: Seq<u8>,
    im0: Im0,
    im: ImStore,
    req: ReadReq,
)
    requires
        0 <= k < records.len(),
        takes_effect(records[k], model),
        forall|j: int|
            k < j < records.len() && (#[trigger] records[j]).index == records[k].index
                ==> !takes_effect(records[j], model),
        im.body(records[k].index) == written(records, model, records[k].index, before),
        req.index == records[k].index,
        model.spec_find(req.slot, req.subslot) is Some,
    ensures
        ({
            let (_, len) = im::record_shape(records[k].index)->0;
            records::served_record(req, model, im0, im) == Some(records[k].data.take(6 + len))
        }),
{
    lemma_last_effect(records, model, k, before);
    im::read_gives_back_the_written_record(records[k].index, records[k].data);
}

/// A response names the request that it answers, and carries the status and as many bytes as
/// it says: those of the blocks where there is no error, else none. The capacity is the one
/// that the caller offered.
pub proof fn responses_name_their_request(ctx: RespondCtx, status: PnioStatus, len: nat)
    requires
        len <= 0xFFEB,
    ensures
        ({
            let (h, n) = (ctx.response_header(len), ctx.response_ndr(status, len));
            &&& h.ptype == PacketType::Response
            &&& h.flags1 == 0x28 && h.flags2 == 0 && !h.drep.little_endian
            &&& h.object == ctx.object && h.interface == ctx.interface
            &&& h.activity == ctx.activity && h.seq_num == ctx.seq_num && h.opnum == ctx.opnum
            &&& h.if_version == 1 && h.server_boot == 0
            &&& h.ihint == 0xFFFF && h.ahint == 0xFFFF
            &&& h.frag_len == 20 + len && h.frag_num == 0
            &&& h.serial_hi == 0 && h.serial_lo == 0 && h.auth_proto == 0
            &&& n.status == status.0 && n.args_len == len && n.actual_count == len && n.offset == 0
            &&& n.max_count == ctx.args_max
        }),
        ctx.key() == (ctx.activity, ctx.seq_num),
{
}

/// What a response holds, byte by byte: its header in front of the five words of its body,
/// these in front of the blocks.
#[verifier::spinoff_prover]
#[verifier::rlimit(30)]
pub proof fn responses_carry_their_blocks(ctx: RespondCtx, status: PnioStatus, blocks: Seq<u8>)
    ensures
        ({
            let pdu = ctx.response(status, blocks);
            &&& status.0 == 0 ==> pdu.len() == 100 + blocks.len() && pdu.skip(100) == blocks
            &&& status.0 != 0 ==> pdu.len() == 100
            &&& pdu[0] == 4 && pdu[1] == 2
            &&& bytes::be32(pdu, 80) == status.0
        }),
{
    let out = if status.is_ok() {
        blocks
    } else {
        Seq::empty()
    };
    let h = ctx.response_header(out.len());
    let n = ctx.response_ndr(status, out.len());
    let pdu = ctx.response(status, blocks);
    crate::rpc::header::headers_stand_on_the_wire(h);
    crate::rpc::ndr::words_stand_at_their_places(
        NdrRequest { args_max: 0, args_len: 0, max_count: 0, offset: 0, actual_count: 0 },
        n,
        Drep::big(),
    );
    let w = n.spec_bytes(Drep::big());
    lemma_words_in_place(h.spec_bytes(), w, out);
    assert(bytes::be32(w, 0) == status.0);
}

/// The five words of a body read the same where they stand in the datagram.
proof fn lemma_words_in_place(head: Seq<u8>, w: Seq<u8>, blocks: Seq<u8>)
    requires
        head.len() == 80,
        w.len() == 20,
    ensures
        ({
            let pdu = head + w + blocks;
            &&& pdu.len() == 100 + blocks.len() && pdu.skip(100) == blocks
            &&& bytes::be32(pdu, 80) == bytes::be32(w, 0)
            &&& bytes::be32(pdu, 84) == bytes::be32(w, 4)
            &&& bytes::be32(pdu, 88) == bytes::be32(w, 8)
            &&& bytes::be32(pdu, 92) == bytes::be32(w, 12)
            &&& bytes::be32(pdu, 96) == bytes::be32(w, 16)
        }),
{
    let pdu = head + w + blocks;
    assert(pdu.skip(100) =~= blocks);
}

/// A call to the controller: a request of the operation Control to its interface and object, in
/// the activity of the device and under the number of the call.
pub proof fn calls_name_the_controller(object: Uuid, activity: Uuid, seq_num: u32, len: nat)
    requires
        len <= 0xFFEB,
    ensures
        ({
            let h = call_header(object, activity, seq_num, len);
            &&& h.ptype == PacketType::Request && h.opnum == 4
            &&& h.flags1 == 0x20 && h.flags2 == 0 && !h.drep.little_endian
            &&& h.object == object && h.interface == pnio_controller_interface()
            &&& h.activity == activity && h.seq_num == seq_num
            &&& h.if_version == 1 && h.server_boot == 0 && h.ihint == 0xFFFF && h.ahint == 0xFFFF
            &&& h.frag_len == 20 + len && h.frag_num == 0
        }),
{
}

/// A call carries its blocks behind its header and the five words of its body, which offer 1340
/// bytes for the answer.
pub proof fn calls_carry_their_blocks(object: Uuid, activity: Uuid, seq_num: u32, blocks: Seq<u8>)
    requires
        blocks.len() <= u32::MAX,
    ensures
        ({
            let pdu = call_bytes(object, activity, seq_num, blocks);
            &&& pdu.len() == 100 + blocks.len() && pdu.skip(100) == blocks
            &&& bytes::be32(pdu, 80) == 1340 && bytes::be32(pdu, 84) == blocks.len()
            &&& bytes::be32(pdu, 88) == 1340 && bytes::be32(pdu, 92) == 0
            &&& bytes::be32(pdu, 96) == blocks.len()
        }),
{
    let h = call_header(object, activity, seq_num, blocks.len());
    let len = blocks.len() as u32;
    let n = NdrRequest {
        args_max: 1340,
        args_len: len,
        max_count: 1340,
        offset: 0,
        actual_count: len,
    };
    let w = n.spec_bytes(Drep::big());
    let head = h.spec_bytes();
    assert(head.len() == 80) by {
        crate::rpc::header::headers_stand_on_the_wire(h);
    }
    assert(call_bytes(object, activity, seq_num, blocks) == head + w + blocks);
    lemma_call_words(n);
    lemma_words_in_place(head, w, blocks);
}

proof fn lemma_call_words(n: NdrRequest)
    ensures
        ({
            let w = n.spec_bytes(Drep::big());
            &&& w.len() == 20
            &&& bytes::be32(w, 0) == n.args_max && bytes::be32(w, 4) == n.args_len
            &&& bytes::be32(w, 8) == n.max_count && bytes::be32(w, 12) == n.offset
            &&& bytes::be32(w, 16) == n.actual_count
        }),
{
    crate::rpc::ndr::words_stand_at_their_places(
        n,
        NdrResponse { status: 0, args_len: 0, max_count: 0, offset: 0, actual_count: 0 },
        Drep::big(),
    );
}

/// Which requests the lifecycle machine is asked about: those to connect, write, end the
/// parameterization and release that can be read. Reads are answered at once, and whatever
/// cannot be read or is no operation is refused at once, each in its own words.
pub proof fn requests_are_asked_about_or_answered(
    cm: CmView,
    opnum: u16,
    blocks: Seq<u8>,
    ar_uuid: Option<Uuid>,
)
    ensures
        ({
            let answer = own_answer(cm, opnum, blocks, ar_uuid);
            let control = ControlBlock::spec_parse(blocks);
            &&& opnum == 0 ==> (answer is None <==> ConnectReq::fault(blocks) is None)
            &&& opnum == 0 && (ConnectReq::fault(blocks) matches Some(CmError::Block(_)))
                ==> answer == Some((PnioStatus(0xDB81_01FE), Seq::<u8>::empty()))
            &&& opnum == 1 ==> (answer is None <==> control is Ok)
            &&& opnum == 2 ==> answer == Some(read_answer(cm, blocks, true, ar_uuid))
            &&& opnum == 3 ==> (answer is None <==> WriteReq::spec_parse(blocks) is Ok)
            &&& opnum == 3 && answer is Some ==> answer == Some(
                (PnioStatus(0xDF80_B000), Seq::<u8>::empty()),
            )
            &&& opnum == 4 ==> (answer is None <==> control is Ok && control->Ok_0.command == 1)
            &&& (opnum == 1 || opnum == 4) && answer is Some && !(control matches Err(
                CmError::Reject(_),
            )) ==> answer == Some((PnioStatus(0xDD81_3D03), Seq::<u8>::empty()))
            &&& opnum == 5 ==> answer == Some(read_answer(cm, blocks, false, ar_uuid))
            &&& opnum > 5 ==> answer == Some((PnioStatus(0x8181_0500), Seq::<u8>::empty()))
        }),
{
}

/// A refusal with words of its own is passed on in them.
pub proof fn refusals_keep_their_words(status: PnioStatus, default: PnioStatus, e: CmError)
    ensures
        status_of(CmError::Reject(status), default) == status,
        e is Block ==> status_of(e, default) == default,
{
}

/// How a read is answered: the record where one is served and, if the read is bound to an AR,
/// the AR is the established one; else the words say what is wrong.
pub proof fn reads_are_answered_with_their_record(
    cm: CmView,
    blocks: Seq<u8>,
    check_ar: bool,
    ar_uuid: Option<Uuid>,
)
    ensures
        ({
            let (status, out) = read_answer(cm, blocks, check_ar, ar_uuid);
            match ReadReq::spec_parse(blocks) {
                Err(CmError::Block(_)) => status.0 == 0xDE80_B000 && out.len() == 0,
                Err(CmError::Reject(s)) => status == s && out.len() == 0,
                Ok(req) => {
                    let served = records::served_record(req, cm.model, cm.im0, cm.im);
                    if check_ar && !(ar_uuid is Some && ar_uuid->0 == req.ar_uuid) {
                        status.0 == 0xDE81_3D03 && out.len() == 0
                    } else {
                        match served {
                            Some(data) => status.0 == 0 && out == records::read_res_bytes(req, data),
                            None => status.0 == 0xDE80_B000 && out.len() == 0,
                        }
                    }
                },
            }
        }),
{
}

/// What a datagram is: a response is told to the lifecycle machine by its status, a request is
/// dealt with, any other packet is ignored, and what cannot be read is refused.
pub proof fn datagrams_are_told_by_their_type(
    cm: CmView,
    buf: Seq<u8>,
    from: Endpoint,
    ar_uuid: Option<Uuid>,
)
    ensures
        ({
            let step = step_of(cm, buf, from, ar_uuid);
            match RpcHeader::spec_parse(buf) {
                Err(e) => step == Step::Refuse(e),
                Ok(h) => match h.ptype {
                    PacketType::Request => step == request_step(cm, h, buf.skip(80), from, ar_uuid),
                    PacketType::Response => match NdrResponse::spec_parse(buf.skip(80), h.drep) {
                        Ok((n, _)) => step == Step::Response(PnioStatus(n.status)),
                        Err(e) => step == Step::Refuse(e),
                    },
                    _ => step is Ignore,
                },
            }
        }),
{
}

/// What a request for this device leads to: the answer names the caller's operation, activity,
/// number and capacity, and goes back to where the request came from.
pub proof fn requests_are_answered_to_their_sender(
    cm: CmView,
    h: RpcHeader,
    body: Seq<u8>,
    from: Endpoint,
    ar_uuid: Option<Uuid>,
)
    ensures
        match request_step(cm, h, body, from, ar_uuid) {
            Step::Refuse(e) => h.interface != pnio_device_interface() && e
                == RpcError::BadInterface(h.interface) || h.interface == pnio_device_interface()
                && NdrRequest::spec_parse(body, h.drep) == Err::<(NdrRequest, Seq<u8>), _>(e),
            Step::Resend(pdu, to) => to == from && lookup(cm.cache, (h.activity, h.seq_num))
                == Some(pdu),
            Step::Answer(ctx, _, _) | Step::Request(ctx, _) => {
                &&& h.interface == pnio_device_interface()
                &&& ctx.object == h.object && ctx.interface == h.interface
                &&& ctx.activity == h.activity && ctx.seq_num == h.seq_num && ctx.opnum == h.opnum
                &&& ctx.from == from
                &&& NdrRequest::spec_parse(body, h.drep) matches Ok((n, _)) && ctx.args_max
                    == n.args_max
            },
            _ => false,
        },
{
}

/// The cache keeps the last four responses, the oldest first.
pub proof fn the_cache_keeps_the_last_four(
    cache: Seq<((Uuid, u32), Seq<u8>)>,
    key: (Uuid, u32),
    pdu: Seq<u8>,
)
    ensures
        ({
            let after = inserted(cache, key, pdu);
            &&& after.last() == (key, pdu)
            &&& cache.len() < 4 ==> after.drop_last() == cache
            &&& cache.len() >= 4 ==> after.drop_last() == cache.skip(1)
        }),
{
    let after = inserted(cache, key, pdu);
    if cache.len() < 4 {
        assert(after.drop_last() =~= cache);
    } else {
        assert(after.drop_last() =~= cache.skip(1));
    }
}

/// A Connect that establishes an AR makes its sender the controller, reached at the port of
/// PNIO, and drops the call that was outstanding; the number of the next call stays.
pub proof fn an_established_connect_moves_the_controller(
    cm: CmView,
    pending: Pending,
    actions: Seq<ar::ActionView>,
    ctx: RespondCtx,
)
    requires
        pending.reply == Some(ctx),
        pending.request is Connect,
        establishes(actions),
    ensures
        ({
            let after = noted(cm, pending, actions);
            &&& after.controller_addr == Some(ctx.from.at_port(34964))
            &&& after.current_call_seq is None
            &&& after.call_seq == cm.call_seq && after.cache == cm.cache && after.im == cm.im
            &&& after.im0 == cm.im0 && after.model == cm.model
        }),
{
}

/// A new call takes the next number and keeps it as the one outstanding; a retry takes the
/// outstanding one.
pub proof fn calls_are_numbered(cm: CmView)
    requires
        cm.call_seq < u32::MAX,
    ensures
        cm.next_seq(true) == cm.call_seq,
        cm.calling(true).call_seq == cm.call_seq + 1,
        cm.calling(true).current_call_seq == Some(cm.call_seq),
        cm.current_call_seq matches Some(n) ==> cm.next_seq(false) == n,
        cm.calling(false) == cm,
{
}

/// What each action leads to: a response goes to the caller, a call to the controller, a state
/// to the application; nothing else is sent or reported.
pub proof fn each_action_has_its_effect(
    a: Applied,
    action: ar::ActionView,
    ctx: RespondCtx,
    is_new: bool,
    object: Uuid,
)
    ensures
        ({
            let after = a.applying(action, Some(ctx), is_new, object);
            let (sent, told) = (after.output.send, after.output.notify);
            match action {
                ar::ActionView::Respond { status, blocks } => {
                    &&& sent.drop_last() == a.output.send && told == a.output.notify
                    &&& sent.last().to == ctx.from
                    &&& sent.last().bytes == ctx.response(status, blocks)
                },
                ar::ActionView::CallController { blocks } => {
                    &&& sent.drop_last() == a.output.send && told == a.output.notify
                    &&& sent.last().to == a.cm.controller_addr->0
                    &&& sent.last().bytes == call_bytes(
                        object,
                        a.cm.activity_seed,
                        a.cm.next_seq(is_new),
                        blocks,
                    )
                },
                ar::ActionView::Notify { state, reason } => {
                    &&& sent == a.output.send && told.drop_last() == a.output.notify
                    &&& told.last() == (state, reason)
                },
            }
        }),
        action is Respond ==> a.applying(action, None, is_new, object) == a,
{
    let after = a.applying(action, Some(ctx), is_new, object);
    match action {
        ar::ActionView::Notify { .. } => {
            assert(after.output.notify.drop_last() =~= a.output.notify);
        },
        _ => {
            assert(after.output.send.drop_last() =~= a.output.send);
        },
    }
}

/// Which actions establish an AR and which accept a request.
pub proof fn actions_speak_for_themselves(a: ar::ActionView)
    ensures
        is_connection(a) <==> (a matches ar::ActionView::Notify { state, .. } && state
            == ArState::Connected),
        is_acceptance(a) <==> (a matches ar::ActionView::Respond { status, .. } && status.0 == 0),
{
}

/// The object that calls go to is that of the controller of the AR.
pub proof fn calls_go_to_the_controllers_object(p: &ArParams)
    ensures
        object_of(Some(p)) == p.initiator_object_uuid,
        uuid_of(Some(p)) == Some(p.ar_uuid),
        uuid_of(None) is None,
{
}

/// A record takes effect just where its submodule is known, its index is one of the three that
/// can be written, and its block is the one of that index.
pub proof fn only_sound_records_take_effect(r: RecordView, model: DeviceModel)
    ensures
        takes_effect(r, model) ==> {
            &&& model.spec_find(r.slot, r.subslot) is Some
            &&& 0xAFF1 <= r.index <= 0xAFF3
            &&& BlockHeader::spec_parse(r.data) is Ok
        },
{
}

/// Each request of the lifecycle comes with its operation: Connect is 0, Release 1, Write 3 and
/// the end of parameterization 4. No other operation asks the lifecycle machine.
pub proof fn requests_come_with_their_operation(event: Event, opnum: u16, blocks: Seq<u8>)
    requires
        event.asks(opnum, blocks),
    ensures
        event is ConnectReq <==> opnum == 0,
        event is ReleaseReq <==> opnum == 1,
        event is WriteReq <==> opnum == 3,
        event is PrmEndReq <==> opnum == 4,
        event matches Event::ConnectReq(r) ==> r.reads(blocks),
        event matches Event::WriteReq(w) ==> WriteReq::spec_parse(blocks) == Ok::<
            _,
            crate::cm::BlockError,
        >(w.record_views()),
        event matches Event::PrmEndReq(cb) ==> ControlBlock::spec_parse(blocks) == Ok::<
            _,
            CmError,
        >(cb),
        event matches Event::ReleaseReq(cb) ==> ControlBlock::spec_parse(blocks) == Ok::<
            _,
            CmError,
        >(cb),
{
}

/// What is done with a datagram: a refused or ignored one changes and sends nothing; a repeated
/// one gets the cached bytes; one that is answered at once gets one response, to its sender,
/// which is cached; the others leave everything as it is and ask the lifecycle machine.
pub proof fn datagrams_are_dealt_with(
    before: CmView,
    after: CmView,
    step: Step,
    res: Result<Handled, RpcError>,
)
    requires
        handles(before, after, step, res),
    ensures
        res is Err <==> step is Refuse,
        step matches Step::Refuse(e) ==> res->Err_0 == e,
        !(step is Answer) ==> after == before,
        res matches Ok(Handled::Ask { .. }) <==> step is Request || step is Response,
        res matches Ok(Handled::Done(out)) ==> out@.notify.len() == 0,
        step is Ignore ==> res->Ok_0->Done_0@.send.len() == 0,
        step matches Step::Resend(pdu, to) ==> {
            let send = res->Ok_0->Done_0@.send;
            send.len() == 1 && send[0].bytes == pdu && send[0].to == to
        },
        step matches Step::Answer(ctx, status, blocks) ==> {
            let send = res->Ok_0->Done_0@.send;
            &&& send.len() == 1
            &&& send[0].bytes == ctx.response(status, blocks) && send[0].to == ctx.from
            &&& after.cache == inserted(before.cache, ctx.key(), send[0].bytes)
            &&& after == CmView { cache: after.cache, ..before }
        },
        step matches Step::Request(ctx, blocks) ==> {
            let (event, pending) = (res->Ok_0->event, res->Ok_0->pending);
            &&& event.asks(ctx.opnum, blocks)
            &&& pending.reply == Some(ctx)
            &&& event is ConnectReq <==> pending.request is Connect
            &&& event is WriteReq <==> pending.request is Write
        },
        step matches Step::Response(status) ==> {
            let (event, pending) = (res->Ok_0->event, res->Ok_0->pending);
            &&& event is AppReadyRsp && event->status == status
            &&& pending.reply is None && pending.request is Other
        },
{
}

} // verus!
