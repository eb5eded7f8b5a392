//! `AlarmChannel`: sender/receiver state machine for one alarm priority (High/Low). One
//! notification in flight at a time; the peer's transport ACK and its content-level AlarmAck
//! are separate steps. No sockets, no clock: every transition is driven by the `now` passed
//! in by the caller, in nanoseconds.

use vstd::prelude::*;

use std::collections::VecDeque;
use vstd::slice::slice_to_vec;

use crate::alarm::rta::{
    self, parse_frame, AlarmAck, AlarmNotification, PduType, Priority, RtaBody, RtaData, RtaHeader, RtaPdu,
    UserData, SEQ_INIT, SEQ_NONE,
};
use crate::cm::{AbortReason, PnioStatus};
use crate::eth::{EthHeader, MacAddr};

verus! {

/// Size in bytes of an AlarmNotification block's `block_length` field minus its USI-specific
/// `data`: the 22 fixed fields plus the 2-byte block version that `block_length` counts.
pub const NOTIFICATION_FIXED_LEN: usize = 24;

/// How much longer than `rta_timeout` we wait for the controller's *content-level* Alarm-Ack
/// once its transport ACK has confirmed delivery. The DATA is on the controller's side by
/// then, so resending it would achieve nothing and aborting the AR would punish a merely slow
/// application; we wait a generous multiple and then drop the alarm, keeping the AR up.
pub const ALARM_ACK_TIMEOUT_FACTOR: u64 = 10;

/// Static configuration for one alarm channel (one priority): the AR's alarm references,
/// retry policy, negotiated data-length limit, and the two peers' MACs.
#[derive(Debug, Clone, Copy)]
pub struct AlarmChannelConfig {
    /// `LocalAlarmReference` we announced (goes into outgoing `AlarmSrcEndpoint`).
    pub local_ref: u16,
    /// The peer's `LocalAlarmReference` (goes into outgoing `AlarmDstEndpoint`).
    pub remote_ref: u16,
    /// How long to wait for a transport ACK before resending, in nanoseconds.
    pub rta_timeout: u64,
    /// Number of resends of an unacknowledged DATA before the channel aborts.
    pub rta_retries: u16,
    /// Negotiated `AlarmCRBlockReq.MaxAlarmDataLength`.
    pub max_alarm_data_length: u16,
    /// The controller's MAC (frames from any other source are `UnexpectedRx`).
    pub peer_mac: MacAddr,
    /// Our own MAC (used as the outgoing frame's source).
    pub our_mac: MacAddr,
}

/// One alarm the application wants sent.
#[derive(Debug, Clone, PartialEq)]
pub struct AlarmReq {
    /// Caller-chosen id echoed back in `AlarmAction::Acked` so the caller can match its own
    /// request without the channel knowing anything about its origin.
    pub id: u32,
    /// Which alarm channel (High/Low) to send it on.
    pub priority: Priority,
    /// The AlarmNotification block to send.
    pub notification: AlarmNotification,
}

/// What an [`AlarmReq`] holds.
pub struct ReqView {
    pub id: u32,
    pub priority: Priority,
    pub notification: rta::NotificationView,
}

impl View for AlarmReq {
    type V = ReqView;

    open spec fn view(&self) -> ReqView {
        ReqView { id: self.id, priority: self.priority, notification: self.notification@ }
    }
}

impl ReqView {
    /// The length that the notification's block announces.
    pub open spec fn block_len(self) -> int {
        NOTIFICATION_FIXED_LEN + self.notification.data.spec_bytes().len()
    }
}

/// An effect the caller must perform: send bytes on the wire, notify the application an alarm
/// was acknowledged, abort the AR, or just note an unexpected frame.
#[derive(Debug, Clone, PartialEq)]
pub enum AlarmAction {
    /// Send this complete Ethernet frame on the alarm channel.
    Send(Vec<u8>),
    /// The in-flight alarm `id` was acknowledged by the controller with `status`.
    Acked {
        /// The [`AlarmReq::id`] of the acknowledged alarm.
        id: u32,
        /// Result reported by the controller's AlarmAck.
        status: PnioStatus,
    },
    /// The AR must be aborted for `reason`.
    Abort(AbortReason),
    /// A frame arrived that this channel could not use (wrong source, malformed, stray ACK,
    /// or unhandled DATA content).
    UnexpectedRx,
}

/// What an [`AlarmAction`] holds.
pub enum ActionView {
    Send(Seq<u8>),
    Acked(u32, PnioStatus),
    Abort(AbortReason),
    UnexpectedRx,
}

impl View for AlarmAction {
    type V = ActionView;

    open spec fn view(&self) -> ActionView {
        match *self {
            AlarmAction::Send(f) => ActionView::Send(f@),
            AlarmAction::Acked { id, status } => ActionView::Acked(id, status),
            AlarmAction::Abort(r) => ActionView::Abort(r),
            AlarmAction::UnexpectedRx => ActionView::UnexpectedRx,
        }
    }
}

/// What a list of actions holds.
pub open spec fn action_views(v: Seq<AlarmAction>) -> Seq<ActionView> {
    v.map_values(|a: AlarmAction| a@)
}

/// Errors from [`AlarmChannel::enqueue`].
#[derive(Debug, Clone, Copy, PartialEq, Eq, Structural)]
pub enum AlarmError {
    /// The notification's block length would exceed the AR's negotiated `MaxAlarmDataLength`;
    /// the alarm was refused before it touched the wire.
    TooLong {
        /// The notification block's would-be length in bytes.
        len: usize,
        /// The AR's negotiated `MaxAlarmDataLength`.
        max: u16,
    },
}

/// Running counters, queryable by the caller for diagnostics/metrics.
#[derive(Debug, Clone, Copy, PartialEq, Eq, Structural)]
pub struct AlarmStats {
    /// First transmissions of a DATA (not resends).
    pub sent: u64,
    /// Alarms acknowledged by the controller (content-level AlarmAck).
    pub acked: u64,
    /// DATA resends (transport-ACK timeout).
    pub retries: u64,
    /// Frames counted as `UnexpectedRx` or otherwise ignored.
    pub unexpected_rx: u64,
    /// Times an in-flight alarm exhausted its retries without being acknowledged.
    pub send_failures: u64,
    /// Times a delivered alarm (transport-ACKed) was dropped because the controller never
    /// sent its content-level Alarm-Ack in time. The AR is *not* aborted.
    pub ack_timeouts: u64,
    /// ERR-RTA frames received from the controller.
    pub rx_err_rta: u64,
}

impl AlarmStats {
    /// All counters at zero.
    pub open spec fn zero() -> AlarmStats {
        AlarmStats {
            sent: 0,
            acked: 0,
            retries: 0,
            unexpected_rx: 0,
            send_failures: 0,
            ack_timeouts: 0,
            rx_err_rta: 0,
        }
    }

    /// Whether every counter can still count one more event.
    #[verifier::allow_in_spec]
    pub fn has_room(&self) -> bool
        returns
            (self.sent < u64::MAX && self.acked < u64::MAX && self.retries < u64::MAX
                && self.unexpected_rx < u64::MAX && self.send_failures < u64::MAX
                && self.ack_timeouts < u64::MAX && self.rx_err_rta < u64::MAX),
    {
        self.sent < u64::MAX && self.acked < u64::MAX && self.retries < u64::MAX
            && self.unexpected_rx < u64::MAX && self.send_failures < u64::MAX && self.ack_timeouts
            < u64::MAX && self.rx_err_rta < u64::MAX
    }
}

impl Default for AlarmStats {
    fn default() -> (s: Self)
        ensures
            s == AlarmStats::zero(),
    {
        AlarmStats {
            sent: 0,
            acked: 0,
            retries: 0,
            unexpected_rx: 0,
            send_failures: 0,
            ack_timeouts: 0,
            rx_err_rta: 0,
        }
    }
}

/// One in-flight alarm's state: nothing in flight, waiting for the peer's transport ACK of
/// our DATA, or (having got that) waiting for the peer's content-level AlarmAck.
enum State {
    Idle,
    /// Sent a DATA, waiting for the peer's transport ACK (`RtaBody::Ack` with
    /// `ack_seq == seq`).
    SentData { req: AlarmReq, seq: u16, frame: Vec<u8>, deadline: u64 },
    /// Got the transport ACK; waiting for the peer's DATA carrying the content-level AlarmAck
    /// block. `deadline` is `ALARM_ACK_TIMEOUT_FACTOR * rta_timeout` away: on expiry the
    /// alarm is dropped, not resent and not fatal to the AR.
    AwaitAlarmAck { req: AlarmReq, deadline: u64 },
}

/// The alarm in flight, if any.
pub enum Flight {
    /// Nothing in flight.
    Idle,
    /// `frame` was sent as DATA `seq`; its transport ACK is due at `deadline`.
    SentData { req: ReqView, seq: u16, frame: Seq<u8>, deadline: u64 },
    /// The DATA was delivered; the alarm's acknowledgement is due at `deadline`.
    AwaitAlarmAck { req: ReqView, deadline: u64 },
}

impl Flight {
    /// The request in flight.
    pub open spec fn req(self) -> Option<ReqView> {
        match self {
            Flight::Idle => None,
            Flight::SentData { req, .. } => Some(req),
            Flight::AwaitAlarmAck { req, .. } => Some(req),
        }
    }

    /// When the alarm in flight needs attention.
    pub open spec fn deadline(self) -> Option<u64> {
        match self {
            Flight::Idle => None,
            Flight::SentData { deadline, .. } => Some(deadline),
            Flight::AwaitAlarmAck { deadline, .. } => Some(deadline),
        }
    }
}

/// The state of an alarm channel.
pub struct ChannelView {
    pub cfg: AlarmChannelConfig,
    pub flight: Flight,
    pub queue: Seq<ReqView>,
    pub next_send_seq: u16,
    pub last_sent_seq: u16,
    pub last_rx_seq: u16,
    pub attempt: u16,
    pub stats: AlarmStats,
    pub specifier_seq: u16,
}

/// The `SendSeqNum` that follows `seq`: the first DATA carries [`SEQ_INIT`], then the numbers
/// count from 0 and wrap behind `0x7FFF`.
pub open spec fn seq_after(seq: u16) -> u16 {
    if seq == SEQ_INIT {
        0
    } else {
        ((seq + 1) % 0x8000) as u16
    }
}

impl ChannelView {
    /// What every operation keeps: the retry count within its limit, sequence numbers in
    /// their range, no request waiting while nothing is in flight, and every request short
    /// enough for the peer.
    pub open spec fn wf(self) -> bool {
        &&& self.attempt <= self.cfg.rta_retries
        &&& self.next_send_seq == SEQ_INIT || self.next_send_seq < 0x8000
        &&& self.specifier_seq < 0x0800
        &&& self.flight is Idle ==> self.queue.len() == 0
        &&& forall|i: int|
            0 <= i < self.queue.len() ==> (#[trigger] self.queue[i]).block_len()
                <= self.cfg.max_alarm_data_length
    }

    /// The frame of a DATA that carries a notification.
    pub open spec fn data_frame(self, req: ReqView) -> Seq<u8> {
        rta::frame_bytes(
            self.cfg.peer_mac,
            self.cfg.our_mac,
            rta::RtaPduView {
                priority: req.priority,
                header: self.header(PduType::Data, true, self.next_send_seq, self.last_rx_seq),
                body: rta::RtaBodyView::Data(rta::RtaDataView::Notification(req.notification)),
            },
        )
    }

    /// A header between the two alarm endpoints.
    pub open spec fn header(
        self,
        pdu_type: PduType,
        tack: bool,
        send_seq: u16,
        ack_seq: u16,
    ) -> RtaHeader {
        RtaHeader {
            dst_ref: self.cfg.remote_ref,
            src_ref: self.cfg.local_ref,
            pdu_type,
            tack,
            send_seq,
            ack_seq,
        }
    }

    /// The frame that acknowledges the DATA `seq` of the peer.
    pub open spec fn ack_frame(self, priority: Priority, seq: u16) -> Seq<u8> {
        rta::frame_bytes(
            self.cfg.peer_mac,
            self.cfg.our_mac,
            rta::RtaPduView {
                priority,
                header: self.header(PduType::Ack, false, self.last_sent_seq, seq),
                body: rta::RtaBodyView::Ack,
            },
        )
    }

    /// The frame that tells the peer of an abort: Low priority, with the current sequence
    /// numbers.
    pub open spec fn err_frame(self, status: PnioStatus) -> Seq<u8> {
        rta::frame_bytes(
            self.cfg.peer_mac,
            self.cfg.our_mac,
            rta::RtaPduView {
                priority: Priority::Low,
                header: self.header(PduType::Error, false, self.last_sent_seq, self.last_rx_seq),
                body: rta::RtaBodyView::Error(status),
            },
        )
    }

    /// With nothing in flight, the oldest waiting request goes out.
    pub open spec fn send_next(self, now: u64) -> (ChannelView, Seq<ActionView>) {
        if self.flight is Idle && self.queue.len() > 0 {
            let req = self.queue[0];
            let frame = self.data_frame(req);
            (
                ChannelView {
                    flight: Flight::SentData {
                        req,
                        seq: self.next_send_seq,
                        frame,
                        deadline: (now + self.cfg.rta_timeout) as u64,
                    },
                    queue: self.queue.skip(1),
                    next_send_seq: seq_after(self.next_send_seq),
                    last_sent_seq: self.next_send_seq,
                    attempt: 0,
                    stats: AlarmStats { sent: (self.stats.sent + 1) as u64, ..self.stats },
                    ..self
                },
                seq![ActionView::Send(frame)],
            )
        } else {
            (self, Seq::empty())
        }
    }

    /// A request is appended to the queue.
    pub open spec fn enqueue(self, req: ReqView, now: u64) -> (ChannelView, Seq<ActionView>) {
        ChannelView { queue: self.queue.push(req), ..self }.send_next(now)
    }

    /// One more frame that could not be used.
    pub open spec fn unexpected(self) -> ChannelView {
        ChannelView {
            stats: AlarmStats {
                unexpected_rx: (self.stats.unexpected_rx + 1) as u64,
                ..self.stats
            },
            ..self
        }
    }

    /// A transport ACK: that of the DATA in flight confirms its delivery; any other is only
    /// counted.
    pub open spec fn on_transport_ack(self, ack_seq: u16, now: u64) -> ChannelView {
        match self.flight {
            Flight::SentData { req, seq, .. } if ack_seq == seq => ChannelView {
                flight: Flight::AwaitAlarmAck {
                    req,
                    deadline: (now + self.cfg.rta_timeout * ALARM_ACK_TIMEOUT_FACTOR) as u64,
                },
                ..self
            },
            _ => self.unexpected(),
        }
    }

    /// Whether an acknowledgement is that of the alarm in flight, delivered or not.
    pub open spec fn acknowledges(self, a: AlarmAck) -> bool {
        match self.flight.req() {
            Some(req) => {
                &&& req.notification.alarm_type == a.alarm_type
                &&& req.notification.slot == a.slot
                &&& req.notification.subslot == a.subslot
            },
            None => false,
        }
    }

    /// A DATA from the peer is acknowledged; one that was not seen before is then used.
    pub open spec fn on_data(
        self,
        send_seq: u16,
        priority: Priority,
        data: rta::RtaDataView,
        now: u64,
    ) -> (ChannelView, Seq<ActionView>) {
        let ack = ActionView::Send(self.ack_frame(priority, send_seq));
        let seen = ChannelView { last_rx_seq: send_seq, ..self };
        if send_seq == self.last_rx_seq {
            (self, seq![ack])
        } else {
            match data {
                rta::RtaDataView::Ack(a) if self.acknowledges(a) => {
                    let (after, sends) = ChannelView {
                        flight: Flight::Idle,
                        stats: AlarmStats { acked: (self.stats.acked + 1) as u64, ..self.stats },
                        ..seen
                    }.send_next(now);
                    (
                        after,
                        seq![ack] + (seq![ActionView::Acked(self.flight.req()->0.id, a.status)]
                            + sends),
                    )
                },
                _ => (seen.unexpected(), seq![ack, ActionView::UnexpectedRx]),
            }
        }
    }

    /// Nothing in flight and nothing waiting.
    pub open spec fn emptied(self) -> ChannelView {
        ChannelView { flight: Flight::Idle, queue: Seq::empty(), ..self }
    }

    /// The peer aborts.
    pub open spec fn on_err_rta(self, status: PnioStatus) -> (ChannelView, Seq<ActionView>) {
        (
            ChannelView {
                stats: AlarmStats {
                    rx_err_rta: (self.stats.rx_err_rta + 1) as u64,
                    ..self.stats
                },
                ..self.emptied()
            },
            seq![ActionView::Abort(AbortReason::ControllerErrRta(status))],
        )
    }

    /// A received frame: what it carries decides, provided that it parses and comes from the
    /// peer.
    pub open spec fn on_frame(self, frame: Seq<u8>, now: u64) -> (ChannelView, Seq<ActionView>) {
        match (rta::spec_parse_frame(frame), EthHeader::spec_parse(frame)) {
            (Ok(pdu), Ok((eth, _))) if eth.src == self.cfg.peer_mac => match pdu.body {
                rta::RtaBodyView::Ack => (
                    self.on_transport_ack(pdu.header.ack_seq, now),
                    Seq::empty(),
                ),
                rta::RtaBodyView::Data(data) => self.on_data(
                    pdu.header.send_seq,
                    pdu.priority,
                    data,
                    now,
                ),
                rta::RtaBodyView::Error(status) => self.on_err_rta(status),
                rta::RtaBodyView::Nack => (self.unexpected(), seq![ActionView::UnexpectedRx]),
            },
            _ => (self.unexpected(), seq![ActionView::UnexpectedRx]),
        }
    }

    /// Time has passed: an undelivered DATA past its deadline is resent as it was, or the AR
    /// is aborted once the retries are used up; a delivered alarm past its deadline is
    /// dropped and the queue goes on.
    pub open spec fn on_tick(self, now: u64) -> (ChannelView, Seq<ActionView>) {
        match self.flight {
            Flight::SentData { req, seq, frame, deadline } if now >= deadline => {
                if self.attempt < self.cfg.rta_retries {
                    (
                        ChannelView {
                            flight: Flight::SentData {
                                req,
                                seq,
                                frame,
                                deadline: (now + self.cfg.rta_timeout) as u64,
                            },
                            attempt: (self.attempt + 1) as u16,
                            stats: AlarmStats {
                                retries: (self.stats.retries + 1) as u64,
                                ..self.stats
                            },
                            ..self
                        },
                        seq![ActionView::Send(frame)],
                    )
                } else {
                    (
                        ChannelView {
                            stats: AlarmStats {
                                send_failures: (self.stats.send_failures + 1) as u64,
                                ..self.stats
                            },
                            ..self.emptied()
                        },
                        seq![ActionView::Abort(AbortReason::AlarmSendFailed)],
                    )
                }
            },
            Flight::AwaitAlarmAck { deadline, .. } if now >= deadline => ChannelView {
                flight: Flight::Idle,
                stats: AlarmStats {
                    ack_timeouts: (self.stats.ack_timeouts + 1) as u64,
                    ..self.stats
                },
                ..self
            }.send_next(now),
            _ => (self, Seq::empty()),
        }
    }

    /// Whether deadlines counted from `now` can be told and every counter can count.
    pub open spec fn has_room(self, now: u64) -> bool {
        &&& now + self.cfg.rta_timeout * ALARM_ACK_TIMEOUT_FACTOR <= u64::MAX
        &&& self.stats.has_room()
    }
}

/// The one-alarm-in-flight sender/receiver state machine for one priority channel. Pure:
/// `enqueue`/`on_frame`/`on_tick` take `now` explicitly and never touch a clock or a socket
/// themselves; the device loop drives it.
pub struct AlarmChannel {
    cfg: AlarmChannelConfig,
    state: State,
    queue: VecDeque<AlarmReq>,
    /// `SendSeqNum` for our *next* DATA.
    next_send_seq: u16,
    /// `SendSeqNum` of the last DATA we sent (what our ACK-RTA/ERR-RTA report as their own
    /// `SendSeqNum`); `SEQ_NONE` before we ever send one.
    last_sent_seq: u16,
    /// `SendSeqNum` of the last DATA we accepted from the peer (what we report as
    /// `AckSeqNum`); `SEQ_NONE` before we accept one.
    last_rx_seq: u16,
    /// Resend attempts made for the current in-flight alarm (reset on a fresh send).
    attempt: u16,
    stats: AlarmStats,
    /// Per-AR `AlarmSpecifier.sequence` counter (0..=0x7FF), independent of the RTA transport
    /// sequence numbers above.
    specifier_seq: u16,
}

impl View for AlarmChannel {
    type V = ChannelView;

    closed spec fn view(&self) -> ChannelView {
        ChannelView {
            cfg: self.cfg,
            flight: match self.state {
                State::Idle => Flight::Idle,
                State::SentData { req, seq, frame, deadline } => Flight::SentData {
                    req: req@,
                    seq,
                    frame: frame@,
                    deadline,
                },
                State::AwaitAlarmAck { req, deadline } => Flight::AwaitAlarmAck {
                    req: req@,
                    deadline,
                },
            },
            queue: self.queue@.map_values(|r: AlarmReq| r@),
            next_send_seq: self.next_send_seq,
            last_sent_seq: self.last_sent_seq,
            last_rx_seq: self.last_rx_seq,
            attempt: self.attempt,
            stats: self.stats,
            specifier_seq: self.specifier_seq,
        }
    }
}

impl AlarmChannel {
    /// A fresh, idle channel for `cfg`: empty queue, no alarm in flight, sequence counters at
    /// their initial values ([`SEQ_INIT`] / [`SEQ_NONE`]).
    pub fn new(cfg: AlarmChannelConfig) -> (ch: Self)
        ensures
            ch@ == (ChannelView {
                cfg,
                flight: Flight::Idle,
                queue: Seq::empty(),
                next_send_seq: SEQ_INIT,
                last_sent_seq: SEQ_NONE,
                last_rx_seq: SEQ_NONE,
                attempt: 0,
                stats: AlarmStats::zero(),
                specifier_seq: 0,
            }),
            ch@.wf(),
            ch@.stats.has_room(),
    {
        let ch = AlarmChannel {
            cfg,
            state: State::Idle,
            queue: VecDeque::new(),
            next_send_seq: SEQ_INIT,
            last_sent_seq: SEQ_NONE,
            last_rx_seq: SEQ_NONE,
            attempt: 0,
            stats: AlarmStats::default(),
            specifier_seq: 0,
        };
        assert(ch@.queue =~= Seq::empty());
        ch
    }

    /// Queues `req`; refuses (before touching the wire) if its notification body would exceed
    /// the negotiated `max_alarm_data_length`. If nothing is currently in flight, sends it
    /// immediately.
    pub fn enqueue(&mut self, req: AlarmReq, now: u64) -> (res: Result<
        Vec<AlarmAction>,
        AlarmError,
    >)
        requires
            old(self)@.wf(),
            old(self)@.flight is Idle ==> old(self)@.has_room(now),
            req@.block_len() <= usize::MAX,
        ensures
            final(self)@.wf(),
            match res {
                Ok(actions) => {
                    &&& req@.block_len() <= old(self)@.cfg.max_alarm_data_length
                    &&& (final(self)@, action_views(actions@)) == old(self)@.enqueue(req@, now)
                },
                Err(AlarmError::TooLong { len, max }) => {
                    &&& req@.block_len() > old(self)@.cfg.max_alarm_data_length
                    &&& len == req@.block_len()
                    &&& max == old(self)@.cfg.max_alarm_data_length
                    &&& final(self)@ == old(self)@
                },
            },
    {
        let len: usize = NOTIFICATION_FIXED_LEN + data_len(&req.notification.data);
        if len > self.cfg.max_alarm_data_length as usize {
            return Err(AlarmError::TooLong { len, max: self.cfg.max_alarm_data_length });
        }
        let ghost before = self@;
        self.queue.push_back(req);
        assert(self@.queue =~= before.queue.push(req@));
        Ok(self.send_next(now))
    }

    /// Feeds one received Ethernet frame (already known to be an alarm frame by the caller's
    /// dispatch, but re-validated here) into the state machine.
    pub fn on_frame(&mut self, frame: &[u8], now: u64) -> (actions: Vec<AlarmAction>)
        requires
            old(self)@.wf(),
            old(self)@.has_room(now),
        ensures
            final(self)@.wf(),
            (final(self)@, action_views(actions@)) == old(self)@.on_frame(frame@, now),
    {
        let pdu = match parse_frame(frame) {
            Ok(p) => p,
            Err(_) => {
                return self.unexpected();
            },
        };
        let src = match EthHeader::parse(frame) {
            Ok((h, _)) => h.src,
            Err(_) => {
                return self.unexpected();
            },
        };
        if src != self.cfg.peer_mac {
            return self.unexpected();
        }
        match pdu.body {
            RtaBody::Ack => self.on_transport_ack(pdu.header.ack_seq, now),
            RtaBody::Data(data) => self.on_data(pdu.header.send_seq, pdu.priority, data, now),
            RtaBody::Error(status) => self.on_err_rta(status),
            RtaBody::Nack => self.unexpected(),
        }
    }

    /// Called by the caller when `now >= next_deadline()`. With no transport ACK yet, resends
    /// the in-flight DATA up to `rta_retries` times, then aborts the AR. With delivery
    /// already confirmed, drops the alarm and moves on to the queue (deadline =
    /// `ALARM_ACK_TIMEOUT_FACTOR` times the RTA timeout).
    pub fn on_tick(&mut self, now: u64) -> (actions: Vec<AlarmAction>)
        requires
            old(self)@.wf(),
            old(self)@.has_room(now),
        ensures
            final(self)@.wf(),
            (final(self)@, action_views(actions@)) == old(self)@.on_tick(now),
    {
        let awaiting_alarm_ack = match &self.state {
            State::SentData { deadline, .. } => {
                if now < *deadline {
                    return no_actions();
                }
                false
            },
            State::AwaitAlarmAck { deadline, .. } => {
                if now < *deadline {
                    return no_actions();
                }
                true
            },
            State::Idle => {
                return no_actions();
            },
        };
        if awaiting_alarm_ack {
            self.drop_unacknowledged(now)
        } else {
            self.retry_or_abort(now)
        }
    }

    /// The next time the caller must call `on_tick` (the in-flight alarm's deadline), or
    /// `None` if nothing is in flight.
    pub fn next_deadline(&self) -> (d: Option<u64>)
        ensures
            d == self@.flight.deadline(),
    {
        match &self.state {
            State::SentData { deadline, .. } => Some(*deadline),
            State::AwaitAlarmAck { deadline, .. } => Some(*deadline),
            State::Idle => None,
        }
    }

    /// Builds an ERR-RTA frame (Low priority, current `SendSeqNum`/`AckSeqNum` counters) for
    /// the caller to send. Does not touch the state machine or queue.
    pub fn err_rta(&mut self, status: PnioStatus) -> (frame: Vec<u8>)
        ensures
            frame@ == old(self)@.err_frame(status),
            final(self)@ == old(self)@,
    {
        let pdu = RtaPdu {
            priority: Priority::Low,
            header: RtaHeader {
                dst_ref: self.cfg.remote_ref,
                src_ref: self.cfg.local_ref,
                pdu_type: PduType::Error,
                tack: false,
                send_seq: self.last_sent_seq,
                ack_seq: self.last_rx_seq,
            },
            body: RtaBody::Error(status),
        };
        rta::build_frame(self.cfg.peer_mac, self.cfg.our_mac, &pdu)
    }

    /// The `id` of the alarm currently in flight (sent, awaiting either ACK), if any.
    pub fn in_flight(&self) -> (id: Option<u32>)
        ensures
            id == (match self@.flight.req() {
                Some(req) => Some(req.id),
                None => None::<u32>,
            }),
    {
        match &self.state {
            State::SentData { req, .. } => Some(req.id),
            State::AwaitAlarmAck { req, .. } => Some(req.id),
            State::Idle => None,
        }
    }

    /// Number of alarms queued behind the in-flight one (not counting it).
    pub fn queued(&self) -> (n: usize)
        ensures
            n == self@.queue.len(),
    {
        self.queue.len()
    }

    /// A plain-value copy of this channel's running counters.
    pub fn stats(&self) -> (s: AlarmStats)
        ensures
            s == self@.stats,
    {
        self.stats
    }

    /// Next `AlarmSpecifier.sequence` value (0, 1, 2, ... wrapping behind `0x7FF`): the
    /// device fills this in before enqueueing a notification.
    pub fn next_specifier_sequence(&mut self) -> (v: u16)
        requires
            old(self)@.wf(),
        ensures
            v == old(self)@.specifier_seq,
            v < 0x0800,
            final(self)@ == (ChannelView {
                specifier_seq: ((v + 1) % 0x0800) as u16,
                ..old(self)@
            }),
            final(self)@.wf(),
    {
        let v: u16 = self.specifier_seq;
        self.specifier_seq = (v + 1) % 0x0800;
        v
    }
}

/// No actions at all.
fn no_actions() -> (v: Vec<AlarmAction>)
    ensures
        action_views(v@) == Seq::<ActionView>::empty(),
{
    let v: Vec<AlarmAction> = Vec::new();
    assert(action_views(v@) =~= Seq::<ActionView>::empty());
    v
}

/// A single action.
fn one_action(a: AlarmAction) -> (v: Vec<AlarmAction>)
    ensures
        action_views(v@) == seq![a@],
{
    let mut v: Vec<AlarmAction> = Vec::new();
    v.push(a);
    assert(action_views(v@) =~= seq![a@]);
    v
}

/// Adds an action behind the others.
fn push_action(v: &mut Vec<AlarmAction>, a: AlarmAction)
    ensures
        action_views(final(v)@) == action_views(old(v)@).push(a@),
{
    v.push(a);
    assert(action_views(v@) =~= action_views(old(v)@).push(a@));
}

impl AlarmChannel {
    /// Counts a frame that could not be used.
    fn unexpected(&mut self) -> (actions: Vec<AlarmAction>)
        requires
            old(self)@.stats.has_room(),
        ensures
            final(self)@ == old(self)@.unexpected(),
            action_views(actions@) == seq![ActionView::UnexpectedRx],
    {
        self.stats.unexpected_rx = self.stats.unexpected_rx + 1;
        one_action(AlarmAction::UnexpectedRx)
    }

    /// If idle and the queue is non-empty, pops and sends the next request.
    fn send_next(&mut self, now: u64) -> (actions: Vec<AlarmAction>)
        requires
            old(self)@.attempt <= old(self)@.cfg.rta_retries,
            old(self)@.next_send_seq == SEQ_INIT || old(self)@.next_send_seq < 0x8000,
            old(self)@.specifier_seq < 0x0800,
            forall|i: int|
                0 <= i < old(self)@.queue.len() ==> (#[trigger] old(self)@.queue[i]).block_len()
                    <= old(self)@.cfg.max_alarm_data_length,
            old(self)@.flight is Idle ==> now + old(self)@.cfg.rta_timeout <= u64::MAX
                && old(self)@.stats.sent < u64::MAX,
        ensures
            (final(self)@, action_views(actions@)) == old(self)@.send_next(now),
            final(self)@.wf(),
    {
        let idle = match &self.state {
            State::Idle => true,
            _ => false,
        };
        if !idle {
            return no_actions();
        }
        let ghost before = self@;
        let req = match self.queue.pop_front() {
            Some(req) => req,
            None => {
                return no_actions();
            },
        };
        assert(self@.queue =~= before.queue.skip(1));
        assert(req@ == before.queue[0]);
        assert(before.queue[0].block_len() <= self.cfg.max_alarm_data_length);
        let seq: u16 = self.next_send_seq;
        let frame = build_data_frame(&self.cfg, &req, seq, self.last_rx_seq);
        assert(frame@ == before.data_frame(req@));
        self.last_sent_seq = seq;
        self.next_send_seq = if seq == SEQ_INIT {
            0
        } else {
            (seq + 1) % 0x8000
        };
        self.attempt = 0;
        self.stats.sent = self.stats.sent + 1;
        let deadline: u64 = now + self.cfg.rta_timeout;
        let out = one_action(AlarmAction::Send(slice_to_vec(frame.as_slice())));
        self.state = State::SentData { req, seq, frame, deadline };
        out
    }

    fn on_transport_ack(&mut self, ack_seq: u16, now: u64) -> (actions: Vec<AlarmAction>)
        requires
            old(self)@.wf(),
            old(self)@.has_room(now),
        ensures
            final(self)@.wf(),
            final(self)@ == old(self)@.on_transport_ack(ack_seq, now),
            action_views(actions@) == Seq::<ActionView>::empty(),
    {
        let delivered = match &self.state {
            State::SentData { seq, .. } => ack_seq == *seq,
            _ => false,
        };
        if delivered {
            // The DATA is delivered: drop the frame we were holding for resends and wait
            // (much longer) for the content-level Alarm-Ack instead.
            let mut was = State::Idle;
            std::mem::swap(&mut self.state, &mut was);
            if let State::SentData { req, .. } = was {
                self.state = State::AwaitAlarmAck {
                    req,
                    deadline: now + self.cfg.rta_timeout * ALARM_ACK_TIMEOUT_FACTOR,
                };
            }
        } else {
            self.stats.unexpected_rx = self.stats.unexpected_rx + 1;
        }
        no_actions()
    }

    /// Whether `a` acknowledges the alarm in flight. One whose DATA still waits for its
    /// transport ACK counts as well: an Alarm-Ack can overtake the transport ACK of the DATA
    /// it answers, and its arrival proves that the DATA was delivered.
    fn acknowledges(&self, a: &AlarmAck) -> (r: bool)
        ensures
            r == self@.acknowledges(*a),
    {
        match &self.state {
            State::SentData { req, .. } => req.notification.alarm_type == a.alarm_type
                && req.notification.slot == a.slot && req.notification.subslot == a.subslot,
            State::AwaitAlarmAck { req, .. } => req.notification.alarm_type == a.alarm_type
                && req.notification.slot == a.slot && req.notification.subslot == a.subslot,
            State::Idle => false,
        }
    }

    fn on_data(&mut self, send_seq: u16, priority: Priority, data: RtaData, now: u64) -> (actions:
        Vec<AlarmAction>)
        requires
            old(self)@.wf(),
            old(self)@.has_room(now),
        ensures
            final(self)@.wf(),
            (final(self)@, action_views(actions@)) == old(self)@.on_data(
                send_seq,
                priority,
                data@,
                now,
            ),
    {
        let ack = self.build_ack_rta(priority, send_seq);
        let mut actions = one_action(AlarmAction::Send(ack));
        if send_seq == self.last_rx_seq {
            // Peer never got our ACK-RTA (or is otherwise retransmitting): re-ack the same
            // DATA without reprocessing its content.
            return actions;
        }
        self.last_rx_seq = send_seq;
        assert(self@.queue =~= old(self)@.queue);
        match data {
            RtaData::Ack(a) => {
                if self.acknowledges(&a) {
                    self.finish_acked(a.status, now, &mut actions);
                    return actions;
                }
            },
            _ => {},
        }
        self.stats.unexpected_rx = self.stats.unexpected_rx + 1;
        push_action(&mut actions, AlarmAction::UnexpectedRx);
        assert(action_views(actions@) =~= old(self)@.on_data(send_seq, priority, data@, now).1);
        actions
    }

    /// The alarm in flight is acknowledged: report it and let the queue continue.
    fn finish_acked(&mut self, status: PnioStatus, now: u64, actions: &mut Vec<AlarmAction>)
        requires
            old(self)@.wf(),
            old(self)@.has_room(now),
            old(self)@.flight.req() is Some,
        ensures
            final(self)@.wf(),
            ({
                let (after, sends) = ChannelView {
                    flight: Flight::Idle,
                    stats: AlarmStats {
                        acked: (old(self)@.stats.acked + 1) as u64,
                        ..old(self)@.stats
                    },
                    ..old(self)@
                }.send_next(now);
                &&& final(self)@ == after
                &&& action_views(final(actions)@) == action_views(old(actions)@) + (seq![
                    ActionView::Acked(old(self)@.flight.req()->0.id, status),
                ] + sends)
            }),
    {
        let id: u32 = match &self.state {
            State::SentData { req, .. } => req.id,
            State::AwaitAlarmAck { req, .. } => req.id,
            State::Idle => 0,
        };
        self.state = State::Idle;
        self.stats.acked = self.stats.acked + 1;
        push_action(actions, AlarmAction::Acked { id, status });
        assert(self@.queue =~= old(self)@.queue);
        let mut sends = self.send_next(now);
        let ghost a0 = action_views(actions@);
        let ghost s0 = action_views(sends@);
        actions.append(&mut sends);
        assert(action_views(actions@) =~= a0 + s0);
        assert(action_views(actions@) =~= action_views(old(actions)@) + (seq![
            ActionView::Acked(id, status),
        ] + s0));
    }

    fn on_err_rta(&mut self, status: PnioStatus) -> (actions: Vec<AlarmAction>)
        requires
            old(self)@.wf(),
            old(self)@.stats.has_room(),
        ensures
            final(self)@.wf(),
            (final(self)@, action_views(actions@)) == old(self)@.on_err_rta(status),
    {
        self.stats.rx_err_rta = self.stats.rx_err_rta + 1;
        self.state = State::Idle;
        self.queue.clear();
        assert(self@.queue =~= Seq::empty());
        one_action(AlarmAction::Abort(AbortReason::ControllerErrRta(status)))
    }

    /// Past the deadline with no transport ACK: the peer never acknowledged the transport, so
    /// resend the exact same DATA frame (up to `rta_retries` times), then abort.
    fn retry_or_abort(&mut self, now: u64) -> (actions: Vec<AlarmAction>)
        requires
            old(self)@.wf(),
            old(self)@.has_room(now),
            old(self)@.flight is SentData,
            now >= old(self)@.flight->SentData_deadline,
        ensures
            final(self)@.wf(),
            (final(self)@, action_views(actions@)) == old(self)@.on_tick(now),
    {
        if self.attempt < self.cfg.rta_retries {
            self.attempt = self.attempt + 1;
            self.stats.retries = self.stats.retries + 1;
            let mut was = State::Idle;
            std::mem::swap(&mut self.state, &mut was);
            match was {
                State::SentData { req, seq, frame, .. } => {
                    let out = one_action(AlarmAction::Send(slice_to_vec(frame.as_slice())));
                    self.state = State::SentData {
                        req,
                        seq,
                        frame,
                        deadline: now + self.cfg.rta_timeout,
                    };
                    out
                },
                _ => no_actions(),
            }
        } else {
            self.stats.send_failures = self.stats.send_failures + 1;
            self.state = State::Idle;
            self.queue.clear();
            assert(self@.queue =~= Seq::empty());
            one_action(AlarmAction::Abort(AbortReason::AlarmSendFailed))
        }
    }

    /// Past the (long) deadline with no Alarm-Ack: the DATA *was* delivered, the peer ACKed
    /// it at the transport level, so resending it would only duplicate it, and aborting the
    /// AR would take the device down over a slow controller application. Drop the alarm,
    /// count it, and let the queue continue.
    fn drop_unacknowledged(&mut self, now: u64) -> (actions: Vec<AlarmAction>)
        requires
            old(self)@.wf(),
            old(self)@.has_room(now),
            old(self)@.flight is AwaitAlarmAck,
            now >= old(self)@.flight->AwaitAlarmAck_deadline,
        ensures
            final(self)@.wf(),
            (final(self)@, action_views(actions@)) == old(self)@.on_tick(now),
    {
        self.state = State::Idle;
        self.stats.ack_timeouts = self.stats.ack_timeouts + 1;
        assert(self@.queue =~= old(self)@.queue);
        self.send_next(now)
    }

    fn build_ack_rta(&self, priority: Priority, received_seq: u16) -> (frame: Vec<u8>)
        ensures
            frame@ == self@.ack_frame(priority, received_seq),
    {
        let pdu = RtaPdu {
            priority,
            header: RtaHeader {
                dst_ref: self.cfg.remote_ref,
                src_ref: self.cfg.local_ref,
                pdu_type: PduType::Ack,
                tack: false,
                send_seq: self.last_sent_seq,
                ack_seq: received_seq,
            },
            body: RtaBody::Ack,
        };
        rta::build_frame(self.cfg.peer_mac, self.cfg.our_mac, &pdu)
    }
}

fn build_data_frame(cfg: &AlarmChannelConfig, req: &AlarmReq, seq: u16, ack_seq: u16) -> (frame:
    Vec<u8>)
    requires
        req@.block_len() <= u16::MAX,
    ensures
        frame@ == rta::frame_bytes(
            cfg.peer_mac,
            cfg.our_mac,
            rta::RtaPduView {
                priority: req.priority,
                header: RtaHeader {
                    dst_ref: cfg.remote_ref,
                    src_ref: cfg.local_ref,
                    pdu_type: PduType::Data,
                    tack: true,
                    send_seq: seq,
                    ack_seq,
                },
                body: rta::RtaBodyView::Data(
                    rta::RtaDataView::Notification(req.notification@),
                ),
            },
        ),
{
    let header = RtaHeader {
        dst_ref: cfg.remote_ref,
        src_ref: cfg.local_ref,
        pdu_type: PduType::Data,
        tack: true,
        send_seq: seq,
        ack_seq,
    };
    let mut var_part: Vec<u8> = Vec::new();
    proof {
        rta::lemma_fixed_len(req.notification@);
    }
    rta::write_notification(&mut var_part, &req.notification, req.priority);
    assert(var_part@ =~= rta::RtaDataView::Notification(req.notification@).spec_bytes(
        req.priority,
    ));
    rta::assemble_frame(cfg.peer_mac, cfg.our_mac, req.priority, &header, var_part.as_slice())
}

/// USI-specific data length in bytes, as it will appear on the wire.
fn data_len(data: &UserData) -> (n: usize)
    ensures
        n == data@.spec_bytes().len(),
{
    match data {
        UserData::Raw(v) => v.len(),
        UserData::Channel(_) => 6,
        UserData::ExtChannel(_) => 12,
    }
}

/// The alarm in flight and those that wait, oldest first.
pub open spec fn pending(c: ChannelView) -> Seq<ReqView> {
    match c.flight.req() {
        Some(req) => seq![req] + c.queue,
        None => c.queue,
    }
}

/// A queued alarm waits behind all earlier ones, whether or not it is sent at once.
pub proof fn queue_is_first_in_first_out(c: ChannelView, req: ReqView, now: u64)
    requires
        c.wf(),
    ensures
        pending(c.enqueue(req, now).0) == pending(c).push(req),
{
    assert(pending(c.enqueue(req, now).0) =~= pending(c).push(req));
}

/// Whatever arrives, and however late it is, no alarm overtakes another: the alarms pending
/// afterwards are those pending before, or all but the oldest, or none after an abort.
pub proof fn no_alarm_overtakes(c: ChannelView, frame: Seq<u8>, now: u64)
    requires
        c.wf(),
    ensures
        ({
            let after = pending(c.on_frame(frame, now).0);
            after == pending(c) || after == pending(c).skip(1) || after.len() == 0
        }),
        ({
            let after = pending(c.on_tick(now).0);
            after == pending(c) || after == pending(c).skip(1) || after.len() == 0
        }),
{
    let f = pending(c.on_frame(frame, now).0);
    let t = pending(c.on_tick(now).0);
    if c.flight.req() is Some {
        assert(pending(c).skip(1) =~= c.queue);
        if c.queue.len() > 0 {
            assert(seq![c.queue[0]] + c.queue.skip(1) =~= c.queue);
        }
    }
}

/// A DATA that was seen before is acknowledged again and changes nothing.
pub proof fn a_repeated_data_changes_nothing(
    c: ChannelView,
    priority: Priority,
    data: rta::RtaDataView,
    now: u64,
)
    ensures
        ({
            let (after, actions) = c.on_data(c.last_rx_seq, priority, data, now);
            &&& after == c
            &&& actions == seq![ActionView::Send(c.ack_frame(priority, c.last_rx_seq))]
        }),
{
}

/// An acknowledgement is reported once: the same DATA received again right after it reports
/// nothing.
pub proof fn an_alarm_is_acknowledged_once(
    c: ChannelView,
    seq: u16,
    priority: Priority,
    data: rta::RtaDataView,
    now: u64,
    later: u64,
)
    ensures
        ({
            let once = c.on_data(seq, priority, data, now).0;
            let again = once.on_data(seq, priority, data, later);
            &&& again.0 == once
            &&& again.1 == seq![ActionView::Send(once.ack_frame(priority, seq))]
        }),
{
    let once = c.on_data(seq, priority, data, now).0;
    assert(once.last_rx_seq == seq);
}

/// An alarm that the peer never confirms is resent at most `rta_retries` times: every expired
/// wait uses up one attempt until an abort ends the flight.
pub proof fn retries_are_bounded(c: ChannelView, now: u64)
    requires
        c.wf(),
        c.flight matches Flight::SentData { deadline, .. } && now >= deadline,
    ensures
        ({
            let (after, actions) = c.on_tick(now);
            if c.attempt < c.cfg.rta_retries {
                &&& after.attempt == c.attempt + 1
                &&& after.flight is SentData
                &&& actions == seq![ActionView::Send(c.flight->SentData_frame)]
            } else {
                &&& after.flight is Idle
                &&& after.queue.len() == 0
                &&& actions == seq![ActionView::Abort(AbortReason::AlarmSendFailed)]
            }
        }),
{
}

/// An alarm that was delivered is never resent and never ends the AR: when its
/// acknowledgement is late, it is dropped and the next one goes out.
pub proof fn a_delivered_alarm_never_aborts(c: ChannelView, now: u64)
    requires
        c.wf(),
        c.flight is AwaitAlarmAck,
    ensures
        ({
            let (after, actions) = c.on_tick(now);
            &&& forall|i: int|
                0 <= i < actions.len() ==> !((#[trigger] actions[i]) is Abort)
            &&& c.flight->AwaitAlarmAck_deadline <= now ==> pending(after) == c.queue
        }),
{
    if c.queue.len() > 0 {
        assert(seq![c.queue[0]] + c.queue.skip(1) =~= c.queue);
    }
}

/// Sequence numbers stay within their range, so a DATA never carries the value that stands
/// for "none", and the next number differs from the one in use.
pub proof fn sequence_numbers_stay_in_range(seq: u16)
    requires
        seq == SEQ_INIT || seq < 0x8000,
    ensures
        seq_after(seq) < 0x8000,
        seq_after(seq) != seq,
        seq != SEQ_NONE,
{
}

impl ChannelView {
    /// The alarms whose fate is known, and the one in flight.
    pub open spec fn accounted(self) -> int {
        self.stats.acked + self.stats.ack_timeouts + self.stats.send_failures + (
        if self.flight is Idle {
            0int
        } else {
            1int
        })
    }

    /// The balance of the counters: every alarm sent was acknowledged, timed out, failed, is in
    /// flight, or was dropped by an abort of the peer, which drops one at most; and none was
    /// resent more often than it may be.
    pub open spec fn balanced(self) -> bool {
        &&& self.accounted() <= self.stats.sent <= self.accounted() + self.stats.rx_err_rta
        &&& if self.stats.sent == 0 {
            self.stats.retries == 0
        } else {
            self.stats.retries <= self.cfg.rta_retries * (self.stats.sent - 1) + self.attempt
        }
    }
}

/// One alarm more to send, with the last one's retries all used.
proof fn lemma_retries_carry_over(c: ChannelView, sent: int)
    requires
        c.attempt <= c.cfg.rta_retries,
        sent > 0,
    ensures
        c.cfg.rta_retries * (sent - 1) + c.attempt <= c.cfg.rta_retries * sent,
{
    assert(c.cfg.rta_retries * (sent - 1) + c.attempt <= c.cfg.rta_retries * sent)
        by (nonlinear_arith)
        requires
            c.attempt <= c.cfg.rta_retries,
    ;
}

/// The counters balance: a fresh channel's do, and whatever is queued, received or comes due
/// keeps it so. As long as the peer has not aborted, the alarms sent are exactly those
/// acknowledged, timed out, failed and in flight.
pub proof fn the_counters_balance(c: ChannelView, req: ReqView, frame: Seq<u8>, now: u64)
    requires
        c.wf(),
        c.has_room(now),
    ensures
        c.stats == AlarmStats::zero() && c.flight is Idle ==> c.balanced(),
        c.balanced() && c.stats.rx_err_rta == 0 ==> c.stats.sent == c.accounted(),
        c.balanced() ==> c.enqueue(req, now).0.balanced(),
        c.balanced() ==> c.on_frame(frame, now).0.balanced(),
        c.balanced() ==> c.on_tick(now).0.balanced(),
{
    if c.stats.sent > 0 {
        lemma_retries_carry_over(c, c.stats.sent as int);
    }
}

/// The length that is held against the limit is the one that the notification's block
/// announces.
pub proof fn the_limit_is_on_the_announced_length(req: ReqView, p: Priority)
    requires
        req.block_len() <= 0xFFFF,
    ensures
        req.block_len() == 24 + req.notification.data.spec_bytes().len(),
        crate::bytes::be16(rta::RtaDataView::Notification(req.notification).spec_bytes(p), 2)
            == req.block_len(),
{
    let d = rta::RtaDataView::Notification(req.notification);
    rta::notifications_stand_at_their_places(req.notification);
    crate::cm::block::block_headers_stand_at_their_places(
        d.block_type(p),
        d.body_bytes().len() as int,
    );
    let h = crate::cm::block::header_bytes(d.block_type(p), d.body_bytes().len() as int);
    assert(d.spec_bytes(p)[2] == h[2] && d.spec_bytes(p)[3] == h[3]);
}

/// What goes out for an alarm: a DATA from our endpoint to the peer's that asks for its
/// acknowledgement, under the next number, and acknowledges the last DATA of the peer.
pub proof fn an_alarm_goes_out_to_the_peer(c: ChannelView, now: u64)
    requires
        c.flight is Idle,
        c.queue.len() > 0,
        now + c.cfg.rta_timeout <= u64::MAX,
        c.stats.sent < u64::MAX,
    ensures
        ({
            let (after, actions) = c.send_next(now);
            let req = c.queue[0];
            let h = c.header(PduType::Data, true, c.next_send_seq, c.last_rx_seq);
            &&& h.dst_ref == c.cfg.remote_ref && h.src_ref == c.cfg.local_ref
            &&& h.pdu_type == PduType::Data && h.tack
            &&& h.send_seq == c.next_send_seq && h.ack_seq == c.last_rx_seq
            &&& actions.len() == 1
            &&& actions[0] == ActionView::Send(
                rta::frame_bytes(
                    c.cfg.peer_mac,
                    c.cfg.our_mac,
                    rta::RtaPduView {
                        priority: req.priority,
                        header: h,
                        body: rta::RtaBodyView::Data(
                            rta::RtaDataView::Notification(req.notification),
                        ),
                    },
                ),
            )
            &&& after.flight matches Flight::SentData { req: r, seq, frame, deadline } && {
                &&& r == req && seq == c.next_send_seq
                &&& actions[0] == ActionView::Send(frame)
                &&& deadline == now + c.cfg.rta_timeout
            }
            &&& after.queue == c.queue.skip(1) && after.attempt == 0
            &&& after.last_sent_seq == c.next_send_seq && after.last_rx_seq == c.last_rx_seq
            &&& after.stats.sent == c.stats.sent + 1 && after.stats.retries == c.stats.retries
            &&& after.cfg == c.cfg && after.specifier_seq == c.specifier_seq
        }),
{
}

/// How the numbers follow one another: from the first to 0, up by one, and from 0x7FFF to 0.
pub proof fn numbers_follow_one_another(seq: u16)
    ensures
        seq_after(0xFFFF) == 0,
        seq_after(0x7FFF) == 0,
        seq < 0x7FFF ==> seq_after(seq) == seq + 1,
{
}

/// What is sent back: an acknowledgement names the DATA that it answers and asks for none; an
/// error goes out on the low channel with the numbers as they stand. Both go from our endpoint
/// to the peer's.
pub proof fn answers_go_out_to_the_peer(
    c: ChannelView,
    priority: Priority,
    seq: u16,
    status: PnioStatus,
)
    ensures
        c.ack_frame(priority, seq) == rta::frame_bytes(
            c.cfg.peer_mac,
            c.cfg.our_mac,
            rta::RtaPduView {
                priority,
                header: RtaHeader {
                    dst_ref: c.cfg.remote_ref,
                    src_ref: c.cfg.local_ref,
                    pdu_type: PduType::Ack,
                    tack: false,
                    send_seq: c.last_sent_seq,
                    ack_seq: seq,
                },
                body: rta::RtaBodyView::Ack,
            },
        ),
        c.err_frame(status) == rta::frame_bytes(
            c.cfg.peer_mac,
            c.cfg.our_mac,
            rta::RtaPduView {
                priority: Priority::Low,
                header: RtaHeader {
                    dst_ref: c.cfg.remote_ref,
                    src_ref: c.cfg.local_ref,
                    pdu_type: PduType::Error,
                    tack: false,
                    send_seq: c.last_sent_seq,
                    ack_seq: c.last_rx_seq,
                },
                body: rta::RtaBodyView::Error(status),
            },
        ),
{
}

/// A transport ACK confirms the DATA in flight just where it names its number: the alarm is
/// then given ten times as long to be acknowledged. Any other is only counted.
pub proof fn deliveries_are_confirmed_by_number(c: ChannelView, ack_seq: u16, now: u64)
    requires
        c.has_room(now),
    ensures
        ({
            let after = c.on_transport_ack(ack_seq, now);
            let fits = c.flight is SentData && c.flight->SentData_seq == ack_seq;
            &&& fits ==> (after.flight matches Flight::AwaitAlarmAck { req, deadline } && Some(req)
                == c.flight.req() && deadline == now + 10 * c.cfg.rta_timeout) && after.stats
                == c.stats
            &&& !fits ==> after.flight == c.flight && after.stats.unexpected_rx
                == c.stats.unexpected_rx + 1
            &&& after.queue == c.queue && after.last_rx_seq == c.last_rx_seq
        }),
{
}

/// An acknowledgement is that of the alarm in flight just where type, slot and subslot are its
/// own.
pub proof fn acknowledgements_are_told_by_type_and_place(c: ChannelView, a: AlarmAck)
    ensures
        c.acknowledges(a) <==> {
            &&& !(c.flight is Idle)
            &&& c.flight.req()->0.notification.alarm_type == a.alarm_type
            &&& c.flight.req()->0.notification.slot == a.slot
            &&& c.flight.req()->0.notification.subslot == a.subslot
        },
{
}

/// A new DATA is acknowledged first; the acknowledgement of the alarm in flight is reported
/// with its id and status and lets the next one go; any other content is only counted.
pub proof fn new_data_is_acknowledged_and_used(
    c: ChannelView,
    seq: u16,
    priority: Priority,
    data: rta::RtaDataView,
    now: u64,
)
    requires
        seq != c.last_rx_seq,
        c.stats.has_room(),
    ensures
        ({
            let (after, actions) = c.on_data(seq, priority, data, now);
            let used = data matches rta::RtaDataView::Ack(a) && c.acknowledges(a);
            &&& actions[0] == ActionView::Send(c.ack_frame(priority, seq))
            &&& after.last_rx_seq == seq
            &&& used ==> {
                &&& actions[1] == ActionView::Acked(c.flight.req()->0.id, data->Ack_0.status)
                &&& after.stats.acked == c.stats.acked + 1
                &&& after.stats.unexpected_rx == c.stats.unexpected_rx
            }
            &&& !used ==> {
                &&& actions.len() == 2 && actions[1] is UnexpectedRx
                &&& after.flight == c.flight && after.queue == c.queue
                &&& after.stats.acked == c.stats.acked
                &&& after.stats.unexpected_rx == c.stats.unexpected_rx + 1
            }
        }),
{
}

/// Frames are used by what they carry, and only those of the peer; any other is only counted.
pub proof fn frames_of_the_peer_are_used(c: ChannelView, frame: Seq<u8>, now: u64)
    requires
        c.stats.has_room(),
    ensures
        ({
            let (after, actions) = c.on_frame(frame, now);
            let from_peer = EthHeader::spec_parse(frame) is Ok && EthHeader::spec_parse(
                frame,
            )->Ok_0.0.src == c.cfg.peer_mac;
            let parsed = rta::spec_parse_frame(frame);
            let body = parsed->Ok_0.body;
            &&& !from_peer || parsed is Err || body is Nack ==> {
                &&& after.flight == c.flight && after.queue == c.queue
                &&& actions.len() == 1 && actions[0] is UnexpectedRx
                &&& after.stats.unexpected_rx == c.stats.unexpected_rx + 1
            }
            &&& from_peer && parsed is Ok && body is Ack ==> actions.len() == 0 && after
                == c.on_transport_ack(parsed->Ok_0.header.ack_seq, now)
            &&& from_peer && parsed is Ok && body is Data ==> (after, actions) == c.on_data(
                parsed->Ok_0.header.send_seq,
                parsed->Ok_0.priority,
                body->Data_0,
                now,
            )
            &&& from_peer && parsed is Ok && body is Error ==> {
                &&& actions.len() == 1 && actions[0] == ActionView::Abort(
                    AbortReason::ControllerErrRta(body->Error_0),
                )
                &&& after.flight is Idle && after.queue.len() == 0
                &&& after.stats.rx_err_rta == c.stats.rx_err_rta + 1
            }
        }),
{
}

/// What comes due: a DATA that is not confirmed is sent again as it was and given its time
/// anew; before the deadline nothing happens.
pub proof fn unconfirmed_data_is_sent_again(c: ChannelView, now: u64)
    requires
        c.has_room(now),
    ensures
        c.flight is Idle ==> c.on_tick(now) == (c, Seq::<ActionView>::empty()),
        c.flight.deadline() matches Some(d) ==> (now < d ==> c.on_tick(now) == (
            c,
            Seq::<ActionView>::empty(),
        )),
        (c.flight matches Flight::SentData { deadline, .. } && now >= deadline && c.attempt
            < c.cfg.rta_retries) ==> {
            let (after, actions) = c.on_tick(now);
            &&& actions == seq![ActionView::Send(c.flight->SentData_frame)]
            &&& after.flight.req() == c.flight.req()
            &&& after.flight.deadline() == Some((now + c.cfg.rta_timeout) as u64)
            &&& after.stats.retries == c.stats.retries + 1 && after.stats.sent == c.stats.sent
            &&& after.queue == c.queue
        },
        (c.flight matches Flight::SentData { deadline, .. } && now >= deadline && c.attempt
            >= c.cfg.rta_retries) ==> c.on_tick(now).0.stats.send_failures == c.stats.send_failures
            + 1,
        (c.flight matches Flight::AwaitAlarmAck { deadline, .. } && now >= deadline) ==> c.on_tick(
            now,
        ).0.stats.ack_timeouts == c.stats.ack_timeouts + 1,
{
}

/// A new channel has sent and seen nothing.
pub proof fn a_new_channel_is_idle(cfg: AlarmChannelConfig, ch: AlarmChannel)
    requires
        call_ensures(AlarmChannel::new, (cfg,), ch),
    ensures
        ch@.cfg == cfg && ch@.flight is Idle && ch@.queue.len() == 0,
        ch@.next_send_seq == 0xFFFF && ch@.last_sent_seq == 0xFFFE && ch@.last_rx_seq == 0xFFFE,
        ch@.specifier_seq == 0 && ch@.stats.sent == 0 && ch@.stats.acked == 0,
{
}

} // verus!
