//! What holds of an alarm channel over all that happens to it: how its alarms are numbered,
//! repeated and counted.

use vstd::prelude::*;

use crate::alarm::channel::{
    ActionView, AlarmChannelConfig, AlarmStats, ChannelView, Flight, ReqView,
};
use crate::alarm::rta::{self, PduType, RtaHeader, SEQ_INIT, SEQ_NONE};
use crate::cm::AbortReason;
use crate::eth::EthHeader;

verus! {

/// Something that happens to a channel.
pub enum ChannelEvent {
    /// An alarm that the peer takes is queued.
    Enqueue { req: ReqView, now: u64 },
    /// A frame arrives.
    Frame { frame: Seq<u8>, now: u64 },
    /// Time passes.
    Tick { now: u64 },
    /// A sequence number for a specifier is taken.
    Specifier,
}

/// The `SendSeqNum` of the alarm that is sent as the `k`th, counted from 0.
pub open spec fn numbered(k: int) -> u16 {
    if k == 0 {
        0xFFFF
    } else {
        ((k - 1) % 0x8000) as u16
    }
}

impl ChannelView {
    /// A channel to which nothing has happened yet.
    pub open spec fn fresh(cfg: AlarmChannelConfig) -> ChannelView {
        ChannelView {
            cfg,
            flight: Flight::Idle,
            queue: Seq::empty(),
            next_send_seq: SEQ_INIT,
            last_sent_seq: SEQ_NONE,
            last_rx_seq: SEQ_NONE,
            attempt: 0,
            stats: AlarmStats::zero(),
            specifier_seq: 0,
        }
    }

    /// The channel after `e`, and what it asks for.
    #[verifier::opaque]
    pub open spec fn with(self, e: ChannelEvent) -> (ChannelView, Seq<ActionView>) {
        match e {
            ChannelEvent::Enqueue { req, now } => self.enqueue(req, now),
            ChannelEvent::Frame { frame, now } => self.on_frame(frame, now),
            ChannelEvent::Tick { now } => self.on_tick(now),
            ChannelEvent::Specifier => (
                ChannelView {
                    specifier_seq: ((self.specifier_seq + 1) % 0x0800) as u16,
                    ..self
                },
                Seq::empty(),
            ),
        }
    }

    /// Whether `e` can happen: an alarm is not too long for the peer, and deadlines and
    /// counters fit their numbers.
    pub open spec fn admits(self, e: ChannelEvent) -> bool {
        match e {
            ChannelEvent::Enqueue { req, now } => req.block_len()
                <= self.cfg.max_alarm_data_length && self.has_room(now),
            ChannelEvent::Frame { now, .. } => self.has_room(now),
            ChannelEvent::Tick { now } => self.has_room(now),
            ChannelEvent::Specifier => true,
        }
    }

    /// The channel after all of `h`.
    pub open spec fn after(self, h: Seq<ChannelEvent>) -> ChannelView
        decreases h.len(),
    {
        if h.len() == 0 {
            self
        } else {
            self.after(h.drop_last()).with(h.last()).0
        }
    }

    /// Whether `h` can happen, one after the other.
    pub open spec fn lives(self, h: Seq<ChannelEvent>) -> bool
        decreases h.len(),
    {
        h.len() == 0 || (self.lives(h.drop_last()) && self.after(h.drop_last()).admits(h.last()))
    }

    /// The frame of the alarm that `e` sends for the first time, if it sends one.
    pub open spec fn first_sent(self, e: ChannelEvent) -> Option<Seq<u8>> {
        let after = self.with(e).0;
        match after.flight {
            Flight::SentData { frame, .. } if after.stats.sent != self.stats.sent => Some(frame),
            _ => None,
        }
    }

    /// The frames of all alarms that `h` sends for the first time, in order.
    pub open spec fn transmissions(self, h: Seq<ChannelEvent>) -> Seq<Seq<u8>>
        decreases h.len(),
    {
        if h.len() == 0 {
            Seq::empty()
        } else {
            let before = self.transmissions(h.drop_last());
            match self.after(h.drop_last()).first_sent(h.last()) {
                Some(frame) => before.push(frame),
                None => before,
            }
        }
    }

    /// The `SendSeqNum` of the DATA that `e` brings from the peer, if it brings one that is
    /// not the last one again.
    pub open spec fn accepted(self, e: ChannelEvent) -> Option<u16> {
        match e {
            ChannelEvent::Frame { frame, .. } => match data_from(self.cfg, frame) {
                Some(seq) if seq != self.last_rx_seq => Some(seq),
                _ => None,
            },
            _ => None,
        }
    }

    /// The `SendSeqNum` of the last DATA that `h` brings from the peer, `0xFFFE` for none.
    pub open spec fn last_accepted(self, h: Seq<ChannelEvent>) -> u16
        decreases h.len(),
    {
        if h.len() == 0 {
            0xFFFE
        } else {
            match self.after(h.drop_last()).accepted(h.last()) {
                Some(seq) => seq,
                None => self.last_accepted(h.drop_last()),
            }
        }
    }
}

/// The `SendSeqNum` of the DATA that a frame carries from the peer, if it carries one.
pub open spec fn data_from(cfg: AlarmChannelConfig, frame: Seq<u8>) -> Option<u16> {
    match (rta::spec_parse_frame(frame), EthHeader::spec_parse(frame)) {
        (Ok(pdu), Ok((eth, _))) if eth.src == cfg.peer_mac && pdu.body is Data => Some(
            pdu.header.send_seq,
        ),
        _ => None,
    }
}

/// What happens keeps a channel as it must be, and its configuration.
proof fn lemma_with(c: ChannelView, e: ChannelEvent)
    requires
        c.wf(),
        c.admits(e),
    ensures
        c.with(e).0.wf(),
        c.with(e).0.cfg == c.cfg,
        c.with(e).0.stats.sent == c.stats.sent + (if c.first_sent(e) is Some {
            1int
        } else {
            0int
        }),
        c.with(e).0.last_rx_seq == (match c.accepted(e) {
            Some(seq) => seq,
            None => c.last_rx_seq,
        }),
        c.with(e).0.next_send_seq == (if c.first_sent(e) is Some {
            crate::alarm::channel::seq_after(c.next_send_seq)
        } else {
            c.next_send_seq
        }),
        c.balanced() ==> c.with(e).0.balanced(),
{
    reveal(ChannelView::with);
    let after = c.with(e).0;
    match e {
        ChannelEvent::Enqueue { req, now } => {
            crate::alarm::channel::the_counters_balance(c, req, Seq::empty(), now);
            let q = c.queue.push(req);
            assert forall|i: int| 0 <= i < after.queue.len() implies (
            #[trigger] after.queue[i]).block_len() <= c.cfg.max_alarm_data_length by {
                if c.flight is Idle {
                    assert(after.queue[i] == q[i + 1]);
                } else {
                    assert(after.queue[i] == q[i]);
                }
            }
        },
        ChannelEvent::Frame { frame, now } => {
            crate::alarm::channel::the_counters_balance(c, arbitrary(), frame, now);
        },
        ChannelEvent::Tick { now } => {
            crate::alarm::channel::the_counters_balance(c, arbitrary(), Seq::empty(), now);
        },
        ChannelEvent::Specifier => {},
    }
}

/// What holds of a channel after a history: how many alarms it sent, the number of the next,
/// and what it last took from the peer.
proof fn lemma_history(cfg: AlarmChannelConfig, h: Seq<ChannelEvent>)
    requires
        ChannelView::fresh(cfg).lives(h),
    ensures
        ({
            let c = ChannelView::fresh(cfg);
            let now = c.after(h);
            &&& now.wf()
            &&& now.cfg == cfg
            &&& now.balanced()
            &&& c.transmissions(h).len() == now.stats.sent
            &&& now.next_send_seq == numbered(now.stats.sent as int)
            &&& now.last_rx_seq == c.last_accepted(h)
        }),
    decreases h.len(),
{
    let c = ChannelView::fresh(cfg);
    if h.len() > 0 {
        let (rest, e) = (h.drop_last(), h.last());
        lemma_history(cfg, rest);
        let before = c.after(rest);
        lemma_with(before, e);
        lemma_next_number(before.stats.sent as int);
        assert(c.after(h) == before.with(e).0);
        assert(c.transmissions(h) == (match before.first_sent(e) {
            Some(frame) => c.transmissions(rest).push(frame),
            None => c.transmissions(rest),
        }));
    }
}

proof fn lemma_next_number(k: int)
    requires
        k >= 0,
    ensures
        crate::alarm::channel::seq_after(numbered(k)) == numbered(k + 1),
{
}

/// The alarms of a channel are numbered: the first carries `0xFFFF`, the others count from 0
/// and begin anew behind `0x7FFF`. Each is a DATA that asks for an acknowledgement and
/// acknowledges the last DATA taken from the peer, and its frame is asked to be sent. Repeated
/// frames are not counted.
pub proof fn alarms_are_numbered(cfg: AlarmChannelConfig, h: Seq<ChannelEvent>, e: ChannelEvent)
    requires
        ChannelView::fresh(cfg).lives(h.push(e)),
        ChannelView::fresh(cfg).after(h).first_sent(e) is Some,
    ensures
        ({
            let c = ChannelView::fresh(cfg);
            let frame = c.after(h).first_sent(e)->0;
            let k = c.transmissions(h).len() as int;
            &&& c.transmissions(h.push(e)) == c.transmissions(h).push(frame)
            &&& header_of(frame) == Some(
                RtaHeader {
                    dst_ref: cfg.remote_ref,
                    src_ref: cfg.local_ref,
                    pdu_type: PduType::Data,
                    tack: true,
                    send_seq: numbered(k),
                    ack_seq: c.last_accepted(h.push(e)),
                },
            )
            &&& c.after(h).with(e).1.contains(ActionView::Send(frame))
        }),
{
    let c = ChannelView::fresh(cfg);
    let before = c.after(h);
    let all = h.push(e);
    assert(all.drop_last() =~= h);
    lemma_history(cfg, h);
    lemma_history(cfg, all);
    lemma_with(before, e);
    let frame = before.first_sent(e)->0;
    let (after, actions) = before.with(e);
    let req = after.flight->SentData_req;
    lemma_sent_frame(before, e);
    let pdu = rta::RtaPduView {
        priority: req.priority,
        header: before.header(PduType::Data, true, before.next_send_seq, after.last_rx_seq),
        body: rta::RtaBodyView::Data(rta::RtaDataView::Notification(req.notification)),
    };
    lemma_header_of(cfg, pdu);
    assert(actions.last() == ActionView::Send(frame));
    assert(actions.contains(ActionView::Send(frame))) by {
        assert(actions[actions.len() - 1] == ActionView::Send(frame));
    }
}

/// The number that the `k`th alarm of a channel carries.
pub proof fn the_kth_alarm_carries_its_number(
    cfg: AlarmChannelConfig,
    h: Seq<ChannelEvent>,
    k: int,
)
    requires
        ChannelView::fresh(cfg).lives(h),
        0 <= k < ChannelView::fresh(cfg).transmissions(h).len(),
    ensures
        header_of(ChannelView::fresh(cfg).transmissions(h)[k]) matches Some(x) && x.send_seq
            == numbered(k) && x.tack && x.pdu_type == PduType::Data,
    decreases h.len(),
{
    let c = ChannelView::fresh(cfg);
    let (rest, e) = (h.drop_last(), h.last());
    assert(rest.push(e) =~= h);
    if k < c.transmissions(rest).len() {
        the_kth_alarm_carries_its_number(cfg, rest, k);
    } else {
        alarms_are_numbered(cfg, rest, e);
    }
}

/// The header of an alarm frame, if there is one.
pub open spec fn header_of(frame: Seq<u8>) -> Option<RtaHeader> {
    match (EthHeader::spec_parse(frame), RtaHeader::spec_parse(frame.skip(20))) {
        (Ok((_, off)), Ok((h, _))) if off == 18 => Some(h),
        _ => None,
    }
}

proof fn lemma_header_of(cfg: AlarmChannelConfig, pdu: rta::RtaPduView)
    ensures
        header_of(rta::frame_bytes(cfg.peer_mac, cfg.our_mac, pdu)) == Some(pdu.header),
{
    let none = Seq::<u8>::empty();
    let var_part = pdu.body.spec_bytes(pdu.priority);
    let frame = rta::frame_bytes(cfg.peer_mac, cfg.our_mac, pdu);
    rta::lemma_frame_front(cfg.peer_mac, cfg.our_mac, pdu.priority, pdu.header, var_part, none);
    assert(frame + none =~= frame);
    rta::rta_header_round_trip(pdu.header, var_part.len() as u16, var_part + none);
}

/// The frame that is sent first is the DATA of the alarm in flight.
proof fn lemma_sent_frame(c: ChannelView, e: ChannelEvent)
    requires
        c.wf(),
        c.admits(e),
        c.first_sent(e) is Some,
    ensures
        ({
            let (after, actions) = c.with(e);
            let req = after.flight->SentData_req;
            &&& after.flight is SentData
            &&& c.first_sent(e)->0 == rta::frame_bytes(
                c.cfg.peer_mac,
                c.cfg.our_mac,
                rta::RtaPduView {
                    priority: req.priority,
                    header: c.header(PduType::Data, true, c.next_send_seq, after.last_rx_seq),
                    body: rta::RtaBodyView::Data(rta::RtaDataView::Notification(req.notification)),
                },
            )
            &&& actions.len() > 0
            &&& actions.last() == ActionView::Send(c.first_sent(e)->0)
        }),
{
    reveal(ChannelView::with);
}

/// A DATA that was taken is acknowledged again and not used again: as long as no other DATA
/// has been taken since, it is answered by its acknowledgement alone, and the channel stays as
/// it is.
pub proof fn a_data_is_used_once(
    c: ChannelView,
    frame: Seq<u8>,
    t0: u64,
    h: Seq<ChannelEvent>,
    t1: u64,
)
    requires
        c.wf(),
        c.has_room(t0),
        data_from(c.cfg, frame) is Some,
        c.on_frame(frame, t0).0.lives(h),
        takes_none(c.on_frame(frame, t0).0, h),
    ensures
        ({
            let before = c.on_frame(frame, t0).0.after(h);
            let (after, actions) = before.on_frame(frame, t1);
            &&& after == before
            &&& actions.len() == 1
            &&& actions[0] matches ActionView::Send(k) && {
                &&& rta::spec_parse_frame(k) matches Ok(pdu)
                &&& pdu.body is Ack
                &&& pdu.header.ack_seq == data_from(c.cfg, frame)->0
            }
        }),
{
    reveal(ChannelView::with);
    let first = c.on_frame(frame, t0).0;
    let seq = data_from(c.cfg, frame)->0;
    lemma_with(c, ChannelEvent::Frame { frame, now: t0 });
    lemma_takes_none(first, h);
    let before = first.after(h);
    let pdu = rta::spec_parse_frame(frame)->Ok_0;
    let ack = rta::RtaPduView {
        priority: pdu.priority,
        header: before.header(PduType::Ack, false, before.last_sent_seq, seq),
        body: rta::RtaBodyView::Ack,
    };
    let none = Seq::<u8>::empty();
    rta::alarm_frame_round_trip(c.cfg.peer_mac, c.cfg.our_mac, ack, none);
    let k = before.ack_frame(pdu.priority, seq);
    assert(k + none =~= k);
}

/// Whether no DATA of the peer is taken in `h`.
pub open spec fn takes_none(c: ChannelView, h: Seq<ChannelEvent>) -> bool
    decreases h.len(),
{
    h.len() == 0 || (takes_none(c, h.drop_last()) && c.after(h.drop_last()).accepted(h.last())
        is None)
}

proof fn lemma_takes_none(c: ChannelView, h: Seq<ChannelEvent>)
    requires
        c.wf(),
        c.lives(h),
        takes_none(c, h),
    ensures
        c.after(h).wf(),
        c.after(h).cfg == c.cfg,
        c.after(h).last_rx_seq == c.last_rx_seq,
    decreases h.len(),
{
    if h.len() > 0 {
        lemma_takes_none(c, h.drop_last());
        lemma_with(c.after(h.drop_last()), h.last());
    }
}

/// Ticks at these instants.
pub open spec fn ticks(nows: Seq<u64>) -> Seq<ChannelEvent> {
    nows.map_values(|now: u64| ChannelEvent::Tick { now })
}

/// An alarm that is never confirmed is repeated byte for byte as often as was agreed, and then
/// ends the AR. `i` counts the ticks, each at or behind the deadline that stands then.
pub proof fn an_unconfirmed_alarm_is_repeated_and_given_up(c: ChannelView, nows: Seq<u64>, i: int)
    requires
        c.wf(),
        c.flight is SentData,
        c.attempt == 0,
        nows.len() == c.cfg.rta_retries + 1,
        c.lives(ticks(nows)),
        forall|j: int|
            0 <= j < nows.len() ==> (c.after(ticks(nows.take(j))).flight.deadline() matches Some(d)
                ==> #[trigger] nows[j] >= d),
        0 <= i < nows.len(),
    ensures
        ({
            let before = c.after(ticks(nows.take(i)));
            let (after, actions) = before.on_tick(nows[i]);
            if i < c.cfg.rta_retries {
                &&& actions == seq![ActionView::Send(c.flight->SentData_frame)]
                &&& after.stats.retries == before.stats.retries + 1
                &&& after.flight.deadline() == Some((nows[i] + c.cfg.rta_timeout) as u64)
                &&& nows[i] + c.cfg.rta_timeout <= u64::MAX
                &&& after.flight.req() == c.flight.req()
            } else {
                &&& actions == seq![ActionView::Abort(AbortReason::AlarmSendFailed)]
                &&& after.stats.send_failures == before.stats.send_failures + 1
                &&& after.flight.req() is None
                &&& after.queue.len() == 0
            }
        }),
{
    lemma_repeats(c, nows, i);
    let all = ticks(nows);
    let first = all.take(i + 1);
    assert(c.lives(first)) by {
        lemma_lives_take(c, all, i + 1);
    }
    assert(first.drop_last() =~= ticks(nows.take(i)));
    assert(first.last() == ChannelEvent::Tick { now: nows[i] });
    lemma_due(c.after(first.drop_last()), nows[i]);
}

/// A tick at or behind the deadline of an unconfirmed alarm.
proof fn lemma_due(c: ChannelView, now: u64)
    requires
        c.flight is SentData,
        c.flight.deadline() matches Some(d) && now >= d,
        c.has_room(now),
    ensures
        ({
            let (after, actions) = c.on_tick(now);
            if c.attempt < c.cfg.rta_retries {
                &&& actions == seq![ActionView::Send(c.flight->SentData_frame)]
                &&& after.stats.retries == c.stats.retries + 1
                &&& after.flight.deadline() == Some((now + c.cfg.rta_timeout) as u64)
                &&& now + c.cfg.rta_timeout <= u64::MAX
                &&& after.flight.req() == c.flight.req()
            } else {
                &&& actions == seq![ActionView::Abort(AbortReason::AlarmSendFailed)]
                &&& after.stats.send_failures == c.stats.send_failures + 1
                &&& after.flight.req() is None
                &&& after.queue.len() == 0
            }
        }),
{
}

proof fn lemma_lives_take(c: ChannelView, h: Seq<ChannelEvent>, n: int)
    requires
        c.lives(h),
        0 <= n <= h.len(),
    ensures
        c.lives(h.take(n)),
    decreases h.len(),
{
    if n < h.len() {
        lemma_lives_take(c, h.drop_last(), n);
        assert(h.drop_last().take(n) =~= h.take(n));
    } else {
        assert(h.take(n) =~= h);
    }
}

proof fn lemma_repeats(c: ChannelView, nows: Seq<u64>, i: int)
    requires
        c.wf(),
        c.flight is SentData,
        c.attempt == 0,
        nows.len() == c.cfg.rta_retries + 1,
        c.lives(ticks(nows)),
        forall|j: int|
            0 <= j < nows.len() ==> (c.after(ticks(nows.take(j))).flight.deadline() matches Some(d)
                ==> #[trigger] nows[j] >= d),
        0 <= i < nows.len(),
    ensures
        ({
            let now = c.after(ticks(nows.take(i)));
            &&& now.cfg == c.cfg
            &&& now.attempt == i
            &&& now.flight is SentData
            &&& now.flight->SentData_frame == c.flight->SentData_frame
            &&& now.flight.req() == c.flight.req()
            &&& now.flight.deadline() matches Some(d) && nows[i] >= d
        }),
    decreases i,
{
    reveal(ChannelView::with);
    let h = ticks(nows.take(i));
    if i > 0 {
        lemma_repeats(c, nows, i - 1);
        assert(h.drop_last() =~= ticks(nows.take(i - 1)));
        assert(h.last() == ChannelEvent::Tick { now: nows[i - 1] });
    } else {
        assert(h =~= Seq::<ChannelEvent>::empty());
    }
}

/// A deadline stands exactly while an alarm is in flight, and before it nothing happens by
/// itself.
pub proof fn nothing_is_due_before_the_deadline(c: ChannelView, now: u64)
    ensures
        c.flight.deadline() is Some <==> c.flight.req() is Some,
        (c.flight.deadline() matches Some(d) ==> now < d) ==> c.on_tick(now) == (
            c,
            Seq::<ActionView>::empty(),
        ),
{
}

/// Whatever happens to a channel, every alarm it sent ends in one counted way: acknowledged,
/// timed out or failed, unless it is in flight or fell to an abort of the peer; and on average
/// none is repeated more often than was agreed.
pub proof fn every_alarm_ends_in_one_way(cfg: AlarmChannelConfig, h: Seq<ChannelEvent>)
    requires
        ChannelView::fresh(cfg).lives(h),
    ensures
        ({
            let c = ChannelView::fresh(cfg).after(h);
            let s = c.stats;
            let ended = s.acked + s.ack_timeouts + s.send_failures + (if c.flight.req() is Some {
                1int
            } else {
                0int
            });
            &&& ended <= s.sent <= ended + s.rx_err_rta
            &&& s.retries <= s.sent * cfg.rta_retries
        }),
{
    lemma_history(cfg, h);
    let c = ChannelView::fresh(cfg).after(h);
    let (sent, most, attempt) = (c.stats.sent as int, cfg.rta_retries as int, c.attempt as int);
    assert(sent > 0 && attempt <= most ==> most * (sent - 1) + attempt <= sent * most)
        by (nonlinear_arith);
    assert(sent * most >= 0) by (nonlinear_arith)
        requires
            sent >= 0,
            most >= 0,
    ;
}

} // verus!
