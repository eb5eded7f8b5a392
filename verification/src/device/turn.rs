//! One turn of the acyclic loop, as a machine: it says what to do next, the loop does it and
//! tells what came of it.
//!
//! A turn drains the Ethernet socket, takes the application's diagnosis commands, drains the
//! RPC socket and the events of the cyclic exchange, lets the timers run, and only then
//! performs what the alarm channel asked for on the way: performing an abort dispatches
//! again, and what came before may have replaced the channel.

use vstd::prelude::*;

use crate::alarm::{channel, rta};
use crate::dcp;
use crate::device::{
    self, AlarmBatch, BatchView, Device, DeviceView, DiagCommand, Effect, EffectView,
    FrameOutcome, LAST_INSTANT,
};
use crate::rt::RtEvent;

verus! {

/// Where a turn stands.
#[derive(Debug, Clone, Copy, PartialEq, Eq, Structural)]
pub enum Stage {
    /// Draining the Ethernet socket.
    Ethernet,
    /// Taking the application's diagnosis commands.
    Diagnoses,
    /// Draining the RPC socket.
    Rpc,
    /// Draining the events of the cyclic exchange.
    RtEvents,
    /// Letting the timers run.
    Timers,
    /// Performing what the alarm channel asked for.
    Apply,
    /// Over.
    Done,
}

/// What came of the last action.
#[derive(Debug, PartialEq)]
pub enum TurnEvent {
    /// A frame was received.
    Frame(Vec<u8>),
    /// No frame is left.
    NoFrame,
    /// The commands that were queued.
    Commands(Vec<DiagCommand>),
    /// A datagram was handled, and what came of it dispatched.
    Handled,
    /// No datagram is left.
    NoDatagram,
    /// An event of the cyclic exchange.
    Rt(RtEvent),
    /// No such event is left.
    NoRtEvent,
    /// The timers of the context manager ran, and what came of it was dispatched.
    Ticked,
    /// The effects were performed.
    Performed,
}

/// What the loop is to do next.
#[derive(Debug, PartialEq)]
pub enum TurnAction {
    /// Receive a frame.
    ReceiveFrame,
    /// Take the queued commands.
    TakeCommands,
    /// Receive a datagram, handle it and dispatch what comes of it.
    ReceiveDatagram,
    /// Take an event of the cyclic exchange.
    TakeRtEvent,
    /// Let the timers of the context manager run and dispatch what comes of it.
    Tick,
    /// Perform these effects.
    Perform(Vec<Effect>),
    /// End the turn.
    Finish,
}

/// What a [`TurnAction`] holds.
pub enum TurnActionView {
    ReceiveFrame,
    TakeCommands,
    ReceiveDatagram,
    TakeRtEvent,
    Tick,
    Perform(Seq<EffectView>),
    Finish,
}

impl View for TurnAction {
    type V = TurnActionView;

    open spec fn view(&self) -> TurnActionView {
        match *self {
            TurnAction::ReceiveFrame => TurnActionView::ReceiveFrame,
            TurnAction::TakeCommands => TurnActionView::TakeCommands,
            TurnAction::ReceiveDatagram => TurnActionView::ReceiveDatagram,
            TurnAction::TakeRtEvent => TurnActionView::TakeRtEvent,
            TurnAction::Tick => TurnActionView::Tick,
            TurnAction::Perform(effects) => TurnActionView::Perform(device::effect_views(effects@)),
            TurnAction::Finish => TurnActionView::Finish,
        }
    }
}

/// A turn of the acyclic loop.
#[derive(Debug, PartialEq)]
pub struct Turn {
    /// Where the turn stands.
    pub stage: Stage,
    /// What the alarm channel asked for so far.
    pub pending: Vec<AlarmBatch>,
}

/// What a [`Turn`] holds.
pub struct TurnView {
    pub stage: Stage,
    pub pending: Seq<BatchView>,
}

impl View for Turn {
    type V = TurnView;

    open spec fn view(&self) -> TurnView {
        TurnView { stage: self.stage, pending: device::batch_views(self.pending@) }
    }
}

/// What DCP asks for when a frame has arrived: an Identify request is answered outside, a Set
/// request with what was decided, and nothing else is answered.
pub open spec fn dcp_reply(frame: Seq<u8>, d: DeviceView) -> Option<EffectView> {
    if dcp::is_identify(frame) {
        match dcp::spec_identify_request(frame) {
            Ok(Some(request)) => Some(EffectView::AnswerIdentify(request)),
            _ => None,
        }
    } else {
        match dcp::set_request_of(frame) {
            Ok(Some(request)) => match dcp::set_answer(request, d.dcp) {
                Ok(bytes) => Some(EffectView::SendEth(bytes)),
                Err(_) => None,
            },
            _ => None,
        }
    }
}

/// A step of a turn: the turn and the device after it, and what to do next.
pub struct Turned {
    pub turn: TurnView,
    pub device: DeviceView,
    pub action: TurnActionView,
}

impl TurnView {
    /// Whether the turn waits to hear of `e`.
    pub open spec fn waits_for(self, e: TurnEvent) -> bool {
        match e {
            TurnEvent::Frame(_) | TurnEvent::NoFrame => self.stage == Stage::Ethernet,
            TurnEvent::Commands(_) => self.stage == Stage::Diagnoses,
            TurnEvent::Handled | TurnEvent::NoDatagram => self.stage == Stage::Rpc,
            TurnEvent::Rt(_) | TurnEvent::NoRtEvent => self.stage == Stage::RtEvents,
            TurnEvent::Ticked => self.stage == Stage::Timers,
            TurnEvent::Performed => self.stage == Stage::Ethernet || self.stage == Stage::RtEvents
                || self.stage == Stage::Apply,
        }
    }

    /// The turn in `stage`, asking for `action`.
    pub open spec fn asking(self, stage: Stage, d: DeviceView, action: TurnActionView) -> Turned {
        Turned { turn: TurnView { stage, ..self }, device: d, action }
    }

    /// The turn with one batch more to perform at its end, unless it asks for nothing.
    pub open spec fn collecting(self, epoch: u64, actions: Seq<channel::ActionView>) -> TurnView {
        if actions.len() == 0 {
            self
        } else {
            TurnView { pending: self.pending.push(BatchView { epoch, actions }), ..self }
        }
    }

    /// A received frame: alarm frames go to the channel, everything else to DCP, whose
    /// answer is given at once.
    pub open spec fn with_frame(self, frame: Seq<u8>, d: DeviceView, now: u64) -> Turned {
        let after = d.after_frame(frame, now);
        if rta::is_alarm(frame) {
            self.collecting(d.alarm_epoch, d.frame_actions(frame, now)).asking(
                Stage::Ethernet,
                after,
                TurnActionView::ReceiveFrame,
            )
        } else {
            match dcp_reply(frame, d) {
                Some(reply) => self.asking(
                    Stage::Ethernet,
                    after,
                    TurnActionView::Perform(seq![reply]),
                ),
                None => self.asking(Stage::Ethernet, after, TurnActionView::ReceiveFrame),
            }
        }
    }

    /// The next batch, or the end of the turn.
    pub open spec fn applying(self, d: DeviceView) -> Turned {
        if self.pending.len() == 0 {
            self.asking(Stage::Done, d, TurnActionView::Finish)
        } else {
            let b = self.pending[0];
            Turned {
                turn: TurnView { stage: Stage::Apply, pending: self.pending.skip(1) },
                device: if d.is_current(b.epoch) {
                    d.stats_published()
                } else {
                    d
                },
                action: TurnActionView::Perform(d.batch_effects(b)),
            }
        }
    }

    /// The RTA timers run, the counters are mirrored, and the batches are applied.
    pub open spec fn with_timers(self, d: DeviceView, now: u64) -> Turned {
        match d.alarm {
            Some(ch) => self.collecting(d.alarm_epoch, ch.on_tick(now).1).applying(
                d.with_channel(ch.on_tick(now).0).stats_published(),
            ),
            None => self.applying(d),
        }
    }

    /// The step that an event leads to. What taking commands does to the device is said by
    /// [`DeviceView::drained`]; here it is left as it was.
    pub open spec fn turned(self, e: TurnEvent, d: DeviceView, now: u64) -> Turned {
        match e {
            TurnEvent::Frame(f) => self.with_frame(f@, d, now),
            TurnEvent::NoFrame => self.asking(
                Stage::Diagnoses,
                d.stats_published(),
                TurnActionView::TakeCommands,
            ),
            TurnEvent::Commands(cmds) => TurnView {
                pending: self.pending + d.drained(cmds@, now).1,
                ..self
            }.asking(Stage::Rpc, d, TurnActionView::ReceiveDatagram),
            TurnEvent::Handled => self.asking(Stage::Rpc, d, TurnActionView::ReceiveDatagram),
            TurnEvent::NoDatagram => self.asking(
                Stage::RtEvents,
                d,
                TurnActionView::TakeRtEvent,
            ),
            TurnEvent::Rt(e) => self.asking(
                Stage::RtEvents,
                d,
                TurnActionView::Perform(d.rt_effects(e)),
            ),
            TurnEvent::NoRtEvent => self.asking(Stage::Timers, d, TurnActionView::Tick),
            TurnEvent::Ticked => self.with_timers(d, now),
            TurnEvent::Performed => match self.stage {
                Stage::Ethernet => self.asking(Stage::Ethernet, d, TurnActionView::ReceiveFrame),
                Stage::RtEvents => self.asking(Stage::RtEvents, d, TurnActionView::TakeRtEvent),
                _ => self.applying(d),
            },
        }
    }
}

impl Turn {
    /// A turn that begins; its first action is to receive a frame.
    pub fn new() -> (t: Turn)
        ensures
            t@ == (TurnView { stage: Stage::Ethernet, pending: Seq::empty() }),
    {
        let t = Turn { stage: Stage::Ethernet, pending: Vec::new() };
        assert(t@.pending =~= Seq::empty());
        t
    }

    /// Whether the turn waits to hear of `e`.
    pub fn expects(&self, e: &TurnEvent) -> (r: bool)
        ensures
            r == self@.waits_for(*e),
    {
        match e {
            TurnEvent::Frame(_) => self.stage == Stage::Ethernet,
            TurnEvent::NoFrame => self.stage == Stage::Ethernet,
            TurnEvent::Commands(_) => self.stage == Stage::Diagnoses,
            TurnEvent::Handled => self.stage == Stage::Rpc,
            TurnEvent::NoDatagram => self.stage == Stage::Rpc,
            TurnEvent::Rt(_) => self.stage == Stage::RtEvents,
            TurnEvent::NoRtEvent => self.stage == Stage::RtEvents,
            TurnEvent::Ticked => self.stage == Stage::Timers,
            TurnEvent::Performed => self.stage == Stage::Ethernet || self.stage == Stage::RtEvents
                || self.stage == Stage::Apply,
        }
    }

    fn collect(&mut self, b: AlarmBatch)
        ensures
            final(self)@ == (TurnView { pending: old(self)@.pending.push(b@), ..old(self)@ }),
    {
        self.pending.push(b);
        assert(self@.pending =~= old(self)@.pending.push(b@));
    }

    fn on_frame(&mut self, frame: &[u8], dev: &mut Device, now: u64) -> (a: TurnAction)
        requires
            old(dev)@.wf(),
            old(dev)@.has_room(),
            now <= LAST_INSTANT,
            4 * frame@.len() <= 3 * u16::MAX,
            old(self).stage == Stage::Ethernet,
        ensures
            final(dev)@.wf(),
            final(dev).diag_list() == old(dev).diag_list(),
            (Turned { turn: final(self)@, device: final(dev)@, action: a@ })
                == old(self)@.with_frame(frame@, old(dev)@, now),
    {
        match dev.on_eth_frame(frame, now) {
            FrameOutcome::Ignored => TurnAction::ReceiveFrame,
            FrameOutcome::Alarm(b) => {
                self.collect(b);
                TurnAction::ReceiveFrame
            },
            FrameOutcome::Dcp(Ok(Some(reply))) => {
                let mut effects: Vec<Effect> = Vec::new();
                effects.push(Effect::SendEth(reply));
                assert(device::effect_views(effects@) =~= seq![EffectView::SendEth(reply@)]);
                TurnAction::Perform(effects)
            },
            FrameOutcome::Identify(Ok(Some(request))) => {
                let mut effects: Vec<Effect> = Vec::new();
                effects.push(Effect::AnswerIdentify(request));
                assert(device::effect_views(effects@)
                    =~= seq![EffectView::AnswerIdentify(request@)]);
                TurnAction::Perform(effects)
            },
            FrameOutcome::Identify(_) | FrameOutcome::Dcp(_) => TurnAction::ReceiveFrame,
        }
    }

    fn apply(&mut self, dev: &mut Device) -> (a: TurnAction)
        requires
            old(dev)@.wf(),
        ensures
            final(dev)@.wf(),
            final(dev).diag_list() == old(dev).diag_list(),
            (Turned { turn: final(self)@, device: final(dev)@, action: a@ })
                == old(self)@.applying(old(dev)@),
    {
        if self.pending.len() == 0 {
            self.stage = Stage::Done;
            return TurnAction::Finish;
        }
        self.stage = Stage::Apply;
        let b = self.pending.remove(0);
        proof {
            assert(old(self)@.pending[0] == b@);
            assert(self@.pending =~= old(self)@.pending.skip(1));
        }
        TurnAction::Perform(dev.apply_alarm_actions(b))
    }

    fn on_timers(&mut self, dev: &mut Device, now: u64) -> (a: TurnAction)
        requires
            old(dev)@.wf(),
            old(dev)@.has_room(),
            now <= LAST_INSTANT,
        ensures
            final(dev)@.wf(),
            final(dev).diag_list() == old(dev).diag_list(),
            (Turned { turn: final(self)@, device: final(dev)@, action: a@ })
                == old(self)@.with_timers(old(dev)@, now),
    {
        match dev.on_alarm_tick(now) {
            Some(b) => {
                proof {
                    let actions = old(dev)@.alarm->0.on_tick(now).1;
                    let made = old(dev)@.batches(actions);
                    assert(made.len() == 1);
                    assert(made[0] == b@);
                }
                self.collect(b);
            },
            None => {},
        }
        dev.publish_alarm_stats();
        self.apply(dev)
    }

    /// Takes what came of the last action, and decides what to do next.
    pub fn next(&mut self, e: TurnEvent, dev: &mut Device, now: u64) -> (a: TurnAction)
        requires
            old(self)@.waits_for(e),
            old(dev)@.wf(),
            old(dev)@.has_room(),
            now <= LAST_INSTANT,
            e matches TurnEvent::Frame(f) ==> 4 * f@.len() <= 3 * u16::MAX,
        ensures
            final(dev)@.wf(),
            ({
                let t = old(self)@.turned(e, old(dev)@, now);
                &&& final(self)@ == t.turn
                &&& a@ == t.action
                &&& match e {
                    TurnEvent::Commands(cmds) => if cmds@.len() == 0 {
                        final(dev)@ == old(dev)@
                    } else {
                        &&& final(dev)@ == old(dev)@.drained(cmds@, now).0.diag_published(
                            final(dev).diag_list(),
                        )
                        &&& crate::diag::ascending(final(dev).diag_list())
                        &&& crate::diag::by_key(final(dev).diag_list()) == final(dev)@.active
                    },
                    _ => final(dev)@ == t.device && final(dev).diag_list() == old(dev).diag_list(),
                }
            }),
    {
        match e {
            TurnEvent::Frame(f) => self.on_frame(f.as_slice(), dev, now),
            TurnEvent::NoFrame => {
                dev.publish_alarm_stats();
                self.stage = Stage::Diagnoses;
                TurnAction::TakeCommands
            },
            TurnEvent::Commands(cmds) => {
                let mut more = dev.drain_diag_queue(&cmds, now);
                let ghost (a, b) = (self.pending@, more@);
                self.pending.append(&mut more);
                proof {
                    assert(self.pending@ =~= a + b);
                    assert(device::batch_views(self.pending@) =~= device::batch_views(a) + device::batch_views(b));
                }
                self.stage = Stage::Rpc;
                TurnAction::ReceiveDatagram
            },
            TurnEvent::Handled => TurnAction::ReceiveDatagram,
            TurnEvent::NoDatagram => {
                self.stage = Stage::RtEvents;
                TurnAction::TakeRtEvent
            },
            TurnEvent::Rt(event) => TurnAction::Perform(dev.on_rt_event(&event)),
            TurnEvent::NoRtEvent => {
                self.stage = Stage::Timers;
                TurnAction::Tick
            },
            TurnEvent::Ticked => self.on_timers(dev, now),
            TurnEvent::Performed => match self.stage {
                Stage::Ethernet => TurnAction::ReceiveFrame,
                Stage::RtEvents => TurnAction::TakeRtEvent,
                _ => self.apply(dev),
            },
        }
    }
}

// ---------------------------------------------------------------------------------
// Laws
// ---------------------------------------------------------------------------------

/// No Identify request is lost: a frame that carries one leads to its answer being asked for,
/// and to nothing else.
pub proof fn an_identify_request_is_handed_on(t: TurnView, frame: Seq<u8>, d: DeviceView, now: u64)
    requires
        dcp::spec_identify_request(frame) matches Ok(Some(_)),
    ensures
        ({
            let s = t.with_frame(frame, d, now);
            &&& dcp::spec_identify_request(frame) matches Ok(Some(request)) && s.action
                == TurnActionView::Perform(seq![EffectView::AnswerIdentify(request)])
            &&& s.device == d
            &&& s.turn.pending == t.pending
        }),
{
}

/// What the alarm channel asked for waits for the end of the turn: until the timers have
/// run, batches are only added, behind those already there.
pub proof fn batches_wait_for_the_end(t: TurnView, e: TurnEvent, d: DeviceView, now: u64)
    requires
        t.waits_for(e),
        t.stage != Stage::Timers,
        t.stage != Stage::Apply,
    ensures
        t.pending.is_prefix_of(t.turned(e, d, now).turn.pending),
{
}

/// A turn ends: at its end, every batch performed leaves one less, and after the last the
/// turn is over.
pub proof fn applying_comes_to_an_end(t: TurnView, d: DeviceView, now: u64)
    requires
        t.stage == Stage::Apply,
    ensures
        ({
            let s = t.turned(TurnEvent::Performed, d, now);
            if t.pending.len() == 0 {
                s.turn.stage == Stage::Done && s.action is Finish
            } else {
                s.turn.stage == Stage::Apply && s.turn.pending.len() < t.pending.len()
            }
        }),
{
}

/// A batch of a channel that is gone by the end of the turn leads to nothing.
pub proof fn a_stale_batch_leads_to_nothing(t: TurnView, d: DeviceView, now: u64)
    requires
        t.stage == Stage::Apply,
        t.pending.len() > 0,
        !d.is_current(t.pending[0].epoch),
    ensures
        t.turned(TurnEvent::Performed, d, now).action == TurnActionView::Perform(
            Seq::<EffectView>::empty(),
        ),
        t.turned(TurnEvent::Performed, d, now).device == d,
{
}

/// A turn goes stage by stage: frames until there are none, the commands, datagrams until there
/// are none, the events of the cyclic exchange until there are none, the timers, and then what
/// the alarm channel asked for, batch by batch.
pub proof fn a_turn_goes_stage_by_stage(t: TurnView, e: TurnEvent, d: DeviceView, now: u64)
    requires
        t.waits_for(e),
    ensures
        ({
            let s = t.turned(e, d, now);
            &&& e is NoFrame ==> s.action is TakeCommands && s.turn.stage == Stage::Diagnoses
            &&& e is Commands || e is Handled ==> s.action is ReceiveDatagram && s.turn.stage
                == Stage::Rpc
            &&& e is NoDatagram ==> s.action is TakeRtEvent && s.turn.stage == Stage::RtEvents
            &&& e matches TurnEvent::Rt(x) ==> s.action == TurnActionView::Perform(d.rt_effects(x))
                && s.turn.stage == Stage::RtEvents
            &&& e is NoRtEvent ==> s.action is Tick && s.turn.stage == Stage::Timers
            &&& e is Performed && t.stage == Stage::Ethernet ==> s.action is ReceiveFrame
            &&& e is Performed && t.stage == Stage::RtEvents ==> s.action is TakeRtEvent
            &&& e is Performed && t.stage == Stage::Apply && t.pending.len() > 0 ==> s.action
                == TurnActionView::Perform(d.batch_effects(t.pending[0])) && s.turn.pending
                == t.pending.skip(1)
            &&& e is Performed && t.stage == Stage::Apply && t.pending.len() == 0 ==> s.action
                is Finish
            &&& e matches TurnEvent::Frame(f) ==> s.turn.stage == Stage::Ethernet && (s.action
                is ReceiveFrame || s.action is Perform)
        }),
{
}

/// What DCP answers: an Identify request is handed on to be answered, a Set is answered with
/// what was decided, and nothing else is.
pub proof fn only_requests_are_answered(frame: Seq<u8>, d: DeviceView)
    ensures
        match dcp_reply(frame, d) {
            Some(EffectView::AnswerIdentify(r)) => dcp::is_identify(frame)
                && dcp::spec_identify_request(frame) == Ok::<_, dcp::DcpError>(Some(r)),
            Some(EffectView::SendEth(b)) => {
                &&& !dcp::is_identify(frame)
                &&& dcp::set_request_of(frame) matches Ok(Some(q)) && dcp::set_answer(q, d.dcp)
                    == Ok::<_, dcp::DcpError>(b)
            },
            Some(_) => false,
            None => {
                &&& dcp::is_identify(frame) ==> !(dcp::spec_identify_request(frame) matches Ok(
                    Some(_),
                ))
                &&& !dcp::is_identify(frame) ==> !(dcp::set_request_of(frame) matches Ok(Some(q))
                    && dcp::set_answer(q, d.dcp) is Ok)
            },
        },
{
}

/// What the alarm channel asks for is collected with the number of the channel, in order, and
/// nothing is collected where it asks for nothing.
pub proof fn requests_of_the_channel_are_collected(
    t: TurnView,
    epoch: u64,
    actions: Seq<channel::ActionView>,
)
    ensures
        actions.len() == 0 ==> t.collecting(epoch, actions) == t,
        actions.len() > 0 ==> {
            let after = t.collecting(epoch, actions);
            &&& after.pending.drop_last() == t.pending
            &&& after.pending.last().epoch == epoch && after.pending.last().actions == actions
            &&& after.stage == t.stage
        },
{
    if actions.len() > 0 {
        assert(t.collecting(epoch, actions).pending.drop_last() =~= t.pending);
    }
}

} // verus!
