//! The control flow of the cyclic loop, as a machine: it says what to do next, the loop does
//! it and tells what came of it.
//!
//! One iteration is a wait, then, if the timer is due, a tick (retry the publish that could
//! not happen, check the watchdog, take the inputs, produce a frame), then a receive pass,
//! then the judgement whether the loop still gets anywhere.

use vstd::prelude::*;

use crate::rt::image::Validity;
use crate::rt::runner::{
    should_drain, Pending, ProviderState, Received, RtConfig, RtLoop, TickGrid, MAX_RX_PER_PASS,
};

verus! {

/// One step of preparing the thread that will run the loop. A step that fails is reported as
/// a scheduling warning and does not keep the loop from running.
#[derive(Debug, Clone, Copy, PartialEq, Eq, Structural)]
pub enum SetupStep {
    /// Pin the thread to this CPU.
    Pin(usize),
    /// Run the thread at this `SCHED_FIFO` priority.
    Fifo(u8),
    /// Lock the process memory.
    LockMemory,
    /// Touch the stack once. Useful even where the memory could not be locked.
    PrefaultStack,
}

/// The steps that a configuration asks for, in order.
pub open spec fn steps_of(
    cpu_pin: Option<usize>,
    rt_priority: Option<u8>,
    lock_memory: bool,
) -> Seq<SetupStep> {
    let pin = match cpu_pin {
        Some(cpu) => seq![SetupStep::Pin(cpu)],
        None => Seq::empty(),
    };
    let fifo = match rt_priority {
        Some(p) => seq![SetupStep::Fifo(p)],
        None => Seq::empty(),
    };
    let lock = if lock_memory {
        seq![SetupStep::LockMemory, SetupStep::PrefaultStack]
    } else {
        Seq::empty()
    };
    pin + fifo + lock
}

/// The steps of preparing the thread for a configuration.
pub fn setup_steps(cfg: &RtConfig) -> (steps: Vec<SetupStep>)
    ensures
        steps@ == steps_of(cfg.cpu_pin, cfg.rt_priority, cfg.lock_memory),
{
    let mut steps: Vec<SetupStep> = Vec::new();
    if let Some(cpu) = cfg.cpu_pin {
        steps.push(SetupStep::Pin(cpu));
    }
    if let Some(p) = cfg.rt_priority {
        steps.push(SetupStep::Fifo(p));
    }
    if cfg.lock_memory {
        steps.push(SetupStep::LockMemory);
        steps.push(SetupStep::PrefaultStack);
    }
    assert(steps@ =~= steps_of(cfg.cpu_pin, cfg.rt_priority, cfg.lock_memory));
    steps
}

/// What came of the last action.
#[derive(Debug, Clone, Copy, PartialEq, Eq, Structural)]
pub enum LoopEvent {
    /// The wait ended; whether the timer and the socket are ready.
    Woke { timer: bool, socket: bool },
    /// The timer was read at `now`.
    Timer { now: u64, expirations: u64 },
    /// The pending publish was tried again.
    Retried { taken: bool },
    /// The watchdog was checked.
    Watchdog { expired: bool, provider: ProviderState, last_rx: Option<u64> },
    /// The image was handed the watchdog's validity.
    ValiditySet { taken: bool },
    /// The inputs were asked for.
    Snapshot { taken: bool },
    /// The produced frame was out at `now`.
    Sent { now: u64 },
    /// The socket was probed.
    Probed { readable: bool },
    /// One `recv` ended at `now`.
    Received { outcome: Received, provider: ProviderState, now: u64 },
    /// The image was handed an accepted frame's data.
    Published { taken: bool },
    /// What was asked for failed.
    Failed,
    /// A stop was requested while nothing was going on.
    StopRequested,
}

/// Why the loop ends.
#[derive(Debug, Clone, Copy, PartialEq, Eq, Structural)]
pub enum StopReason {
    /// A stop was requested.
    Requested,
    /// Waiting failed.
    Poll,
    /// Reading the timer failed.
    Timer,
    /// Sending a frame failed.
    Send,
    /// Receiving a frame failed.
    Receive,
    /// Nothing was processed for too long.
    NoProgress,
}

/// What the loop is to do next.
#[derive(Debug, Clone, Copy, PartialEq, Eq, Structural)]
pub enum LoopAction {
    /// Wait for the timer, the socket or a stop request.
    Wait,
    /// Read the timer.
    ReadTimer,
    /// Try this publish again.
    Retry(Pending),
    /// Check the watchdog as of the instant of the tick.
    CheckWatchdog { now: u64 },
    /// The watchdog expired: report it, mark the outputs stale, hand the image this.
    Expire(Validity),
    /// Take the inputs from the image.
    TakeInputs,
    /// Produce a frame for so many expirations and send it.
    Produce(u32),
    /// See whether the socket is readable.
    Probe,
    /// Receive one frame.
    Receive,
    /// Hand the image the frame's data with this validity.
    Publish(Validity),
    /// End the loop.
    Stop(StopReason),
}

/// A measurement to be recorded.
#[derive(Debug, Clone, Copy, PartialEq, Eq, Structural)]
pub enum Sample {
    /// How late a tick was, in nanoseconds.
    Lateness(u64),
    /// How long a tick took until its frame was out, in nanoseconds.
    Work(u64),
    /// The time since the frame accepted before, in nanoseconds.
    Interval(u64),
}

/// What the machine decides.
#[derive(Debug, Clone, Copy, PartialEq, Eq, Structural)]
pub struct Decision {
    /// What to do.
    pub action: LoopAction,
    /// What to record first.
    pub sample: Option<Sample>,
}

/// Where in an iteration the machine stands: what it waits to hear of.
#[derive(Debug, Clone, Copy, PartialEq, Eq, Structural)]
pub enum Phase {
    Waiting,
    ReadingTimer,
    /// In a tick of so many expirations.
    Retrying { publish: Pending, expirations: u32 },
    CheckingWatchdog { expirations: u32 },
    Expiring { validity: Validity, expirations: u32 },
    TakingInputs { expirations: u32 },
    Producing,
    Probing,
    Receiving,
    /// A frame is being published; whether the pass goes on after it.
    Publishing { validity: Validity, go_on: bool },
    Stopped,
}

/// The machine.
#[derive(Debug, Clone, Copy, PartialEq, Eq, Structural)]
pub struct RtMachine {
    /// What is decided about ticks, frames and publishes.
    pub state: RtLoop,
    /// Whether the transport has a file descriptor to wait on.
    pub has_fd: bool,
    /// Whether the socket was ready when the wait ended.
    pub socket: bool,
    /// The frames asked for in the current receive pass.
    pub received: usize,
    /// When the timer was read for the last tick.
    pub tick: u64,
    /// Where the machine stands.
    pub phase: Phase,
}

/// A step: the machine after it, and what it decides.
pub struct Stepped {
    pub machine: RtMachine,
    pub decision: Decision,
}

impl RtMachine {
    /// The machine in `phase`, asking for `action`.
    pub open spec fn asking(self, phase: Phase, action: LoopAction) -> Stepped {
        Stepped {
            machine: RtMachine { phase, ..self },
            decision: Decision { action, sample: None },
        }
    }

    /// The machine at its end.
    pub open spec fn stopping(self, reason: StopReason) -> Stepped {
        self.asking(Phase::Stopped, LoopAction::Stop(reason))
    }

    /// The machine with another loop state.
    pub open spec fn with_state(self, state: RtLoop) -> RtMachine {
        RtMachine { state, ..self }
    }

    /// The end of an iteration: wait again, unless nothing was processed for too long.
    pub open spec fn finishing(self) -> Stepped {
        let m = self.with_state(self.state.after_finish());
        if self.state.is_stuck() {
            m.stopping(StopReason::NoProgress)
        } else {
            m.asking(Phase::Waiting, LoopAction::Wait)
        }
    }

    /// The next frame of a receive pass: a socket that can be probed is probed first.
    pub open spec fn receiving(self) -> Stepped {
        if self.has_fd {
            self.asking(Phase::Probing, LoopAction::Probe)
        } else {
            self.asking(Phase::Receiving, LoopAction::Receive)
        }
    }

    /// What follows the tick: a receive pass, if the socket is ready, or, where it cannot
    /// tell, if there was a tick.
    pub open spec fn draining(self) -> Stepped {
        if if self.has_fd {
            self.socket
        } else {
            self.state.ticked
        } {
            RtMachine { received: 0, ..self }.receiving()
        } else {
            self.finishing()
        }
    }

    /// What follows one frame of a pass: the next one, if the pass goes on and is not long
    /// enough.
    pub open spec fn going_on(self, go_on: bool) -> Stepped {
        let m = RtMachine { received: (self.received + 1) as usize, ..self };
        if go_on && m.received < MAX_RX_PER_PASS {
            m.receiving()
        } else {
            m.finishing()
        }
    }

    /// What follows a timer read.
    pub open spec fn after_timer(self, now: u64, expirations: u64) -> Stepped {
        let m = self.with_state(self.state.after_timer(now, expirations));
        match self.state.tick_plan(now, expirations) {
            None => m.draining(),
            Some(plan) => {
                let begun = RtMachine { tick: now, ..m };
                let next = match plan.retry {
                    Some(p) => begun.asking(
                        Phase::Retrying { publish: p, expirations: plan.expirations },
                        LoopAction::Retry(p),
                    ),
                    None => begun.asking(
                        Phase::CheckingWatchdog { expirations: plan.expirations },
                        LoopAction::CheckWatchdog { now },
                    ),
                };
                next.with_sample(Sample::Lateness(plan.lateness))
            },
        }
    }

    /// What follows one `recv`.
    pub open spec fn after_receive(
        self,
        outcome: Received,
        provider: ProviderState,
        now: u64,
    ) -> Stepped {
        let plan = self.state.rx_plan(outcome, provider, now, self.has_fd);
        let m = self.with_state(self.state.after_receive(outcome));
        match plan.publish {
            Some(v) => {
                let next = m.asking(
                    Phase::Publishing { validity: v, go_on: plan.go_on },
                    LoopAction::Publish(v),
                );
                match plan.interval {
                    Some(ns) => next.with_sample(Sample::Interval(ns)),
                    None => next,
                }
            },
            None => m.going_on(plan.go_on),
        }
    }

    /// How long the current tick has taken by `now`; nothing, if the clock went back.
    pub open spec fn worked(self, now: u64) -> u64 {
        if now > self.tick {
            (now - self.tick) as u64
        } else {
            0
        }
    }

    /// Why the loop ends if what the machine asked for failed.
    pub open spec fn failure(self) -> StopReason {
        match self.phase {
            Phase::ReadingTimer => StopReason::Timer,
            Phase::Producing => StopReason::Send,
            Phase::Receiving => StopReason::Receive,
            _ => StopReason::Poll,
        }
    }

    /// Whether the machine waits to hear of `e`. Only a wait, a timer read, a send, a probe
    /// and a `recv` can fail; a stop is noticed between iterations.
    pub open spec fn waits_for(self, e: LoopEvent) -> bool {
        match e {
            LoopEvent::Woke { .. } => self.phase is Waiting,
            LoopEvent::StopRequested => self.phase is Waiting,
            LoopEvent::Timer { .. } => self.phase is ReadingTimer,
            LoopEvent::Retried { .. } => self.phase is Retrying,
            LoopEvent::Watchdog { .. } => self.phase is CheckingWatchdog,
            LoopEvent::ValiditySet { .. } => self.phase is Expiring,
            LoopEvent::Snapshot { .. } => self.phase is TakingInputs,
            LoopEvent::Sent { .. } => self.phase is Producing,
            LoopEvent::Probed { .. } => self.phase is Probing,
            LoopEvent::Received { .. } => self.phase is Receiving,
            LoopEvent::Published { .. } => self.phase is Publishing,
            LoopEvent::Failed => self.phase is Waiting || self.phase is ReadingTimer || self.phase
                is Producing || self.phase is Probing || self.phase is Receiving,
        }
    }

    /// The step that an event leads to.
    pub open spec fn stepped(self, e: LoopEvent) -> Stepped {
        match (e, self.phase) {
            (LoopEvent::Failed, _) => self.stopping(self.failure()),
            (LoopEvent::StopRequested, _) => self.stopping(StopReason::Requested),
            (LoopEvent::Woke { timer, socket }, _) => {
                let begun = RtLoop { ticked: false, progressed: false, ..self.state };
                let m = RtMachine { socket, ..self.with_state(begun) };
                if timer {
                    m.asking(Phase::ReadingTimer, LoopAction::ReadTimer)
                } else {
                    m.draining()
                }
            },
            (LoopEvent::Timer { now, expirations }, _) => self.after_timer(now, expirations),
            (LoopEvent::Retried { taken }, Phase::Retrying { publish, expirations }) => {
                self.with_state(self.state.after_retry(publish, taken)).asking(
                    Phase::CheckingWatchdog { expirations },
                    LoopAction::CheckWatchdog { now: self.tick },
                )
            },
            (
                LoopEvent::Watchdog { expired, provider, last_rx },
                Phase::CheckingWatchdog { expirations },
            ) => {
                let v = self.state.expiry(provider, last_rx, self.tick);
                if expired {
                    self.asking(
                        Phase::Expiring { validity: v, expirations },
                        LoopAction::Expire(v),
                    )
                } else {
                    self.asking(Phase::TakingInputs { expirations }, LoopAction::TakeInputs)
                }
            },
            (LoopEvent::ValiditySet { taken }, Phase::Expiring { validity, expirations }) => {
                self.with_state(self.state.after_validity(validity, taken)).asking(
                    Phase::TakingInputs { expirations },
                    LoopAction::TakeInputs,
                )
            },
            (LoopEvent::Snapshot { taken }, Phase::TakingInputs { expirations }) => {
                self.with_state(self.state.after_snapshot(taken)).asking(
                    Phase::Producing,
                    LoopAction::Produce(expirations),
                )
            },
            (LoopEvent::Sent { now }, _) => self.draining().with_sample(Sample::Work(self.worked(now))),
            (LoopEvent::Probed { readable }, _) => if readable {
                self.asking(Phase::Receiving, LoopAction::Receive)
            } else {
                self.finishing()
            },
            (LoopEvent::Received { outcome, provider, now }, _) => self.after_receive(
                outcome,
                provider,
                now,
            ),
            (LoopEvent::Published { taken }, Phase::Publishing { validity, go_on }) => {
                self.with_state(self.state.after_publish(validity, taken)).going_on(go_on)
            },
            _ => self.asking(self.phase, LoopAction::Wait),
        }
    }

    /// Whether the receive pass is within its bound.
    pub open spec fn wf(self) -> bool {
        &&& self.received <= MAX_RX_PER_PASS
        &&& (self.phase is Probing || self.phase is Receiving || self.phase is Publishing)
            ==> self.received < MAX_RX_PER_PASS
    }
}

impl Stepped {
    /// The same step with a measurement to be recorded.
    pub open spec fn with_sample(self, sample: Sample) -> Stepped {
        Stepped { decision: Decision { sample: Some(sample), ..self.decision }, ..self }
    }
}

impl RtMachine {
    /// A machine that has not waited yet, for a loop of this period in nanoseconds.
    pub fn new(period: u64, has_fd: bool) -> (m: Self)
        ensures
            m.wf(),
            m == (RtMachine {
                state: RtLoop {
                    grid: TickGrid { period, start: None, ticks: 0 },
                    pending: None,
                    no_progress: 0,
                    ticked: false,
                    progressed: false,
                    input_snapshot_reused: 0,
                    output_publish_deferred: 0,
                    rx_invalid: 0,
                },
                has_fd,
                socket: false,
                received: 0,
                tick: 0,
                phase: Phase::Waiting,
            }),
    {
        RtMachine {
            state: RtLoop::new(period),
            has_fd,
            socket: false,
            received: 0,
            tick: 0,
            phase: Phase::Waiting,
        }
    }

    fn ask(&mut self, phase: Phase, action: LoopAction) -> (d: Decision)
        ensures
            (Stepped { machine: *final(self), decision: d }) == old(self).asking(phase, action),
    {
        self.phase = phase;
        Decision { action, sample: None }
    }

    fn finish(&mut self) -> (d: Decision)
        ensures
            (Stepped { machine: *final(self), decision: d }) == old(self).finishing(),
    {
        if self.state.finish() {
            self.ask(Phase::Stopped, LoopAction::Stop(StopReason::NoProgress))
        } else {
            self.ask(Phase::Waiting, LoopAction::Wait)
        }
    }

    fn receive(&mut self) -> (d: Decision)
        ensures
            (Stepped { machine: *final(self), decision: d }) == old(self).receiving(),
    {
        if self.has_fd {
            self.ask(Phase::Probing, LoopAction::Probe)
        } else {
            self.ask(Phase::Receiving, LoopAction::Receive)
        }
    }

    fn drain(&mut self) -> (d: Decision)
        ensures
            (Stepped { machine: *final(self), decision: d }) == old(self).draining(),
    {
        if should_drain(self.has_fd, self.socket, self.state.ticked) {
            self.received = 0;
            self.receive()
        } else {
            self.finish()
        }
    }

    fn go_on(&mut self, go_on: bool) -> (d: Decision)
        requires
            old(self).received < MAX_RX_PER_PASS,
        ensures
            (Stepped { machine: *final(self), decision: d }) == old(self).going_on(go_on),
    {
        self.received = self.received + 1;
        if go_on && self.received < MAX_RX_PER_PASS {
            self.receive()
        } else {
            self.finish()
        }
    }

    fn on_timer(&mut self, now: u64, expirations: u64) -> (d: Decision)
        ensures
            (Stepped { machine: *final(self), decision: d }) == old(self).after_timer(
                now,
                expirations,
            ),
    {
        match self.state.on_timer(now, expirations) {
            None => self.drain(),
            Some(plan) => {
                self.tick = now;
                let d = match plan.retry {
                    Some(p) => self.ask(
                        Phase::Retrying { publish: p, expirations: plan.expirations },
                        LoopAction::Retry(p),
                    ),
                    None => self.ask(
                        Phase::CheckingWatchdog { expirations: plan.expirations },
                        LoopAction::CheckWatchdog { now },
                    ),
                };
                Decision { action: d.action, sample: Some(Sample::Lateness(plan.lateness)) }
            },
        }
    }

    fn on_sent(&mut self, now: u64) -> (d: Decision)
        ensures
            (Stepped { machine: *final(self), decision: d }) == old(self).draining().with_sample(
                Sample::Work(old(self).worked(now)),
            ),
    {
        let work: u64 = now.saturating_sub(self.tick);
        let d = self.drain();
        Decision { action: d.action, sample: Some(Sample::Work(work)) }
    }

    fn on_receive(&mut self, outcome: Received, provider: ProviderState, now: u64) -> (d: Decision)
        requires
            old(self).received < MAX_RX_PER_PASS,
        ensures
            (Stepped { machine: *final(self), decision: d }) == old(self).after_receive(
                outcome,
                provider,
                now,
            ),
    {
        let plan = self.state.on_receive(outcome, provider, now, self.has_fd);
        match plan.publish {
            Some(v) => {
                let d = self.ask(
                    Phase::Publishing { validity: v, go_on: plan.go_on },
                    LoopAction::Publish(v),
                );
                match plan.interval {
                    Some(ns) => Decision { action: d.action, sample: Some(Sample::Interval(ns)) },
                    None => d,
                }
            },
            None => self.go_on(plan.go_on),
        }
    }

    fn fail(&mut self) -> (d: Decision)
        ensures
            (Stepped { machine: *final(self), decision: d }) == old(self).stopping(
                old(self).failure(),
            ),
    {
        let reason = match self.phase {
            Phase::ReadingTimer => StopReason::Timer,
            Phase::Producing => StopReason::Send,
            Phase::Receiving => StopReason::Receive,
            _ => StopReason::Poll,
        };
        self.ask(Phase::Stopped, LoopAction::Stop(reason))
    }

    /// Whether the machine waits to hear of `e`.
    pub fn expects(&self, e: &LoopEvent) -> (r: bool)
        ensures
            r == self.waits_for(*e),
    {
        match (*e, self.phase) {
            (LoopEvent::Woke { .. }, Phase::Waiting) => true,
            (LoopEvent::StopRequested, Phase::Waiting) => true,
            (LoopEvent::Timer { .. }, Phase::ReadingTimer) => true,
            (LoopEvent::Retried { .. }, Phase::Retrying { .. }) => true,
            (LoopEvent::Watchdog { .. }, Phase::CheckingWatchdog { .. }) => true,
            (LoopEvent::ValiditySet { .. }, Phase::Expiring { .. }) => true,
            (LoopEvent::Snapshot { .. }, Phase::TakingInputs { .. }) => true,
            (LoopEvent::Sent { .. }, Phase::Producing) => true,
            (LoopEvent::Probed { .. }, Phase::Probing) => true,
            (LoopEvent::Received { .. }, Phase::Receiving) => true,
            (LoopEvent::Published { .. }, Phase::Publishing { .. }) => true,
            (LoopEvent::Failed, Phase::Waiting) => true,
            (LoopEvent::Failed, Phase::ReadingTimer) => true,
            (LoopEvent::Failed, Phase::Producing) => true,
            (LoopEvent::Failed, Phase::Probing) => true,
            (LoopEvent::Failed, Phase::Receiving) => true,
            _ => false,
        }
    }

    /// Takes what came of the last action, and decides what to do next.
    pub fn step(&mut self, e: LoopEvent) -> (d: Decision)
        requires
            old(self).wf(),
            old(self).waits_for(e),
        ensures
            final(self).wf(),
            (Stepped { machine: *final(self), decision: d }) == old(self).stepped(e),
    {
        match (e, self.phase) {
            (LoopEvent::Failed, _) => self.fail(),
            (LoopEvent::StopRequested, _) => self.ask(
                Phase::Stopped,
                LoopAction::Stop(StopReason::Requested),
            ),
            (LoopEvent::Woke { timer, socket }, _) => {
                self.state.begin();
                self.socket = socket;
                if timer {
                    self.ask(Phase::ReadingTimer, LoopAction::ReadTimer)
                } else {
                    self.drain()
                }
            },
            (LoopEvent::Timer { now, expirations }, _) => self.on_timer(now, expirations),
            (LoopEvent::Retried { taken }, Phase::Retrying { publish, expirations }) => {
                self.state.on_retry(publish, taken);
                let now: u64 = self.tick;
                self.ask(
                    Phase::CheckingWatchdog { expirations },
                    LoopAction::CheckWatchdog { now },
                )
            },
            (
                LoopEvent::Watchdog { expired, provider, last_rx },
                Phase::CheckingWatchdog { expirations },
            ) => {
                if expired {
                    let validity = self.state.expired_validity(provider, last_rx, self.tick);
                    self.ask(
                        Phase::Expiring { validity, expirations },
                        LoopAction::Expire(validity),
                    )
                } else {
                    self.ask(Phase::TakingInputs { expirations }, LoopAction::TakeInputs)
                }
            },
            (LoopEvent::ValiditySet { taken }, Phase::Expiring { validity, expirations }) => {
                self.state.on_validity(validity, taken);
                self.ask(Phase::TakingInputs { expirations }, LoopAction::TakeInputs)
            },
            (LoopEvent::Snapshot { taken }, Phase::TakingInputs { expirations }) => {
                self.state.on_snapshot(taken);
                self.ask(Phase::Producing, LoopAction::Produce(expirations))
            },
            (LoopEvent::Sent { now }, _) => self.on_sent(now),
            (LoopEvent::Probed { readable }, _) => {
                if readable {
                    self.ask(Phase::Receiving, LoopAction::Receive)
                } else {
                    self.finish()
                }
            },
            (LoopEvent::Received { outcome, provider, now }, _) => self.on_receive(
                outcome,
                provider,
                now,
            ),
            (LoopEvent::Published { taken }, Phase::Publishing { validity, go_on }) => {
                self.state.on_publish(validity, taken);
                self.go_on(go_on)
            },
            _ => Decision { action: LoopAction::Wait, sample: None },
        }
    }
}

// ---------------------------------------------------------------------------------
// Laws
// ---------------------------------------------------------------------------------

impl RtMachine {
    /// Whether the machine is in a tick of `n` expirations whose frame is not produced yet.
    pub open spec fn owes(self, n: u32) -> bool {
        match self.phase {
            Phase::Retrying { expirations, .. } => expirations == n,
            Phase::CheckingWatchdog { expirations } => expirations == n,
            Phase::Expiring { expirations, .. } => expirations == n,
            Phase::TakingInputs { expirations } => expirations == n,
            _ => false,
        }
    }

    /// How many steps of a tick are left at most until its frame is produced.
    pub open spec fn steps_left(self) -> nat {
        match self.phase {
            Phase::Retrying { .. } => 4,
            Phase::CheckingWatchdog { .. } => 3,
            Phase::Expiring { .. } => 2,
            Phase::TakingInputs { .. } => 1,
            _ => 0,
        }
    }
}

/// A tick comes to its frame: whatever its steps give, each brings the frame nearer, and the
/// last asks for it, for the expirations that the tick began with. Once that frame is out,
/// the time since the tick began is recorded, and nothing before.
pub proof fn a_tick_comes_to_its_frame(m: RtMachine, e: LoopEvent, n: u32, now: u64)
    requires
        m.owes(n),
        m.waits_for(e),
    ensures
        ({
            let s = m.stepped(e);
            &&& s.machine.tick == m.tick
            &&& s.decision.sample is None
            &&& {
                ||| s.machine.owes(n) && s.machine.steps_left() < m.steps_left()
                ||| s.machine.phase is Producing && s.decision.action == LoopAction::Produce(n)
            }
            &&& s.machine.phase is Producing ==> s.machine.stepped(
                LoopEvent::Sent { now },
            ).decision.sample == Some(Sample::Work(m.worked(now)))
        }),
{
}

/// Every timer read of at least one expiration begins a tick, with its lateness recorded and
/// what was pending tried again first. The first read of all counts as one expiration, so
/// that the time of setting up is no missed cycle.
pub proof fn an_expiration_begins_a_tick(m: RtMachine, now: u64, expirations: u64)
    requires
        m.phase is ReadingTimer,
        expirations > 0,
    ensures
        ({
            let s = m.stepped(LoopEvent::Timer { now, expirations });
            let first = m.state.grid.ticks == 0;
            &&& s.machine.owes(crate::rt::runner::seen_expirations(first, expirations))
            &&& first ==> s.machine.owes(1)
            &&& s.machine.tick == now
            &&& m.state.pending matches Some(p) ==> s.decision.action == LoopAction::Retry(p)
            &&& s.decision.sample == Some(
                Sample::Lateness(m.state.tick_plan(now, expirations)->0.lateness),
            )
        }),
{
}

/// What a run of the loop came to.
pub struct Tally {
    pub machine: RtMachine,
    /// Timer reads of at least one expiration.
    pub ticks: nat,
    /// Frames sent.
    pub sent: nat,
    /// Recorded latenesses.
    pub lateness: nat,
    /// Recorded work times.
    pub work: nat,
}

impl Tally {
    /// The tally with one more event.
    pub open spec fn after(self, e: LoopEvent) -> Tally {
        let s = self.machine.stepped(e);
        let is_tick = e matches LoopEvent::Timer { expirations, .. } && expirations > 0;
        let is_lateness = s.decision.sample matches Some(Sample::Lateness(_));
        let is_work = s.decision.sample matches Some(Sample::Work(_));
        Tally {
            machine: s.machine,
            ticks: self.ticks + (if is_tick { 1nat } else { 0 }),
            sent: self.sent + (if e is Sent { 1nat } else { 0 }),
            lateness: self.lateness + (if is_lateness { 1nat } else { 0 }),
            work: self.work + (if is_work { 1nat } else { 0 }),
        }
    }
}

impl RtMachine {
    /// What a run over `events` came to, begun by this machine.
    pub open spec fn tally(self, events: Seq<LoopEvent>) -> Tally
        decreases events.len(),
    {
        if events.len() == 0 {
            Tally { machine: self, ticks: 0, sent: 0, lateness: 0, work: 0 }
        } else {
            self.tally(events.drop_last()).after(events.last())
        }
    }

    /// Whether `events` is a run without failures: each is what the machine waits for.
    pub open spec fn runs(self, events: Seq<LoopEvent>) -> bool
        decreases events.len(),
    {
        events.len() == 0 || {
            &&& self.runs(events.drop_last())
            &&& self.tally(events.drop_last()).machine.waits_for(events.last())
            &&& !(events.last() is Failed)
        }
    }

    /// Whether the machine is between the begin of a tick and its frame being out.
    pub open spec fn in_tick(self) -> bool {
        self.phase is Producing || exists|n: u32| self.owes(n)
    }
}

/// Every frame is measured: over a run without failures there is one frame per timer read of
/// at least one expiration (the last may still be owed), one lateness per such read and one
/// work time per frame sent.
pub proof fn every_frame_is_measured(m: RtMachine, events: Seq<LoopEvent>)
    requires
        m.phase is Waiting,
        m.runs(events),
    ensures
        ({
            let t = m.tally(events);
            &&& t.work == t.sent
            &&& t.lateness == t.ticks
            &&& t.ticks == t.sent + (if t.machine.in_tick() { 1nat } else { 0 })
        }),
    decreases events.len(),
{
    if events.len() > 0 {
        let before = m.tally(events.drop_last());
        let e = events.last();
        let s = before.machine.stepped(e);
        every_frame_is_measured(m, events.drop_last());
        match before.machine.phase {
            Phase::Retrying { expirations, .. } => {
                assert(before.machine.owes(expirations) && s.machine.owes(expirations));
            },
            Phase::CheckingWatchdog { expirations } => {
                assert(before.machine.owes(expirations) && s.machine.owes(expirations));
            },
            Phase::Expiring { expirations, .. } => {
                assert(before.machine.owes(expirations) && s.machine.owes(expirations));
            },
            Phase::TakingInputs { expirations } => {
                assert(before.machine.owes(expirations));
            },
            Phase::ReadingTimer => {
                if let LoopEvent::Timer { now, expirations } = e {
                    if expirations > 0 {
                        an_expiration_begins_a_tick(before.machine, now, expirations);
                    }
                }
            },
            _ => {},
        }
    }
}

/// A flooded socket cannot starve the send cycle: once a pass has taken its share, the
/// machine waits for the timer again (or ends).
pub proof fn a_long_pass_ends(m: RtMachine, e: LoopEvent)
    requires
        m.wf(),
        m.received + 1 == MAX_RX_PER_PASS,
        m.waits_for(e),
        e is Published || (e matches LoopEvent::Received { outcome, .. } && !(outcome
            is Accepted)),
    ensures
        m.stepped(e).machine.phase is Waiting || m.stepped(e).machine.phase is Stopped,
{
}

/// A loop that gets nowhere ends: an iteration without a tick or a frame, after enough of
/// them, is the last; one with either starts the count anew.
pub proof fn a_loop_without_progress_ends(m: RtMachine)
    ensures
        !m.state.progressed && m.state.no_progress + 1
            >= crate::rt::runner::MAX_NO_PROGRESS_ITERATIONS ==> m.finishing().decision.action
            == LoopAction::Stop(StopReason::NoProgress),
        m.state.progressed ==> m.finishing().machine.state.no_progress == 0
            && m.finishing().decision.action == LoopAction::Wait,
{
}

/// Whatever fails ends the loop.
pub proof fn a_failure_ends_the_loop(m: RtMachine)
    requires
        m.waits_for(LoopEvent::Failed),
    ensures
        m.stepped(LoopEvent::Failed).machine.phase is Stopped,
        m.stepped(LoopEvent::Failed).decision.action == LoopAction::Stop(m.failure()),
        m.stepped(LoopEvent::Failed).machine.state == m.state,
{
}

/// Just what is configured is prepared, in this order: the CPU, the priority, the memory and
/// then the stack.
pub proof fn what_is_configured_is_prepared(
    cpu_pin: Option<usize>,
    rt_priority: Option<u8>,
    lock_memory: bool,
)
    ensures
        ({
            let steps = steps_of(cpu_pin, rt_priority, lock_memory);
            let (p, f) = (
                if cpu_pin is Some { 1int } else { 0 },
                if rt_priority is Some { 1int } else { 0 },
            );
            &&& steps.len() == p + f + (if lock_memory { 2int } else { 0 })
            &&& cpu_pin matches Some(c) ==> steps[0] == SetupStep::Pin(c)
            &&& rt_priority matches Some(prio) ==> steps[p] == SetupStep::Fifo(prio)
            &&& lock_memory ==> steps[p + f] == SetupStep::LockMemory && steps[p + f + 1]
                == SetupStep::PrefaultStack
        }),
{
}

/// What a tick does, step by step: the publish that was put off is tried again, the watchdog
/// is checked as of the tick, an expiry is handed on as the engine tells it, the inputs are
/// taken, the frame is produced.
pub proof fn a_tick_goes_step_by_step(
    m: RtMachine,
    taken: bool,
    expired: bool,
    provider: ProviderState,
    last_rx: Option<u64>,
)
    ensures
        m.phase is Retrying ==> m.stepped(LoopEvent::Retried { taken }).decision.action
            == (LoopAction::CheckWatchdog { now: m.tick }),
        m.phase is CheckingWatchdog ==> {
            let s = m.stepped(LoopEvent::Watchdog { expired, provider, last_rx });
            &&& s.machine.state == m.state
            &&& !expired ==> s.decision.action == LoopAction::TakeInputs
            &&& expired ==> s.decision.action == LoopAction::Expire(
                m.state.expiry(provider, last_rx, m.tick),
            )
        },
        m.phase is Expiring ==> m.stepped(LoopEvent::ValiditySet { taken }).decision.action
            == LoopAction::TakeInputs,
        m.phase matches Phase::TakingInputs { expirations } ==> m.stepped(
            LoopEvent::Snapshot { taken },
        ).decision.action == LoopAction::Produce(expirations),
{
}

/// What follows a wait: a due timer is read; else a ready socket is received from, and one
/// that cannot tell is left until the next tick.
pub proof fn a_wait_ends_in_a_tick_or_a_pass(m: RtMachine, timer: bool, socket: bool)
    requires
        m.phase is Waiting,
    ensures
        ({
            let s = m.stepped(LoopEvent::Woke { timer, socket });
            &&& timer ==> s.decision.action == LoopAction::ReadTimer
            &&& !timer && m.has_fd && socket ==> s.decision.action == LoopAction::Probe
                && s.machine.received == 0
            &&& !timer && !(m.has_fd && socket) ==> s.decision.action == LoopAction::Wait
                || s.decision.action == LoopAction::Stop(StopReason::NoProgress)
            &&& s.machine.socket == socket
        }),
        m.stepped(LoopEvent::StopRequested).decision.action == LoopAction::Stop(
            StopReason::Requested,
        ),
{
}

/// What a receive pass does: a readable socket is received from, an accepted frame is
/// published, and after each the pass goes on until it has taken 64.
pub proof fn a_pass_goes_frame_by_frame(
    m: RtMachine,
    outcome: Received,
    provider: ProviderState,
    now: u64,
    taken: bool,
)
    requires
        m.wf(),
    ensures
        m.phase is Probing ==> {
            &&& m.stepped(LoopEvent::Probed { readable: true }).decision.action
                == LoopAction::Receive
            &&& m.stepped(LoopEvent::Probed { readable: false }).decision.action !is Receive
            &&& m.stepped(LoopEvent::Probed { readable: false }).decision.action !is Probe
        },
        m.phase is Receiving ==> {
            let s = m.stepped(LoopEvent::Received { outcome, provider, now });
            &&& s.decision.action is Publish <==> outcome is Accepted
            &&& s.decision.action matches LoopAction::Publish(v) ==> v == m.state.rx_plan(
                outcome,
                provider,
                now,
                m.has_fd,
            ).publish->0
            &&& !(outcome is Accepted) ==> (s.decision.action is Receive || s.decision.action
                is Probe <==> m.received + 1 < 64 && (m.has_fd || !(outcome is Nothing)))
        },
        m.phase matches Phase::Publishing { validity, go_on } ==> {
            let s = m.stepped(LoopEvent::Published { taken });
            &&& s.decision.action is Receive || s.decision.action is Probe <==> go_on
                && m.received + 1 < 64
            &&& s.machine.state.pending == (if taken { None } else { Some(Pending::Data(validity)) })
        },
{
}

/// Every failure is told by what failed.
pub proof fn failures_are_told_apart(m: RtMachine)
    requires
        m.waits_for(LoopEvent::Failed),
    ensures
        ({
            let reason = m.stepped(LoopEvent::Failed).decision.action;
            &&& reason == LoopAction::Stop(StopReason::Timer) <==> m.phase is ReadingTimer
            &&& reason == LoopAction::Stop(StopReason::Send) <==> m.phase is Producing
            &&& reason == LoopAction::Stop(StopReason::Receive) <==> m.phase is Receiving
            &&& reason == LoopAction::Stop(StopReason::Poll) <==> m.phase is Waiting || m.phase
                is Probing
        }),
{
}

/// The work of a tick is the time from its timer read to its frame being out.
pub proof fn work_is_the_time_since_the_tick(m: RtMachine, now: u64)
    requires
        m.phase is Producing,
    ensures
        m.stepped(LoopEvent::Sent { now }).decision.sample == Some(
            Sample::Work(
                if now > m.tick {
                    (now - m.tick) as u64
                } else {
                    0
                },
            ),
        ),
{
}

} // verus!
