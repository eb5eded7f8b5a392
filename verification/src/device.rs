//! The acyclic loop of the device: what is configured, what each step decides, and what it
//! reports.

use vstd::prelude::*;

use crate::alarm::channel::{self, AlarmStats, ChannelView, Flight, ReqView};
use crate::alarm::rta;
use crate::alarm::{
    is_alarm_frame, AlarmAction, AlarmChannel, AlarmChannelConfig, AlarmNotification, AlarmReq,
    AlarmSpecifier, AlarmType, Priority, Specifier,
};
use crate::bytes;
use crate::cm::{AbortReason, ArParams, ArState, DeviceModel, PnioStatus};
use crate::config::Slot;
use crate::dcp::{
    self, handle_dcp_frame, identify_request_of, is_identify_frame, DcpConfig, DcpError,
    IdentifyRequest, IdentifyView,
};
use crate::diag::{self, ChannelError, DiagStore, Diagnosis, Severity, SubmoduleInfo};
use crate::eth::{self, MacAddr, TransportError};
use crate::im::Im0;
use crate::rpc::{RpcError, Uuid};
use crate::rt::{IoImage, Layout, LayoutError, RtConfig, RtEvent, Validity, WatchdogState};

pub mod turn;

verus! {

/// Cyclic (RT) thread configuration for one AR.
///
/// `None` in [`DeviceSetup::rt`] means no cyclic thread is ever started.
#[derive(Debug, Clone, PartialEq, Eq)]
pub struct RtOptions {
    /// Interface the RT thread opens.
    pub iface: String,
    /// Pin the RT thread to this CPU, if set.
    pub cpu_pin: Option<usize>,
    /// Run the RT thread at this `SCHED_FIFO` priority, if set.
    pub rt_priority: Option<u8>,
    /// Lock process memory and pre-fault the RT stack.
    pub lock_memory: bool,
}

/// Static device identity + configuration: the DCP identity answered on the wire, the AR/slot
/// model connections are established against, the activity UUID used for our outgoing
/// ApplicationReady calls, and the cyclic thread configuration (if any) started once the AR
/// reaches `Data`.
#[derive(Debug, Clone, PartialEq)]
pub struct DeviceSetup {
    pub dcp: DcpConfig,
    pub model: DeviceModel,
    pub activity_seed: Uuid,
    pub rt: Option<RtOptions>,
    /// Device identity answered by I&M0 reads.
    pub im0: Im0,
    /// Path of the backing file for the writable I&M1-3 records; `None` keeps them in memory
    /// only (blank at startup, lost on restart).
    pub im_store: Option<String>,
}

/// One diagnosis change the application asks the acyclic loop to apply.
#[derive(Debug, Clone, Copy, PartialEq, Eq, Structural)]
pub enum DiagCommand {
    /// Raise (or change the severity of) a diagnosis.
    Raise(Diagnosis),
    /// Clear a diagnosis.
    Clear {
        slot: Slot,
        channel: u16,
        error: ChannelError,
    },
}

/// What the acyclic loop publishes for the application: the set of active diagnoses and the
/// alarm channel's counters.
///
/// The counters are mirrored from [`AlarmChannel::stats`], so they are per-AR (a new AR
/// starts a fresh channel, hence fresh counts); `rx_no_channel` is the device's own and
/// counts alarm frames that arrived with no channel open at all.
#[derive(Debug, PartialEq, Eq)]
pub struct DiagShared {
    /// The active diagnoses.
    pub active: Vec<Diagnosis>,
    /// The alarm channel's counters.
    pub stats: AlarmStats,
    /// Alarm frames that arrived with no channel open.
    pub rx_no_channel: u64,
}

impl Default for DiagShared {
    fn default() -> (r: Self)
        ensures
            r.active@ == Seq::<Diagnosis>::empty(),
            r.stats == AlarmStats::zero(),
            r.rx_no_channel == 0,
    {
        DiagShared { active: Vec::new(), stats: AlarmStats::default(), rx_no_channel: 0 }
    }
}

/// Counts of what one step of the acyclic loop processed: frames/datagrams drained from each
/// transport, and PDUs sent out (DCP responses are not counted; only RPC sends are).
#[derive(Debug, Clone, Copy, PartialEq, Eq, Structural)]
pub struct StepReport {
    pub eth_frames: usize,
    pub rpc_datagrams: usize,
    pub sent: usize,
}

impl Default for StepReport {
    fn default() -> (r: Self)
        ensures
            r == (StepReport { eth_frames: 0, rpc_datagrams: 0, sent: 0 }),
    {
        StepReport { eth_frames: 0, rpc_datagrams: 0, sent: 0 }
    }
}

/// Transport failures of the acyclic loop. Frames and datagrams that do not parse never reach
/// here: those are dropped in place.
#[derive(Debug, Clone, PartialEq, Eq)]
pub enum DeviceError {
    /// The Ethernet transport failed.
    Eth(TransportError),
    /// The RPC transport failed.
    Rpc(RpcError),
}

/// The `PNIOStatus.ErrorCode2` announced in the ERR-RTA that precedes a device-side abort, or
/// `None` when no ERR-RTA must be sent: the controller's own ERR-RTA has already torn the
/// alarm channel down on its side, so answering it would be noise.
#[verifier::allow_in_spec]
pub fn err_rta_code2(reason: AbortReason) -> Option<u8>
    returns
        (match reason {
            AbortReason::ControllerErrRta(_) => None,
            AbortReason::RtWatchdog => Some(PnioStatus::RTA_ABORT_DHT_WDT_EXPIRED),
            AbortReason::AlarmSendFailed => Some(PnioStatus::RTA_ABORT_ALARM_SEND_FAILED),
            AbortReason::RtSocket
            | AbortReason::Shutdown
            | AbortReason::ControllerRelease
            | AbortReason::ControllerReconnect
            | AbortReason::AppReadyFailed
            | AbortReason::AppReadyRejected(_)
            | AbortReason::ActivityTimeout
            | AbortReason::External(_) => Some(PnioStatus::RTA_ABORT_AR_REMOVED),
        }),
{
    match reason {
        AbortReason::ControllerErrRta(_) => None,
        AbortReason::RtWatchdog => Some(PnioStatus::RTA_ABORT_DHT_WDT_EXPIRED),
        AbortReason::AlarmSendFailed => Some(PnioStatus::RTA_ABORT_ALARM_SEND_FAILED),
        // Every other device-side abort says the same thing: this AR is gone.
        AbortReason::RtSocket
        | AbortReason::Shutdown
        | AbortReason::ControllerRelease
        | AbortReason::ControllerReconnect
        | AbortReason::AppReadyFailed
        | AbortReason::AppReadyRejected(_)
        | AbortReason::ActivityTimeout
        | AbortReason::External(_) => Some(PnioStatus::RTA_ABORT_AR_REMOVED),
    }
}

/// Poll bound, in nanoseconds, used while an alarm is in flight or diagnosis commands are
/// queued, so RTA retries and freshly raised alarms are serviced in milliseconds rather than
/// at the caller's idle cadence.
pub const ALARM_POLL_INTERVAL: u64 = 20_000_000;

/// `AlarmCRBlockReq.RTATimeoutFactor` is expressed in units of 100 ms (in nanoseconds here).
pub const RTA_TIMEOUT_UNIT: u64 = 100_000_000;

/// The last instant from which the longest deadline an alarm can have is still representable.
pub const LAST_INSTANT: u64 = 18_446_678_538_709_551_615;

// ---------------------------------------------------------------------------------
// Effects
// ---------------------------------------------------------------------------------

/// What the acyclic loop must do on the device's behalf.
#[derive(Debug, PartialEq)]
pub enum Effect {
    /// Send this frame on the acyclic Ethernet socket.
    SendEth(Vec<u8>),
    /// Answer this DCP Identify request.
    AnswerIdentify(IdentifyRequest),
    /// Tell the lifecycle machine of the AR to abort for this reason, and dispatch what comes
    /// of it.
    Abort(AbortReason),
    /// Start the cyclic exchange of the AR that has just reached `Data`.
    StartRunner,
    /// Stop the cyclic exchange.
    StopRunner,
}

/// What an [`Effect`] holds.
pub enum EffectView {
    SendEth(Seq<u8>),
    AnswerIdentify(IdentifyView),
    Abort(AbortReason),
    StartRunner,
    StopRunner,
}

impl View for Effect {
    type V = EffectView;

    open spec fn view(&self) -> EffectView {
        match *self {
            Effect::SendEth(f) => EffectView::SendEth(f@),
            Effect::AnswerIdentify(req) => EffectView::AnswerIdentify(req@),
            Effect::Abort(r) => EffectView::Abort(r),
            Effect::StartRunner => EffectView::StartRunner,
            Effect::StopRunner => EffectView::StopRunner,
        }
    }
}

/// What a list of effects holds.
pub open spec fn effect_views(effects: Seq<Effect>) -> Seq<EffectView> {
    effects.map_values(|e: Effect| e@)
}

fn push_effect(effects: &mut Vec<Effect>, e: Effect)
    ensures
        effect_views(final(effects)@) == effect_views(old(effects)@).push(e@),
{
    effects.push(e);
    assert(effect_views(effects@) =~= effect_views(old(effects)@).push(e@));
}

fn no_effects() -> (r: Vec<Effect>)
    ensures
        effect_views(r@) == Seq::<EffectView>::empty(),
{
    let r: Vec<Effect> = Vec::new();
    assert(effect_views(r@) =~= Seq::empty());
    r
}

/// A batch of actions that an alarm channel asked for.
///
/// A step collects batches early and applies them last, so each carries the epoch of the
/// channel it was produced under and is dropped if the channel has been replaced (or closed)
/// in between: otherwise a stale abort (e.g. the controller's ERR-RTA) drained in the same
/// step as its reconnect would tear down the AR that reconnect just built.
#[derive(Debug, PartialEq)]
pub struct AlarmBatch {
    /// The epoch of the channel that produced the batch.
    pub epoch: u64,
    /// What the channel asked for.
    pub actions: Vec<AlarmAction>,
}

/// What an [`AlarmBatch`] holds.
pub struct BatchView {
    pub epoch: u64,
    pub actions: Seq<channel::ActionView>,
}

impl View for AlarmBatch {
    type V = BatchView;

    open spec fn view(&self) -> BatchView {
        BatchView { epoch: self.epoch, actions: channel::action_views(self.actions@) }
    }
}

/// What a list of batches holds.
pub open spec fn batch_views(batches: Seq<AlarmBatch>) -> Seq<BatchView> {
    batches.map_values(|b: AlarmBatch| b@)
}

// ---------------------------------------------------------------------------------
// State
// ---------------------------------------------------------------------------------

/// The device's side of the acyclic loop: the alarm channel of the current AR, the diagnoses,
/// and what is published of both. It decides; the loop around it owns the sockets, the
/// clock and the cyclic thread.
pub struct Device {
    dcp: DcpConfig,
    /// Channel-diagnosis bookkeeping: owns the active set, produces the
    /// appears/disappears notifications and the aggregate problem indicator.
    diag: DiagStore,
    /// The Low-priority alarm channel of the current AR: created when the AR reaches `Data`,
    /// dropped with the AR.
    alarm: Option<AlarmChannel>,
    /// Id handed to [`AlarmReq::id`] so an `Acked` action can be traced back to the
    /// notification that produced it.
    next_alarm_id: u32,
    /// Incremented every time an alarm channel is opened.
    alarm_epoch: u64,
    shared: DiagShared,
    /// Station problem indicator, for the data status of every produced frame.
    problem: bool,
}

/// What a [`Device`] holds.
pub struct DeviceView {
    /// The DCP identity; its MAC is the device's.
    pub dcp: DcpConfig,
    /// The submodules that diagnoses can be raised for.
    pub infos: Seq<SubmoduleInfo>,
    /// The active diagnoses, by key.
    pub active: Map<int, Diagnosis>,
    /// The alarm channel.
    pub alarm: Option<ChannelView>,
    pub next_alarm_id: u32,
    pub alarm_epoch: u64,
    /// The published set of active diagnoses.
    pub published: Seq<Diagnosis>,
    /// The published counters.
    pub stats: AlarmStats,
    pub rx_no_channel: u64,
    /// The published problem indicator.
    pub problem: bool,
}

/// What an optional channel holds.
pub open spec fn channel_view(ch: Option<AlarmChannel>) -> Option<ChannelView> {
    match ch {
        Some(ch) => Some(ch@),
        None => None,
    }
}

impl View for Device {
    type V = DeviceView;

    closed spec fn view(&self) -> DeviceView {
        DeviceView {
            dcp: self.dcp,
            infos: self.diag.infos(),
            active: self.diag@,
            alarm: channel_view(self.alarm),
            next_alarm_id: self.next_alarm_id,
            alarm_epoch: self.alarm_epoch,
            published: self.shared.active@,
            stats: self.shared.stats,
            rx_no_channel: self.shared.rx_no_channel,
            problem: self.problem,
        }
    }
}

/// Whether a fault is among the active diagnoses.
pub open spec fn has_fault(active: Map<int, Diagnosis>) -> bool {
    exists|k: int| #[trigger] active.contains_key(k) && active[k].severity == Severity::Fault
}

/// The channel parameters of an AR. The length bound is the controller's
/// `MaxAlarmDataLength` (what it accepts from us), not our own answer.
pub open spec fn channel_config(params: ArParams, our_mac: MacAddr) -> AlarmChannelConfig {
    AlarmChannelConfig {
        local_ref: params.alarm_ref_local,
        remote_ref: params.alarm_ref_remote,
        rta_timeout: (RTA_TIMEOUT_UNIT * if params.rta_timeout_factor == 0 {
            1int
        } else {
            params.rta_timeout_factor as int
        }) as u64,
        rta_retries: params.rta_retries,
        max_alarm_data_length: params.max_alarm_data_length_remote,
        peer_mac: params.initiator_mac,
        our_mac,
    }
}

/// A channel as it is opened.
pub open spec fn fresh_channel(cfg: AlarmChannelConfig) -> ChannelView {
    ChannelView {
        cfg,
        flight: Flight::Idle,
        queue: Seq::empty(),
        next_send_seq: rta::SEQ_INIT,
        last_sent_seq: rta::SEQ_NONE,
        last_rx_seq: rta::SEQ_NONE,
        attempt: 0,
        stats: AlarmStats::zero(),
        specifier_seq: 0,
    }
}

impl DeviceView {
    /// What every operation keeps: a well-formed channel whose deadlines are in reach.
    pub open spec fn wf(self) -> bool {
        self.alarm matches Some(ch) ==> {
            &&& ch.wf()
            &&& ch.cfg.rta_timeout <= RTA_TIMEOUT_UNIT * 0xffff
        }
    }

    /// Whether the channel's counters can count one more event of every kind.
    pub open spec fn has_room(self) -> bool {
        self.alarm matches Some(ch) ==> ch.stats.has_room()
    }

    /// The channel's counters are mirrored; without a channel the last ones stay readable.
    pub open spec fn stats_published(self) -> DeviceView {
        match self.alarm {
            Some(ch) => DeviceView { stats: ch.stats, ..self },
            None => self,
        }
    }

    /// The diagnosis store's view is published: `list` are the active diagnoses in order.
    pub open spec fn diag_published(self, list: Seq<Diagnosis>) -> DeviceView {
        DeviceView { published: list, problem: has_fault(self.active), ..self }
    }

    /// The state with this channel.
    pub open spec fn with_channel(self, ch: ChannelView) -> DeviceView {
        DeviceView { alarm: Some(ch), ..self }
    }

    /// A batch of the current channel, none for no actions.
    pub open spec fn batches(self, actions: Seq<channel::ActionView>) -> Seq<BatchView> {
        if actions.len() == 0 {
            Seq::empty()
        } else {
            seq![BatchView { epoch: self.alarm_epoch, actions }]
        }
    }
}

impl Device {
    /// The active diagnoses in ascending order of slot, channel and error code.
    pub closed spec fn diag_list(self) -> Seq<Diagnosis> {
        self.diag.list()
    }

    /// A device with this DCP identity and these slots: no AR, no diagnosis.
    pub fn new(dcp: DcpConfig, model: &DeviceModel) -> (r: Device)
        ensures
            r@ == (DeviceView {
                dcp,
                infos: diag::slot_infos(model.slots@),
                active: Map::empty(),
                alarm: None,
                next_alarm_id: 0,
                alarm_epoch: 0,
                published: Seq::empty(),
                stats: AlarmStats::zero(),
                rx_no_channel: 0,
                problem: false,
            }),
            r@.wf(),
    {
        Device {
            dcp,
            diag: DiagStore::from_model(model),
            alarm: None,
            next_alarm_id: 0,
            alarm_epoch: 0,
            shared: DiagShared::default(),
            problem: false,
        }
    }

    /// Current station problem indicator: `true` means the produced frames carry the
    /// "problem" data status instead of the steady-state value.
    pub fn problem_indicator(&self) -> (r: bool)
        ensures
            r == self@.problem,
    {
        self.problem
    }

    /// What is published for the application.
    pub fn diag_shared(&self) -> (r: &DiagShared)
        ensures
            r.active@ == self@.published,
            r.stats == self@.stats,
            r.rx_no_channel == self@.rx_no_channel,
    {
        &self.shared
    }

    /// Whether diagnoses can be raised for a slot.
    pub fn knows(&self, slot: Slot) -> (r: bool)
        ensures
            r == (diag::info_of(self@.infos, slot) is Some),
    {
        self.diag.knows(slot)
    }

    /// True while an alarm has been sent and is still waiting for the controller's transport
    /// ACK or its content-level AlarmAck.
    pub fn alarm_in_flight(&self) -> (r: bool)
        ensures
            r == (self@.alarm matches Some(ch) && ch.flight !is Idle),
    {
        match &self.alarm {
            Some(ch) => ch.in_flight().is_some(),
            None => false,
        }
    }

    /// Whether the channel's counters can count one more event of every kind.
    pub fn has_room(&self) -> (r: bool)
        ensures
            r == self@.has_room(),
    {
        match &self.alarm {
            Some(ch) => ch.stats().has_room(),
            None => true,
        }
    }

    /// Poll bound, in nanoseconds, for the loop: [`ALARM_POLL_INTERVAL`] while an alarm is in
    /// flight or diagnosis commands are queued, so RTA retries and fresh alarms are serviced
    /// promptly; otherwise `default`.
    pub fn poll_interval(&self, default: u64, queued: bool) -> (r: u64)
        ensures
            r == if ((self@.alarm matches Some(ch) && ch.flight !is Idle) || queued)
                && ALARM_POLL_INTERVAL < default {
                ALARM_POLL_INTERVAL
            } else {
                default
            },
    {
        if (self.alarm_in_flight() || queued) && ALARM_POLL_INTERVAL < default {
            ALARM_POLL_INTERVAL
        } else {
            default
        }
    }

    /// How long, in nanoseconds, a step may wait for the sockets: capped by `wait`, by the
    /// lifecycle machine's deadline and by the alarm channel's. `None` waits for as long as
    /// it takes.
    pub fn effective_wait(&self, now: u64, wait: Option<u64>, cm_deadline: Option<u64>) -> (r: Option<
        u64,
    >)
        ensures
            r == shorter(
                wait,
                until(
                    shorter(
                        cm_deadline,
                        match self@.alarm {
                            Some(ch) => ch.flight.deadline(),
                            None => None,
                        },
                    ),
                    now,
                ),
            ),
    {
        let alarm_deadline = match &self.alarm {
            Some(ch) => ch.next_deadline(),
            None => None,
        };
        let deadline_wait = match earlier(cm_deadline, alarm_deadline) {
            Some(d) => Some(
                if d > now {
                    d - now
                } else {
                    0
                },
            ),
            None => None,
        };
        earlier(wait, deadline_wait)
    }
}

/// The smaller of two limits, either of which may be absent.
pub open spec fn shorter(a: Option<u64>, b: Option<u64>) -> Option<u64> {
    match (a, b) {
        (Some(x), Some(y)) => Some(
            if x <= y {
                x
            } else {
                y
            },
        ),
        (Some(x), None) => Some(x),
        (None, y) => y,
    }
}

/// The time from `now` to a deadline; none is left of one that has passed.
pub open spec fn until(deadline: Option<u64>, now: u64) -> Option<u64> {
    match deadline {
        Some(d) => Some(
            if d > now {
                (d - now) as u64
            } else {
                0
            },
        ),
        None => None,
    }
}

fn earlier(a: Option<u64>, b: Option<u64>) -> (r: Option<u64>)
    ensures
        r == shorter(a, b),
{
    match (a, b) {
        (Some(x), Some(y)) => Some(
            if x <= y {
                x
            } else {
                y
            },
        ),
        (Some(x), None) => Some(x),
        (None, y) => y,
    }
}

// ---------------------------------------------------------------------------------
// Ethernet frames
// ---------------------------------------------------------------------------------

/// What a received Ethernet frame led to.
#[derive(Debug, PartialEq)]
pub enum FrameOutcome {
    /// Nothing to do: an alarm frame that asks for nothing, is addressed to another station,
    /// or arrived with no channel open.
    Ignored,
    /// The alarm channel asked for this.
    Alarm(AlarmBatch),
    /// A frame with the FrameID of DCP Identify requests: the request, if it carries one.
    Identify(Result<Option<IdentifyRequest>, DcpError>),
    /// Any other frame: what DCP makes of it, a frame to send as the answer, if any.
    Dcp(Result<Option<Vec<u8>>, DcpError>),
}

/// Whether a frame is addressed to this MAC.
pub open spec fn is_for(frame: Seq<u8>, mac: MacAddr) -> bool {
    frame.len() >= 6 && eth::mac_at(frame, 0) == mac
}

/// What DCP makes of a frame that has not the FrameID of Identify requests.
pub open spec fn dcp_answers(
    frame: Seq<u8>,
    cfg: DcpConfig,
    res: Result<Option<Vec<u8>>, DcpError>,
) -> bool {
    match dcp::set_request_of(frame) {
        Err(e) => res == Err::<Option<Vec<u8>>, _>(e),
        Ok(None) => res == Ok::<Option<Vec<u8>>, DcpError>(None),
        Ok(Some(request)) => match dcp::set_answer(request, cfg) {
            Err(e) => res == Err::<Option<Vec<u8>>, _>(e),
            Ok(bytes) => res matches Ok(Some(v)) && v@ == bytes,
        },
    }
}

impl DeviceView {
    /// The state once a frame has arrived.
    pub open spec fn after_frame(self, frame: Seq<u8>, now: u64) -> DeviceView {
        if !rta::is_alarm(frame) || !is_for(frame, self.dcp.mac) {
            self
        } else {
            match self.alarm {
                Some(ch) => self.with_channel(ch.on_frame(frame, now).0),
                None => DeviceView {
                    rx_no_channel: ((self.rx_no_channel + 1) % 0x1_0000_0000_0000_0000) as u64,
                    ..self
                },
            }
        }
    }

    /// What the alarm channel asks for when a frame has arrived.
    pub open spec fn frame_actions(self, frame: Seq<u8>, now: u64) -> Seq<channel::ActionView> {
        match self.alarm {
            Some(ch) if is_for(frame, self.dcp.mac) => ch.on_frame(frame, now).1,
            _ => Seq::empty(),
        }
    }
}

impl Device {
    /// Takes one received Ethernet frame: alarm frames go to the channel, everything else to
    /// DCP, whose Identify requests are handed on to be answered. Alarm frames are unicast; a
    /// socket that also sees other stations' traffic does not have its counters moved by it.
    pub fn on_eth_frame(&mut self, frame: &[u8], now: u64) -> (r: FrameOutcome)
        requires
            old(self)@.wf(),
            old(self)@.has_room(),
            now <= LAST_INSTANT,
            4 * frame@.len() <= 3 * u16::MAX,
        ensures
            final(self)@.wf(),
            final(self)@ == old(self)@.after_frame(frame@, now),
            final(self).diag_list() == old(self).diag_list(),
            if rta::is_alarm(frame@) {
                let actions = old(self)@.frame_actions(frame@, now);
                if actions.len() == 0 {
                    r is Ignored
                } else {
                    r matches FrameOutcome::Alarm(b) && b@ == (BatchView {
                        epoch: old(self)@.alarm_epoch,
                        actions,
                    })
                }
            } else if dcp::is_identify(frame@) {
                r matches FrameOutcome::Identify(res) && dcp::identifies(frame@, res)
            } else {
                r matches FrameOutcome::Dcp(res) && dcp_answers(frame@, old(self)@.dcp, res)
            },
    {
        if !is_alarm_frame(frame) {
            if is_identify_frame(frame) {
                return FrameOutcome::Identify(identify_request_of(frame));
            }
            return FrameOutcome::Dcp(handle_dcp_frame(frame, &self.dcp));
        }
        if frame.len() < 6 || eth::read_mac(frame, 0) != self.dcp.mac {
            return FrameOutcome::Ignored;
        }
        match self.alarm.take() {
            Some(mut ch) => {
                let actions = ch.on_frame(frame, now);
                proof {
                    lemma_on_frame_keeps(ch@, frame@, now, old(self)@.alarm->0);
                }
                self.alarm = Some(ch);
                if actions.len() == 0 {
                    FrameOutcome::Ignored
                } else {
                    FrameOutcome::Alarm(AlarmBatch { epoch: self.alarm_epoch, actions })
                }
            },
            None => {
                self.shared.rx_no_channel = self.shared.rx_no_channel.wrapping_add(1);
                FrameOutcome::Ignored
            },
        }
    }
}

/// A channel keeps its configuration.
proof fn lemma_on_frame_keeps(after: ChannelView, frame: Seq<u8>, now: u64, before: ChannelView)
    requires
        after == before.on_frame(frame, now).0,
    ensures
        after.cfg == before.cfg,
{
}

// ---------------------------------------------------------------------------------
// Diagnoses
// ---------------------------------------------------------------------------------

/// The active set and the notification that a command leads to.
pub open spec fn commanded(
    infos: Seq<SubmoduleInfo>,
    active: Map<int, Diagnosis>,
    cmd: DiagCommand,
) -> (Map<int, Diagnosis>, Option<rta::NotificationView>) {
    match cmd {
        DiagCommand::Raise(d) => match diag::info_of(infos, d.slot) {
            None => (active, None),
            Some(info) => {
                let raised = Diagnosis { direction: info.direction, ..d };
                if active.contains_key(d.id()) && active[d.id()].severity == d.severity {
                    (active, None)
                } else {
                    let after = active.insert(d.id(), raised);
                    (
                        after,
                        Some(
                            diag::notification(
                                after,
                                info,
                                raised,
                                AlarmType::Diagnosis,
                                Specifier::Appears,
                            ),
                        ),
                    )
                }
            },
        },
        DiagCommand::Clear { slot, channel, error } => {
            let k = diag::key(slot, channel, error);
            if !active.contains_key(k) {
                (active, None)
            } else {
                let after = active.remove(k);
                (
                    after,
                    Some(
                        diag::notification(
                            after,
                            diag::info_of(infos, slot)->0,
                            active[k],
                            AlarmType::DiagnosisDisappears,
                            if diag::has_channel(after, slot, channel) {
                                Specifier::DisappearsOthersRemain
                            } else {
                                Specifier::Disappears
                            },
                        ),
                    ),
                )
            }
        },
    }
}

/// A notification with its sequence number.
pub open spec fn stamped(n: rta::NotificationView, sequence: u16) -> rta::NotificationView {
    rta::NotificationView { specifier: AlarmSpecifier { sequence, ..n.specifier }, ..n }
}

impl DeviceView {
    /// The request that a notification becomes on the channel.
    pub open spec fn request(self, n: rta::NotificationView) -> ReqView {
        ReqView {
            id: self.next_alarm_id,
            priority: Priority::Low,
            notification: stamped(n, self.alarm->0.specifier_seq),
        }
    }

    /// The state and the channel's actions once a notification has been queued.
    pub open spec fn queued(self, n: rta::NotificationView, now: u64) -> (
        DeviceView,
        Seq<channel::ActionView>,
    ) {
        match self.alarm {
            None => (self, Seq::empty()),
            Some(ch) => {
                let counted = ChannelView {
                    specifier_seq: ((ch.specifier_seq + 1) % 0x0800) as u16,
                    ..ch
                };
                let req = self.request(n);
                if req.block_len() <= ch.cfg.max_alarm_data_length {
                    let (after, actions) = counted.enqueue(req, now);
                    (
                        DeviceView {
                            alarm: Some(after),
                            next_alarm_id: ((self.next_alarm_id + 1) % 0x1_0000_0000) as u32,
                            ..self
                        },
                        actions,
                    )
                } else {
                    (self.with_channel(counted), Seq::empty())
                }
            },
        }
    }

    /// The state and the batches once a command has been carried out.
    pub open spec fn after_command(self, cmd: DiagCommand, now: u64) -> (
        DeviceView,
        Seq<BatchView>,
    ) {
        let (active, n) = commanded(self.infos, self.active, cmd);
        let noted = DeviceView { active, ..self };
        match n {
            None => (noted, Seq::empty()),
            Some(n) => {
                let (after, actions) = noted.queued(n, now);
                (after, self.batches(actions))
            },
        }
    }

    /// The state and the batches once the commands have been carried out in order.
    pub open spec fn drained(self, cmds: Seq<DiagCommand>, now: u64) -> (
        DeviceView,
        Seq<BatchView>,
    )
        decreases cmds.len(),
    {
        if cmds.len() == 0 {
            (self, Seq::empty())
        } else {
            let (before, batches) = self.drained(cmds.drop_last(), now);
            let (after, more) = before.after_command(cmds.last(), now);
            (after, batches + more)
        }
    }

    /// Whether a notification can be queued at `now`.
    pub open spec fn can_queue(self, now: u64) -> bool {
        &&& self.wf()
        &&& now <= LAST_INSTANT
        &&& self.alarm matches Some(ch) ==> (ch.flight is Idle ==> ch.stats.has_room())
    }
}

/// A channel keeps its configuration, and is busy once a request has been queued.
proof fn lemma_queued_keeps(d: DeviceView, n: rta::NotificationView, now: u64)
    requires
        d.can_queue(now),
    ensures
        d.queued(n, now).0.alarm matches Some(ch) ==> {
            &&& ch.cfg == d.alarm->0.cfg
            &&& ch.flight is Idle ==> ch.stats == d.alarm->0.stats && d.alarm->0.flight is Idle
        },
        d.queued(n, now).0.alarm is Some == d.alarm is Some,
        d.queued(n, now).0.alarm_epoch == d.alarm_epoch,
        forall|i: int|
            0 <= i < d.queued(n, now).1.len() ==> (#[trigger] d.queued(n, now).1[i]) is Send,
{
}

/// The length of a channel diagnosis on the wire.
proof fn lemma_channel_diag_len(d: rta::UserDataView)
    requires
        d is Channel,
    ensures
        d.spec_bytes().len() == 6,
{
}

impl Device {
    /// Stamps the per-AR `AlarmSpecifier.sequence` and queues one diagnosis notification on
    /// the alarm channel. Diagnosis alarms are always Low priority. With no channel (no AR
    /// yet) it is dropped: the store keeps the diagnosis active and [`DiagStore::replay`]
    /// re-sends it when the next AR reaches `Data`.
    fn queue_notification(&mut self, n: AlarmNotification, now: u64) -> (actions: Vec<AlarmAction>)
        requires
            old(self)@.can_queue(now),
            n@.data is Channel,
        ensures
            (final(self)@, channel::action_views(actions@)) == old(self)@.queued(n@, now),
            final(self)@.can_queue(now),
            final(self).diag_list() == old(self).diag_list(),
    {
        proof {
            lemma_queued_keeps(self@, n@, now);
            lemma_channel_diag_len(n@.data);
        }
        let id: u32 = self.next_alarm_id;
        match self.alarm.take() {
            None => {
                let none: Vec<AlarmAction> = Vec::new();
                assert(channel::action_views(none@) =~= Seq::empty());
                none
            },
            Some(mut ch) => {
                let sequence: u16 = ch.next_specifier_sequence();
                let mut n = n;
                n.specifier.sequence = sequence;
                let req = AlarmReq { id, priority: Priority::Low, notification: n };
                match ch.enqueue(req, now) {
                    Ok(actions) => {
                        self.alarm = Some(ch);
                        self.next_alarm_id = self.next_alarm_id.wrapping_add(1);
                        actions
                    },
                    Err(_) => {
                        // Unreachable for the 6-byte channel-diagnosis payloads against any
                        // sane negotiated MaxAlarmDataLength.
                        self.alarm = Some(ch);
                        let none: Vec<AlarmAction> = Vec::new();
                        assert(channel::action_views(none@) =~= Seq::empty());
                        none
                    },
                }
            },
        }
    }

    /// Carries out one command.
    fn on_command(&mut self, cmd: &DiagCommand, now: u64) -> (actions: Option<Vec<AlarmAction>>)
        requires
            old(self)@.can_queue(now),
        ensures
            final(self)@ == old(self)@.after_command(*cmd, now).0,
            final(self)@.can_queue(now),
            final(self)@.alarm_epoch == old(self)@.alarm_epoch,
            match actions {
                Some(v) => old(self)@.after_command(*cmd, now).1 == old(self)@.batches(
                    channel::action_views(v@),
                ) && v@.len() > 0,
                None => old(self)@.after_command(*cmd, now).1.len() == 0,
            },
    {
        let notification = match cmd {
            DiagCommand::Raise(d) => self.diag.raise(*d),
            DiagCommand::Clear { slot, channel, error } => self.diag.clear(*slot, *channel, *error),
        };
        match notification {
            Some(n) => {
                proof {
                    lemma_queued_keeps(self@, n@, now);
                }
                let actions = self.queue_notification(n, now);
                if actions.len() == 0 {
                    None
                } else {
                    Some(actions)
                }
            },
            None => None,
        }
    }

    /// Drains the application's commands into the [`DiagStore`], turning each resulting
    /// notification into a queued Low-priority alarm, then republishes the active set and
    /// the problem indicator.
    pub fn drain_diag_queue(&mut self, cmds: &Vec<DiagCommand>, now: u64) -> (batches: Vec<AlarmBatch>)
        requires
            old(self)@.can_queue(now),
        ensures
            final(self)@.can_queue(now),
            batch_views(batches@) == old(self)@.drained(cmds@, now).1,
            if cmds@.len() == 0 {
                final(self)@ == old(self)@
            } else {
                &&& final(self)@ == old(self)@.drained(cmds@, now).0.diag_published(
                    final(self).diag_list(),
                )
                &&& diag::ascending(final(self).diag_list())
                &&& diag::by_key(final(self).diag_list()) == final(self)@.active
            },
    {
        let mut batches: Vec<AlarmBatch> = Vec::new();
        let mut i: usize = 0;
        assert(cmds@.take(0) =~= Seq::empty());
        assert(batch_views(batches@) =~= Seq::empty());
        while i < cmds.len()
            invariant
                i <= cmds@.len(),
                self@ == old(self)@.drained(cmds@.take(i as int), now).0,
                self@.can_queue(now),
                batch_views(batches@) == old(self)@.drained(cmds@.take(i as int), now).1,
            decreases cmds@.len() - i,
        {
            proof {
                assert(cmds@.take(i + 1).drop_last() =~= cmds@.take(i as int));
                assert(cmds@.take(i + 1).last() == cmds@[i as int]);
            }
            let ghost before = batch_views(batches@);
            let epoch: u64 = self.alarm_epoch;
            match self.on_command(&cmds[i], now) {
                Some(actions) => {
                    batches.push(AlarmBatch { epoch, actions });
                },
                None => {},
            }
            assert(batch_views(batches@) =~= old(self)@.drained(cmds@.take(i + 1), now).1);
            i = i + 1;
        }
        assert(cmds@.take(i as int) =~= cmds@);
        if cmds.len() > 0 {
            self.publish_diag_state();
        }
        batches
    }

    /// Publishes the diagnosis store's view: the active set for the application and the
    /// aggregate problem indicator for the data status of the cyclic frames.
    fn publish_diag_state(&mut self)
        ensures
            final(self)@ == old(self)@.diag_published(final(self).diag_list()),
            final(self).diag_list() == old(self).diag_list(),
            diag::ascending(final(self).diag_list()),
            diag::by_key(final(self).diag_list()) == final(self)@.active,
    {
        self.shared.active = self.diag.active();
        self.problem = self.diag.problem_indicator();
    }

    /// Mirrors the alarm channel's counters into what is published. Does nothing with no
    /// channel, so the counts of a channel that just died stay readable.
    pub fn publish_alarm_stats(&mut self)
        ensures
            final(self)@ == old(self)@.stats_published(),
            final(self).diag_list() == old(self).diag_list(),
    {
        match &self.alarm {
            Some(ch) => {
                self.shared.stats = ch.stats();
            },
            None => {},
        }
    }
}


// ---------------------------------------------------------------------------------
// Alarm actions and aborts
// ---------------------------------------------------------------------------------

impl DeviceView {
    /// What a device-side abort leads to: it is announced on the alarm channel, if there is
    /// one and the reason calls for it, then the AR is aborted.
    pub open spec fn abort_effects(self, reason: AbortReason) -> Seq<EffectView> {
        match (err_rta_code2(reason), self.alarm) {
            (Some(code2), Some(ch)) => seq![
                EffectView::SendEth(ch.err_frame(PnioStatus::rta_abort(code2))),
                EffectView::Abort(reason),
            ],
            _ => seq![EffectView::Abort(reason)],
        }
    }

    /// What an action of the alarm channel leads to.
    pub open spec fn action_effects(self, action: channel::ActionView) -> Seq<EffectView> {
        match action {
            channel::ActionView::Send(frame) => seq![EffectView::SendEth(frame)],
            channel::ActionView::Abort(reason) => self.abort_effects(reason),
            _ => Seq::empty(),
        }
    }

    /// What going away leads to: an AR, if there is one, is aborted.
    pub open spec fn shutdown_effects(self, state: ArState) -> Seq<EffectView> {
        if state == ArState::Idle {
            Seq::empty()
        } else {
            self.abort_effects(AbortReason::Shutdown)
        }
    }

    /// What an event of the cyclic exchange leads to.
    pub open spec fn rt_effects(self, event: RtEvent) -> Seq<EffectView> {
        match event {
            RtEvent::WatchdogExpired => self.abort_effects(AbortReason::RtWatchdog),
            RtEvent::SocketError(_) => self.abort_effects(AbortReason::RtSocket),
            RtEvent::SchedWarning(_) => Seq::empty(),
            RtEvent::Exited => Seq::empty(),
        }
    }

    /// What the actions of a batch lead to, one after the other.
    pub open spec fn actions_effects(self, actions: Seq<channel::ActionView>) -> Seq<EffectView>
        decreases actions.len(),
    {
        if actions.len() == 0 {
            Seq::empty()
        } else {
            self.actions_effects(actions.drop_last()) + self.action_effects(actions.last())
        }
    }

    /// Whether a batch produced under `epoch` still concerns the current AR.
    pub open spec fn is_current(self, epoch: u64) -> bool {
        self.alarm is Some && self.alarm_epoch == epoch
    }

    /// What a batch leads to: nothing, if it does not concern the current AR.
    pub open spec fn batch_effects(self, batch: BatchView) -> Seq<EffectView> {
        if self.is_current(batch.epoch) {
            self.actions_effects(batch.actions)
        } else {
            Seq::empty()
        }
    }
}

impl Device {
    /// Whether a batch produced under `epoch` still concerns the current AR. One whose
    /// channel is gone (closed, or replaced by a reconnect processed later in the same step)
    /// is dropped whole: it belongs to an AR that no longer exists.
    pub fn is_current(&self, epoch: u64) -> (r: bool)
        ensures
            r == self@.is_current(epoch),
    {
        self.alarm.is_some() && self.alarm_epoch == epoch
    }

    /// Announces a device-side abort on the alarm channel (ERR-RTA), then aborts the AR. No
    /// ERR-RTA is sent when there is no channel, or for [`AbortReason::ControllerErrRta`]
    /// (the controller aborted first).
    pub fn abort_with_err_rta(&mut self, reason: AbortReason) -> (effects: Vec<Effect>)
        ensures
            effect_views(effects@) == old(self)@.abort_effects(reason),
            final(self)@ == old(self)@,
            final(self).diag_list() == old(self).diag_list(),
    {
        let mut effects = no_effects();
        match err_rta_code2(reason) {
            Some(code2) => match self.alarm.take() {
                Some(mut ch) => {
                    let frame = ch.err_rta(PnioStatus::rta_abort(code2));
                    self.alarm = Some(ch);
                    push_effect(&mut effects, Effect::SendEth(frame));
                },
                None => {},
            },
            None => {},
        }
        push_effect(&mut effects, Effect::Abort(reason));
        assert(effect_views(effects@) =~= old(self)@.abort_effects(reason));
        effects
    }

    /// Performs one action of a current batch: frames go out on the acyclic socket, an
    /// `Abort` announces itself with an ERR-RTA and tears the AR down.
    fn apply_alarm_action(&mut self, action: AlarmAction) -> (effects: Vec<Effect>)
        ensures
            effect_views(effects@) == old(self)@.action_effects(action@),
            final(self)@ == old(self)@,
            final(self).diag_list() == old(self).diag_list(),
    {
        match action {
            AlarmAction::Send(frame) => {
                let mut effects = no_effects();
                push_effect(&mut effects, Effect::SendEth(frame));
                assert(effect_views(effects@) =~= old(self)@.action_effects(action@));
                effects
            },
            AlarmAction::Abort(reason) => self.abort_with_err_rta(reason),
            AlarmAction::Acked { .. } => no_effects(),
            AlarmAction::UnexpectedRx => no_effects(),
        }
    }

    /// Performs one batch of actions: frames go out on the acyclic socket, an `Abort`
    /// announces itself with an ERR-RTA and tears the AR down. The counters are mirrored.
    ///
    /// A batch whose channel is gone (closed, or replaced by a reconnect processed later in
    /// the same step) is dropped whole: it belongs to an AR that no longer exists.
    pub fn apply_alarm_actions(&mut self, batch: AlarmBatch) -> (effects: Vec<Effect>)
        ensures
            effect_views(effects@) == old(self)@.batch_effects(batch@),
            final(self)@ == if old(self)@.is_current(batch.epoch) {
                old(self)@.stats_published()
            } else {
                old(self)@
            },
            final(self).diag_list() == old(self).diag_list(),
    {
        let mut effects = no_effects();
        if !self.is_current(batch.epoch) {
            return effects;
        }
        let ghost before = self@;
        let ghost views = batch@.actions;
        let mut rest = batch.actions;
        let ghost mut done: int = 0;
        assert(views.take(0) =~= Seq::empty());
        assert(effect_views(effects@) =~= before.actions_effects(views.take(0)));
        while rest.len() > 0
            invariant
                0 <= done <= views.len(),
                channel::action_views(rest@) == views.skip(done),
                self@ == before,
                before == old(self)@,
                self.diag_list() == old(self).diag_list(),
                effect_views(effects@) == before.actions_effects(views.take(done)),
            decreases rest@.len(),
        {
            let ghost held = rest@;
            let action = rest.remove(0);
            proof {
                assert(channel::action_views(held).len() == views.len() - done);
                assert(channel::action_views(held)[0] == views.skip(done)[0]);
                assert(held[0]@ == views[done]);
                assert(views.take(done + 1).drop_last() =~= views.take(done));
                assert(channel::action_views(rest@) =~= views.skip(done + 1)) by {
                    assert forall|k: int| 0 <= k < rest@.len() implies (#[trigger] rest@[k])@
                        == views[done + 1 + k] by {
                        assert(rest@[k] == held[k + 1]);
                        assert(channel::action_views(held)[k + 1] == views.skip(done)[k + 1]);
                    }
                }
            }
            let mut more = self.apply_alarm_action(action);
            let ghost (a, b) = (effects@, more@);
            effects.append(&mut more);
            proof {
                assert(effects@ =~= a + b);
                assert(effect_views(effects@) =~= effect_views(a) + effect_views(b));
                done = done + 1;
            }
        }
        assert(views.take(done) =~= views);
        self.publish_alarm_stats();
        effects
    }

    /// Lets the RTA timers of the alarm channel run.
    pub fn on_alarm_tick(&mut self, now: u64) -> (batch: Option<AlarmBatch>)
        requires
            old(self)@.wf(),
            old(self)@.has_room(),
            now <= LAST_INSTANT,
        ensures
            final(self)@.wf(),
            final(self).diag_list() == old(self).diag_list(),
            match old(self)@.alarm {
                None => batch is None && final(self)@ == old(self)@,
                Some(ch) => {
                    &&& final(self)@ == old(self)@.with_channel(ch.on_tick(now).0)
                    &&& match batch {
                        Some(b) => old(self)@.batches(ch.on_tick(now).1) == seq![b@],
                        None => ch.on_tick(now).1.len() == 0,
                    }
                },
            },
    {
        match self.alarm.take() {
            Some(mut ch) => {
                let actions = ch.on_tick(now);
                self.alarm = Some(ch);
                if actions.len() == 0 {
                    None
                } else {
                    Some(AlarmBatch { epoch: self.alarm_epoch, actions })
                }
            },
            None => None,
        }
    }

    /// What an event of the cyclic exchange leads to: a watchdog or socket failure aborts the
    /// AR; scheduling warnings and the end of the thread are only worth a note.
    pub fn on_rt_event(&mut self, event: &RtEvent) -> (effects: Vec<Effect>)
        ensures
            effect_views(effects@) == old(self)@.rt_effects(*event),
            final(self)@ == old(self)@,
            final(self).diag_list() == old(self).diag_list(),
    {
        match event {
            RtEvent::WatchdogExpired => self.abort_with_err_rta(AbortReason::RtWatchdog),
            RtEvent::SocketError(_) => self.abort_with_err_rta(AbortReason::RtSocket),
            RtEvent::SchedWarning(_) => no_effects(),
            RtEvent::Exited => no_effects(),
        }
    }

    /// Tells the controller the device is going away: ERR-RTA "AR removed" on the alarm
    /// channel plus an AR abort, so it sees the loss in milliseconds instead of waiting for
    /// its own watchdog. Asks for nothing with no AR up.
    pub fn shutdown(&mut self, state: ArState) -> (effects: Vec<Effect>)
        ensures
            effect_views(effects@) == if state == ArState::Idle {
                Seq::empty()
            } else {
                old(self)@.abort_effects(AbortReason::Shutdown)
            },
            effect_views(effects@) == old(self)@.shutdown_effects(state),
            final(self)@ == old(self)@,
            final(self).diag_list() == old(self).diag_list(),
    {
        if state == ArState::Idle {
            return no_effects();
        }
        self.abort_with_err_rta(AbortReason::Shutdown)
    }
}

// ---------------------------------------------------------------------------------
// The AR comes and goes
// ---------------------------------------------------------------------------------

impl DeviceView {
    /// The state once the alarm channel of an AR has been opened.
    pub open spec fn opened(self, ar: Option<&ArParams>) -> DeviceView {
        match ar {
            Some(params) => DeviceView {
                alarm_epoch: ((self.alarm_epoch + 1) % 0x1_0000_0000_0000_0000) as u64,
                alarm: Some(fresh_channel(channel_config(*params, self.dcp.mac))),
                ..self
            },
            None => self,
        }
    }

    /// The announcement of an active diagnosis to a controller that has forgotten it.
    pub open spec fn announcement(self, d: Diagnosis) -> rta::NotificationView {
        diag::notification(
            self.active,
            diag::info_of(self.infos, d.slot)->0,
            d,
            AlarmType::Diagnosis,
            Specifier::Appears,
        )
    }

    /// The state and the frames once the diagnoses in `list` have been announced anew.
    pub open spec fn replayed(self, list: Seq<Diagnosis>, now: u64) -> (
        DeviceView,
        Seq<EffectView>,
    )
        decreases list.len(),
    {
        if list.len() == 0 {
            (self, Seq::empty())
        } else {
            let (before, frames) = self.replayed(list.drop_last(), now);
            let (after, actions) = before.queued(before.announcement(list.last()), now);
            (after.stats_published(), frames + frames_of(actions))
        }
    }

    /// The state and the effects of an AR state change, with the active diagnoses in order.
    pub open spec fn after_notify(
        self,
        state: ArState,
        reason: Option<AbortReason>,
        ar: Option<&ArParams>,
        list: Seq<Diagnosis>,
        now: u64,
    ) -> (DeviceView, Seq<EffectView>) {
        match (state, reason) {
            (ArState::Data, None) => {
                let (after, frames) = self.opened(ar).replayed(list, now);
                (after.diag_published(list), seq![EffectView::StartRunner] + frames)
            },
            (ArState::Idle, Some(_)) => (
                DeviceView { alarm: None, ..self },
                seq![EffectView::StopRunner],
            ),
            _ => (self, Seq::empty()),
        }
    }
}

/// The frames that actions send.
pub open spec fn frames_of(actions: Seq<channel::ActionView>) -> Seq<EffectView>
    decreases actions.len(),
{
    if actions.len() == 0 {
        Seq::empty()
    } else {
        match actions.last() {
            channel::ActionView::Send(frame) => frames_of(actions.drop_last()).push(
                EffectView::SendEth(frame),
            ),
            _ => frames_of(actions.drop_last()),
        }
    }
}

fn push_frames(effects: &mut Vec<Effect>, actions: Vec<AlarmAction>)
    ensures
        effect_views(final(effects)@) == effect_views(old(effects)@) + frames_of(
            channel::action_views(actions@),
        ),
{
    let ghost views = channel::action_views(actions@);
    let mut i: usize = 0;
    assert(views.take(0) =~= Seq::empty());
    assert(effect_views(effects@) =~= effect_views(old(effects)@) + frames_of(views.take(0)));
    while i < actions.len()
        invariant
            i <= actions@.len(),
            views == channel::action_views(actions@),
            effect_views(effects@) == effect_views(old(effects)@) + frames_of(
                views.take(i as int),
            ),
        decreases actions@.len() - i,
    {
        proof {
            assert(views.take(i + 1).drop_last() =~= views.take(i as int));
            assert(views.take(i + 1).last() == actions@[i as int]@);
        }
        match &actions[i] {
            AlarmAction::Send(frame) => {
                let mut copy: Vec<u8> = Vec::new();
                bytes::put_all(&mut copy, frame.as_slice());
                assert(copy@ =~= frame@);
                push_effect(effects, Effect::SendEth(copy));
            },
            _ => {},
        }
        assert(effect_views(effects@) =~= effect_views(old(effects)@) + frames_of(
            views.take(i + 1),
        ));
        i = i + 1;
    }
    assert(views.take(i as int) =~= views);
}

/// Announcing diagnoses changes neither which ones are active nor what the device knows.
proof fn lemma_replayed_keeps(d: DeviceView, list: Seq<Diagnosis>, now: u64)
    ensures
        d.replayed(list, now).0.active == d.active,
        d.replayed(list, now).0.infos == d.infos,
        d.replayed(list, now).0.dcp == d.dcp,
    decreases list.len(),
{
    if list.len() > 0 {
        lemma_replayed_keeps(d, list.drop_last(), now);
    }
}

impl Device {
    /// Opens the AR's Low-priority alarm channel from the negotiated AlarmCR parameters.
    fn open_alarm_channel(&mut self, ar: Option<&ArParams>)
        requires
            old(self)@.wf(),
        ensures
            final(self)@ == old(self)@.opened(ar),
            final(self)@.wf(),
            final(self).diag_list() == old(self).diag_list(),
            ar is Some ==> final(self)@.has_room(),
    {
        match ar {
            Some(params) => {
                self.alarm_epoch = self.alarm_epoch.wrapping_add(1);
                let factor: u64 = if params.rta_timeout_factor == 0 {
                    1
                } else {
                    params.rta_timeout_factor as u64
                };
                let cfg = AlarmChannelConfig {
                    local_ref: params.alarm_ref_local,
                    remote_ref: params.alarm_ref_remote,
                    rta_timeout: RTA_TIMEOUT_UNIT * factor,
                    rta_retries: params.rta_retries,
                    max_alarm_data_length: params.max_alarm_data_length_remote,
                    peer_mac: params.initiator_mac,
                    our_mac: self.dcp.mac,
                };
                self.alarm = Some(AlarmChannel::new(cfg));
            },
            None => {},
        }
    }

    /// Announces every active diagnosis anew.
    fn replay(&mut self, now: u64) -> (effects: Vec<Effect>)
        requires
            old(self)@.can_queue(now),
        ensures
            (final(self)@, effect_views(effects@)) == old(self)@.replayed(
                old(self).diag_list(),
                now,
            ),
            final(self)@.wf(),
            final(self).diag_list() == old(self).diag_list(),
    {
        let ghost list = self.diag_list();
        let notifications = self.diag.replay();
        let mut effects = no_effects();
        let mut rest = notifications;
        let mut i: usize = 0;
        let count: usize = rest.len();
        assert(list.take(0) =~= Seq::empty());
        while i < count
            invariant
                i <= count,
                count == list.len(),
                rest@.len() == count - i,
                self.diag_list() == list,
                forall|k: int|
                    0 <= k < rest@.len() ==> (#[trigger] rest@[k])@ == old(self)@.announcement(
                        list[i + k],
                    ),
                (self@, effect_views(effects@)) == old(self)@.replayed(list.take(i as int), now),
                self@.can_queue(now),
            decreases count - i,
        {
            proof {
                assert(list.take(i + 1).drop_last() =~= list.take(i as int));
                assert(list.take(i + 1).last() == list[i as int]);
                lemma_replayed_keeps(old(self)@, list.take(i as int), now);
            }
            let ghost held = rest@;
            let n = rest.remove(0);
            assert(n@ == self@.announcement(list[i as int])) by {
                assert(held[0]@ == old(self)@.announcement(list[i + 0]));
            }
            let actions = self.queue_notification(n, now);
            push_frames(&mut effects, actions);
            self.publish_alarm_stats();
            assert forall|k: int| 0 <= k < rest@.len() implies (#[trigger] rest@[k])@ == old(
                self,
            )@.announcement(list[i + 1 + k]) by {
                assert(rest@[k] == held[k + 1]);
                assert(held[k + 1]@ == old(self)@.announcement(list[i + (k + 1)]));
            }
            i = i + 1;
        }
        assert(list.take(i as int) =~= list);
        effects
    }

    /// What an AR state change asks for: `Data` (from a fresh negotiation) starts the cyclic
    /// exchange, an abort back to `Idle` stops it.
    ///
    /// The alarm channel lives and dies with the AR. A controller that reconnects has
    /// forgotten every alarm we ever sent it, so the still-active diagnoses are re-announced
    /// on the fresh channel.
    pub fn on_notify(
        &mut self,
        state: ArState,
        reason: Option<AbortReason>,
        ar: Option<&ArParams>,
        now: u64,
    ) -> (effects: Vec<Effect>)
        requires
            old(self)@.wf(),
            old(self)@.has_room(),
            now <= LAST_INSTANT,
        ensures
            (final(self)@, effect_views(effects@)) == old(self)@.after_notify(
                state,
                reason,
                ar,
                old(self).diag_list(),
                now,
            ),
            final(self)@.wf(),
            final(self).diag_list() == old(self).diag_list(),
    {
        let mut effects = no_effects();
        match (state, reason) {
            (ArState::Data, None) => {
                push_effect(&mut effects, Effect::StartRunner);
                self.open_alarm_channel(ar);
                let ghost before = effect_views(effects@);
                let mut frames = self.replay(now);
                let ghost sent = effect_views(frames@);
                let ghost (a, b) = (effects@, frames@);
                effects.append(&mut frames);
                assert(effects@ =~= a + b);
                assert(effect_views(effects@) =~= before + sent);
                assert(before =~= seq![EffectView::StartRunner]);
                self.publish_diag_state();
            },
            (ArState::Idle, Some(_)) => {
                push_effect(&mut effects, Effect::StopRunner);
                self.alarm = None;
                assert(effect_views(effects@) =~= seq![EffectView::StopRunner]);
            },
            _ => {},
        }
        effects
    }
}

// ---------------------------------------------------------------------------------
// The cyclic exchange
// ---------------------------------------------------------------------------------

/// Prepares the cyclic exchange of an AR that has reached `Data`: builds the cyclic layout
/// from the just-negotiated parameters, rebuilds the I/O image from it, and says what the
/// exchange runs with. Without a cyclic configuration, or without an AR, there is nothing to
/// prepare; a layout that cannot be built leaves the image alone, and the AR up without
/// cyclic data.
pub fn prepare_runner(
    rt: &Option<RtOptions>,
    ar: Option<&ArParams>,
    model: &DeviceModel,
    our_mac: MacAddr,
    image: &mut IoImage,
) -> (res: Result<Option<RtConfig>, LayoutError>)
    ensures
        match (*rt, ar) {
            (Some(rt), Some(params)) => match Layout::fault(*params, *model) {
                Some(e) => res == Err::<Option<RtConfig>, _>(e) && *final(image) == *old(image),
                None => {
                    &&& res matches Ok(Some(cfg)) && cfg.layout.lays_out(*params, *model)
                        && final(image).laid_out(cfg.layout) && cfg.iface@ == rt.iface@
                        && cfg.our_mac == our_mac && cfg.cpu_mac == params.initiator_mac
                        && cfg.cpu_pin == rt.cpu_pin && cfg.rt_priority == rt.rt_priority
                        && cfg.lock_memory == rt.lock_memory
                },
            },
            _ => res == Ok::<Option<RtConfig>, LayoutError>(None) && *final(image) == *old(image),
        },
{
    let (rt, params) = match (rt, ar) {
        (Some(rt), Some(params)) => (rt, params),
        _ => {
            return Ok(None);
        },
    };
    match Layout::from_ar(params, model) {
        Ok(layout) => {
            image.rebuild(&layout);
            Ok(
                Some(
                    RtConfig {
                        iface: rt.iface.clone(),
                        our_mac,
                        cpu_mac: params.initiator_mac,
                        layout,
                        cpu_pin: rt.cpu_pin,
                        rt_priority: rt.rt_priority,
                        lock_memory: rt.lock_memory,
                    },
                ),
            )
        },
        Err(e) => Err(e),
    }
}

/// Marks the image of a stopped cyclic exchange. The application must never see `Fresh` while
/// nothing feeds the image: the validity has its watchdog expired and `provider_run` cleared,
/// so it reads `Stale`; and the cell index is dropped, so that no stale offset of the
/// previous AR's layout can be read.
pub fn retire_image(image: &mut IoImage)
    ensures
        final(image).output_validity() == (Validity {
            watchdog: WatchdogState::Expired,
            provider_run: false,
            ..old(image).output_validity()
        }),
        final(image).output_validity().freshness() == crate::rt::image::Freshness::Stale,
        final(image).cell_index().len() == 0,
        final(image).input_csdu().len() == 0,
        final(image).output_csdu().len() == 0,
{
    let mut v = image.validity();
    v.watchdog = WatchdogState::Expired;
    v.provider_run = false;
    image.set_validity(v);
    image.clear();
}

// ---------------------------------------------------------------------------------
// Laws
// ---------------------------------------------------------------------------------

/// A batch that was produced before a channel was opened does not concern the AR it was
/// opened for, and leads to nothing: a stale abort does not tear down a rebuilt AR.
pub proof fn an_opened_channel_outdates_earlier_batches(
    d: DeviceView,
    params: &ArParams,
    batch: BatchView,
)
    requires
        batch.epoch == d.alarm_epoch,
    ensures
        !d.opened(Some(params)).is_current(batch.epoch),
        d.opened(Some(params)).batch_effects(batch) == Seq::<EffectView>::empty(),
{
}

/// Once the AR is gone, no batch concerns it, and no alarm is in flight.
pub proof fn an_abort_closes_the_channel(
    d: DeviceView,
    reason: AbortReason,
    list: Seq<Diagnosis>,
    now: u64,
    epoch: u64,
)
    ensures
        ({
            let (after, effects) = d.after_notify(ArState::Idle, Some(reason), None, list, now);
            &&& after.alarm is None
            &&& !after.is_current(epoch)
            &&& effects == seq![EffectView::StopRunner]
        }),
{
}

/// The controller's own abort is not answered on the alarm channel; every other one is
/// announced while there is a channel.
pub proof fn only_our_own_aborts_are_announced(d: DeviceView, reason: AbortReason)
    requires
        d.alarm is Some,
    ensures
        d.abort_effects(reason).len() == if reason is ControllerErrRta {
            1int
        } else {
            2int
        },
        d.abort_effects(reason).last() == EffectView::Abort(reason),
{
}

/// An alarm frame for another station changes nothing at all.
pub proof fn foreign_alarm_frames_change_nothing(d: DeviceView, frame: Seq<u8>, now: u64)
    requires
        rta::is_alarm(frame),
        !is_for(frame, d.dcp.mac),
    ensures
        d.after_frame(frame, now) == d,
        d.frame_actions(frame, now).len() == 0,
{
}

/// Announcing one diagnosis more puts one request more on the channel.
proof fn lemma_replayed_pending(d: DeviceView, list: Seq<Diagnosis>, now: u64)
    requires
        d.alarm is Some,
        d.alarm->0.flight is Idle,
        d.alarm->0.queue.len() == 0,
        d.alarm->0.cfg.max_alarm_data_length >= 30,
    ensures
        ({
            let after = d.replayed(list, now).0;
            &&& after.alarm is Some
            &&& after.alarm->0.cfg == d.alarm->0.cfg
            &&& channel::pending(after.alarm->0).len() == list.len()
            &&& after.alarm->0.flight is Idle ==> list.len() == 0
            &&& forall|i: int|
                0 <= i < list.len() ==> {
                    let req = #[trigger] channel::pending(after.alarm->0)[i];
                    &&& req.priority == Priority::Low
                    &&& req.notification == stamped(
                        d.announcement(list[i]),
                        req.notification.specifier.sequence,
                    )
                }
        }),
    decreases list.len(),
{
    if list.len() > 0 {
        let front = list.drop_last();
        lemma_replayed_pending(d, front, now);
        lemma_replayed_keeps(d, front, now);
        let before = d.replayed(front, now).0;
        let n = before.announcement(list.last());
        lemma_channel_diag_len(n.data);
        let req = before.request(n);
        assert(req.block_len() == 30);
        let (after, actions) = before.queued(n, now);
        let a = channel::pending(before.alarm->0);
        let b = channel::pending(after.alarm->0);
        assert(b =~= a.push(req));
        assert forall|i: int| 0 <= i < list.len() implies ({
            let r = #[trigger] b[i];
            &&& r.priority == Priority::Low
            &&& r.notification == stamped(
                d.announcement(list[i]),
                r.notification.specifier.sequence,
            )
        }) by {
            if i < front.len() {
                assert(b[i] == a[i]);
                assert(list[i] == front[i]);
            }
        }
    }
}

/// When an AR reaches `Data`, every active diagnosis is announced to its controller, in
/// order: the first is sent at once, the others wait behind it.
pub proof fn active_diagnoses_are_announced_to_each_ar(
    d: DeviceView,
    params: &ArParams,
    list: Seq<Diagnosis>,
    now: u64,
)
    requires
        params.max_alarm_data_length_remote >= 30,
    ensures
        ({
            let after = d.after_notify(ArState::Data, None, Some(params), list, now).0;
            let requests = channel::pending(after.alarm->0);
            &&& after.alarm is Some
            &&& requests.len() == list.len()
            &&& forall|i: int|
                0 <= i < list.len() ==> (#[trigger] requests[i]).notification == stamped(
                    d.announcement(list[i]),
                    requests[i].notification.specifier.sequence,
                )
            &&& after.alarm->0.flight is Idle <==> list.len() == 0
            &&& after.problem == has_fault(d.active)
        }),
{
    let open = d.opened(Some(params));
    lemma_replayed_pending(open, list, now);
    lemma_replayed_keeps(open, list, now);
    let after = d.after_notify(ArState::Data, None, Some(params), list, now).0;
    let requests = channel::pending(after.alarm->0);
    assert forall|i: int| 0 <= i < list.len() implies (#[trigger] requests[i]).notification
        == stamped(d.announcement(list[i]), requests[i].notification.specifier.sequence) by {
        assert(open.announcement(list[i]) == d.announcement(list[i]));
    }
}


/// How an abort is announced: not at all where the controller aborted first; else by the code
/// of its cause, 5 for the watchdog, 3 for an alarm that could not be sent, 17 for any other.
pub proof fn aborts_have_their_codes(reason: AbortReason)
    ensures
        err_rta_code2(reason) is None <==> reason is ControllerErrRta,
        err_rta_code2(reason) == Some(5u8) <==> reason is RtWatchdog,
        err_rta_code2(reason) == Some(3u8) <==> reason is AlarmSendFailed,
        err_rta_code2(reason) == Some(17u8) <==> !(reason is ControllerErrRta) && !(reason
            is RtWatchdog) && !(reason is AlarmSendFailed),
{
}

/// What an abort leads to: its announcement on the alarm channel, in the words `CF 81 FD` and
/// the code of its cause, and then the abort itself.
pub proof fn aborts_are_announced_in_words(d: DeviceView, reason: AbortReason)
    ensures
        ({
            let effects = d.abort_effects(reason);
            match (err_rta_code2(reason), d.alarm) {
                (Some(code2), Some(ch)) => {
                    &&& effects.len() == 2
                    &&& effects[0] == EffectView::SendEth(
                        ch.err_frame(PnioStatus((0xCF81_FD00 + code2) as u32)),
                    )
                    &&& effects[1] == EffectView::Abort(reason)
                },
                _ => effects.len() == 1 && effects[0] == EffectView::Abort(reason),
            }
        }),
{
}

/// What the cyclic exchange reports ends the AR just where it lost the controller or its
/// socket; and a device that goes away ends the AR that it has.
pub proof fn failures_of_the_exchange_end_the_ar(d: DeviceView, event: RtEvent, state: ArState)
    ensures
        match event {
            RtEvent::WatchdogExpired => d.rt_effects(event).last() == EffectView::Abort(
                AbortReason::RtWatchdog,
            ) && d.rt_effects(event) == d.abort_effects(AbortReason::RtWatchdog),
            RtEvent::SocketError(_) => d.rt_effects(event).last() == EffectView::Abort(
                AbortReason::RtSocket,
            ) && d.rt_effects(event) == d.abort_effects(AbortReason::RtSocket),
            _ => d.rt_effects(event).len() == 0,
        },
        state is Idle ==> d.shutdown_effects(state).len() == 0,
        !(state is Idle) ==> d.shutdown_effects(state).last() == EffectView::Abort(
            AbortReason::Shutdown,
        ) && d.shutdown_effects(state) == d.abort_effects(AbortReason::Shutdown),
{
}

/// The channel of an AR runs with what was negotiated: our reference and the controller's, its
/// retries and the length that it takes, and a timeout in units of 100 ms, at least one.
pub proof fn channels_run_as_negotiated(params: ArParams, our_mac: MacAddr)
    ensures
        ({
            let cfg = channel_config(params, our_mac);
            &&& cfg.local_ref == params.alarm_ref_local && cfg.remote_ref == params.alarm_ref_remote
            &&& params.rta_timeout_factor > 0 ==> cfg.rta_timeout == 100_000_000
                * params.rta_timeout_factor
            &&& params.rta_timeout_factor == 0 ==> cfg.rta_timeout == 100_000_000
            &&& cfg.rta_retries == params.rta_retries
            &&& cfg.max_alarm_data_length == params.max_alarm_data_length_remote
            &&& cfg.peer_mac == params.initiator_mac && cfg.our_mac == our_mac
        }),
{
}

/// A channel is opened anew for each AR, under a number of its own.
pub proof fn each_ar_has_its_own_channel(d: DeviceView, params: &ArParams)
    requires
        d.alarm_epoch < u64::MAX,
    ensures
        ({
            let after = d.opened(Some(params));
            &&& after.alarm_epoch == d.alarm_epoch + 1
            &&& after.alarm matches Some(ch) && {
                &&& ch.cfg == channel_config(*params, d.dcp.mac)
                &&& ch.flight is Idle && ch.queue.len() == 0 && ch.attempt == 0
                &&& ch.next_send_seq == 0xFFFF && ch.last_sent_seq == 0xFFFE && ch.last_rx_seq
                    == 0xFFFE
                &&& ch.specifier_seq == 0 && ch.stats == AlarmStats::zero()
            }
            &&& after.active == d.active && after.next_alarm_id == d.next_alarm_id
            &&& d.opened(None) == d
        }),
{
}

/// The station has a problem just where a diagnosis of a fault is active.
pub proof fn only_faults_are_problems(active: Map<int, Diagnosis>, k: int)
    ensures
        active.contains_key(k) && active[k].severity == Severity::Fault ==> has_fault(active),
        (forall|j: int| #[trigger] active.contains_key(j) ==> active[j].severity != Severity::Fault)
            ==> !has_fault(active),
{
}

/// How long the loop waits at most: 20 ms while an alarm is in flight or something is queued,
/// else what it is told, and never longer than that.
pub proof fn alarms_are_polled_for(d: &Device, default: u64, queued: bool, r: u64)
    requires
        call_ensures(Device::poll_interval, (d, default, queued), r),
    ensures
        ({
            let busy = queued || (d@.alarm is Some && !(d@.alarm->0.flight is Idle));
            &&& r <= default
            &&& busy ==> r <= 20_000_000
            &&& !busy || default <= 20_000_000 ==> r == default
            &&& busy && default > 20_000_000 ==> r == 20_000_000
        }),
{
}

/// The shorter of two limits is one of them and not longer than either; there is none just
/// where neither is. A deadline leaves the time up to it, none once it has passed.
pub proof fn waits_are_bounded_by_each_limit(a: Option<u64>, b: Option<u64>, now: u64)
    ensures
        shorter(a, b) is None <==> a is None && b is None,
        shorter(a, b) is Some ==> shorter(a, b) == a || shorter(a, b) == b,
        shorter(a, b) matches Some(x) ==> (a matches Some(y) ==> x <= y) && (b matches Some(y) ==> x
            <= y),
        a is None ==> until(a, now) is None,
        a matches Some(d) ==> (until(a, now) matches Some(left) && (now >= d ==> left == 0) && (now
            < d ==> now + left == d)),
{
}

/// A step waits no longer than it is told, nor beyond the deadline of the lifecycle machine or
/// of the alarm in flight.
pub proof fn steps_wait_for_the_next_deadline(
    d: &Device,
    now: u64,
    wait: Option<u64>,
    cm_deadline: Option<u64>,
    r: Option<u64>,
)
    requires
        call_ensures(Device::effective_wait, (d, now, wait, cm_deadline), r),
    ensures
        wait matches Some(w) ==> r is Some && r->0 <= w,
        cm_deadline matches Some(t) ==> r is Some && (r->0 == 0 || now + r->0 <= t),
        (d@.alarm matches Some(ch) && ch.flight.deadline() is Some) ==> r is Some && (r->0 == 0
            || now + r->0 <= d@.alarm->0.flight.deadline()->0),
        wait is None && cm_deadline is None && (d@.alarm is None || d@.alarm->0.flight is Idle)
            ==> r is None,
{
    let alarm = match d@.alarm {
        Some(ch) => ch.flight.deadline(),
        None => None,
    };
    waits_are_bounded_by_each_limit(cm_deadline, alarm, now);
    waits_are_bounded_by_each_limit(shorter(cm_deadline, alarm), None, now);
    waits_are_bounded_by_each_limit(wait, until(shorter(cm_deadline, alarm), now), now);
}

/// A frame is for the station whose address stands in its first six bytes.
pub proof fn frames_are_for_their_destination(frame: Seq<u8>, mac: MacAddr)
    ensures
        is_for(frame, mac) <==> frame.len() >= 6 && frame.take(6) == mac.0@,
{
    if frame.len() >= 6 {
        let m = eth::mac_at(frame, 0);
        if m == mac {
            assert(frame.take(6) =~= mac.0@);
        }
        if frame.take(6) == mac.0@ {
            assert(m.0@ =~= mac.0@) by {
                assert(frame.take(6) =~= m.0@);
            }
            assert(m.0 =~= mac.0);
        }
    }
}

/// What an alarm frame for the device leads to: with a channel, what the channel makes of it;
/// without one, it is counted.
pub proof fn alarm_frames_go_to_the_channel(d: DeviceView, frame: Seq<u8>, now: u64)
    requires
        rta::is_alarm(frame),
        is_for(frame, d.dcp.mac),
        d.rx_no_channel < u64::MAX,
    ensures
        d.alarm matches Some(ch) ==> {
            &&& d.after_frame(frame, now) == d.with_channel(ch.on_frame(frame, now).0)
            &&& d.frame_actions(frame, now) == ch.on_frame(frame, now).1
        },
        d.alarm is None ==> {
            &&& d.after_frame(frame, now).rx_no_channel == d.rx_no_channel + 1
            &&& d.after_frame(frame, now).alarm is None
            &&& d.frame_actions(frame, now).len() == 0
        },
{
}

/// Raising a diagnosis makes it active in the direction of its slot and tells of it as one that
/// appears; raised again with the same severity, or for a slot that is not known, it changes
/// nothing.
pub proof fn raised_diagnoses_are_told_of(
    infos: Seq<SubmoduleInfo>,
    active: Map<int, Diagnosis>,
    d: Diagnosis,
)
    ensures
        ({
            let (after, n) = commanded(infos, active, DiagCommand::Raise(d));
            let known = diag::info_of(infos, d.slot);
            let same = active.contains_key(d.id()) && active[d.id()].severity == d.severity;
            &&& n is None <==> known is None || same
            &&& n is None ==> after == active
            &&& n is Some ==> {
                &&& after.contains_key(d.id())
                &&& after[d.id()].severity == d.severity && after[d.id()].slot == d.slot
                &&& after[d.id()].channel == d.channel && after[d.id()].error == d.error
                &&& after[d.id()].direction == known->0.direction
                &&& after.dom() == active.dom().insert(d.id())
                &&& forall|k: int|
                    k != d.id() && active.contains_key(k) ==> #[trigger] after[k] == active[k]
                &&& n == Some(
                    diag::notification(
                        after,
                        known->0,
                        after[d.id()],
                        AlarmType::Diagnosis,
                        Specifier::Appears,
                    ),
                )
            }
        }),
{
    let (after, n) = commanded(infos, active, DiagCommand::Raise(d));
    if n is Some {
        assert(after.dom() =~= active.dom().insert(d.id()));
    }
}

/// Clearing a diagnosis that is active removes it and tells of it as one that disappears, and
/// whether others of its channel remain; clearing any other changes nothing.
pub proof fn cleared_diagnoses_are_told_of(
    infos: Seq<SubmoduleInfo>,
    active: Map<int, Diagnosis>,
    slot: Slot,
    channel: u16,
    error: ChannelError,
)
    ensures
        ({
            let (after, n) = commanded(infos, active, DiagCommand::Clear { slot, channel, error });
            let k = diag::key(slot, channel, error);
            &&& n is Some <==> active.contains_key(k)
            &&& n is None ==> after == active
            &&& !after.contains_key(k)
            &&& forall|j: int| j != k ==> (#[trigger] after.contains_key(j) <==> active.contains_key(j))
            &&& forall|j: int| #[trigger] after.contains_key(j) ==> after[j] == active[j]
            &&& n is Some ==> n == Some(
                diag::notification(
                    after,
                    diag::info_of(infos, slot)->0,
                    active[k],
                    AlarmType::DiagnosisDisappears,
                    if diag::has_channel(after, slot, channel) {
                        Specifier::DisappearsOthersRemain
                    } else {
                        Specifier::Disappears
                    },
                ),
            )
        }),
{
}

/// A notification goes out on the low channel under the next id and with the next sequence
/// number, both of which then count on; one that is too long for the controller is dropped, and
/// only the sequence number counts on.
pub proof fn notifications_are_numbered(d: DeviceView, n: rta::NotificationView, now: u64)
    requires
        d.next_alarm_id < u32::MAX,
    ensures
        d.alarm is None ==> d.queued(n, now) == (d, Seq::<channel::ActionView>::empty()),
        d.alarm matches Some(ch) ==> {
            let req = d.request(n);
            let (after, actions) = d.queued(n, now);
            let fits = 24 + n.data.spec_bytes().len() <= ch.cfg.max_alarm_data_length;
            &&& req.id == d.next_alarm_id && req.priority == Priority::Low
            &&& req.notification.specifier.sequence == ch.specifier_seq
            &&& req.notification == (rta::NotificationView {
                specifier: AlarmSpecifier { sequence: ch.specifier_seq, ..n.specifier },
                ..n
            })
            &&& after.alarm is Some
            &&& ch.specifier_seq < 2047 ==> after.alarm->0.specifier_seq == ch.specifier_seq + 1
            &&& ch.specifier_seq == 2047 ==> after.alarm->0.specifier_seq == 0
            &&& fits ==> after.next_alarm_id == d.next_alarm_id + 1
            &&& !fits ==> {
                &&& after.next_alarm_id == d.next_alarm_id && actions.len() == 0
                &&& after.alarm->0.queue == ch.queue && after.alarm->0.flight == ch.flight
            }
        },
{
}

/// What the actions of a channel lead to: frames are sent, an abort ends the AR, and what is
/// only reported leads to nothing.
pub proof fn channel_actions_have_their_effects(d: DeviceView, action: channel::ActionView)
    ensures
        match action {
            channel::ActionView::Send(frame) => d.action_effects(action) == seq![
                EffectView::SendEth(frame),
            ],
            channel::ActionView::Abort(reason) => d.action_effects(action) == d.abort_effects(
                reason,
            ),
            _ => d.action_effects(action).len() == 0,
        },
{
}

/// What a change of the AR leads to: data begins, and so does the exchange; an abort ends it
/// and closes the channel; any other change leads to nothing.
pub proof fn the_exchange_follows_the_ar(
    d: DeviceView,
    state: ArState,
    reason: Option<AbortReason>,
    ar: Option<&ArParams>,
    list: Seq<Diagnosis>,
    now: u64,
)
    ensures
        ({
            let (after, effects) = d.after_notify(state, reason, ar, list, now);
            &&& state is Data && reason is None ==> effects[0] is StartRunner && effects.len() >= 1
                && after.published == list
            &&& state is Idle && reason is Some ==> effects == seq![EffectView::StopRunner]
                && after.alarm is None && after.active == d.active
            &&& !(state is Data && reason is None) && !(state is Idle && reason is Some)
                ==> effects.len() == 0 && after == d
        }),
{
}

/// The published counters are those of the channel, and stay once the channel is gone.
pub proof fn counters_stay_readable(d: DeviceView)
    ensures
        ({
            let p = d.stats_published();
            &&& d.alarm matches Some(ch) ==> p.stats == ch.stats
            &&& d.alarm is None ==> p.stats == d.stats
            &&& p == DeviceView { stats: p.stats, ..d }
        }),
{
}

/// What the device answers about itself: the problem indicator that was published, and an alarm
/// in flight just while its channel waits for the controller.
pub proof fn the_device_answers_about_itself(d: &Device, problem: bool, flying: bool)
    requires
        call_ensures(Device::problem_indicator, (d,), problem),
        call_ensures(Device::alarm_in_flight, (d,), flying),
    ensures
        problem <==> d@.problem,
        flying <==> d@.alarm is Some && d@.alarm->0.flight !is Idle,
{
}

/// Nothing is published and nothing was counted at first.
pub proof fn nothing_is_published_at_first(s: DiagShared, r: StepReport)
    requires
        call_ensures(<DiagShared as Default>::default, (), s),
        call_ensures(<StepReport as Default>::default, (), r),
    ensures
        s.active@.len() == 0 && s.rx_no_channel == 0,
        s.stats.sent == 0 && s.stats.acked == 0 && s.stats.retries == 0,
        s.stats.unexpected_rx == 0 && s.stats.send_failures == 0 && s.stats.ack_timeouts == 0,
        s.stats.rx_err_rta == 0,
        r.eth_frames == 0 && r.rpc_datagrams == 0 && r.sent == 0,
{
}

/// Commands are carried out one after the other: those behind start from what those before left,
/// and their batches come behind.
pub proof fn commands_are_carried_out_in_order(
    d: DeviceView,
    a: Seq<DiagCommand>,
    b: Seq<DiagCommand>,
    now: u64,
)
    ensures
        ({
            let (mid, first) = d.drained(a, now);
            let (end, second) = mid.drained(b, now);
            d.drained(a + b, now) == (end, first + second)
        }),
        d.drained(Seq::empty(), now) == (d, Seq::<BatchView>::empty()),
    decreases b.len(),
{
    let (mid, first) = d.drained(a, now);
    if b.len() == 0 {
        assert(a + b =~= a);
        assert(first + Seq::<BatchView>::empty() =~= first);
    } else {
        commands_are_carried_out_in_order(d, a, b.drop_last(), now);
        assert((a + b).drop_last() =~= a + b.drop_last());
        let (before, batches) = mid.drained(b.drop_last(), now);
        let more = before.after_command(b.last(), now).1;
        assert((first + batches) + more =~= first + (batches + more));
    }
}

/// A command leads to at most one batch: what the channel is asked for the notification that the
/// command calls for, marked with the channel of the time.
pub proof fn a_command_leads_to_one_batch(d: DeviceView, cmd: DiagCommand, now: u64)
    ensures
        ({
            let (after, batches) = d.drained(seq![cmd], now);
            let (active, n) = commanded(d.infos, d.active, cmd);
            &&& batches.len() <= 1
            &&& n is None ==> batches.len() == 0 && after == DeviceView { active, ..d }
            &&& n matches Some(n) ==> {
                let (noted, actions) = DeviceView { active, ..d }.queued(n, now);
                &&& after == noted
                &&& batches.len() == 0 <==> actions.len() == 0
                &&& batches.len() > 0 ==> batches[0].actions == actions && batches[0].epoch
                    == d.alarm_epoch
            }
        }),
{
    reveal_with_fuel(DeviceView::drained, 2);
    assert(seq![cmd].drop_last() =~= Seq::empty());
    assert(Seq::<BatchView>::empty() + d.after_command(cmd, now).1 =~= d.after_command(cmd, now).1);
}

} // verus!
