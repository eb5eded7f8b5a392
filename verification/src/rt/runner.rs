//! The decisions of the cyclic loop: the tick grid, what a tick and a received frame leave
//! to do, what becomes of a publish that could not happen, and when to give up.
//!
//! The loop itself owns a clock, a socket and a priority; it performs what is decided here
//! and hands back what came of it. All times are nanoseconds on a monotonic clock.

use vstd::prelude::*;

use crate::eth::MacAddr;
use crate::rt::image::{Validity, WatchdogState};
use crate::rt::layout::Layout;

verus! {

/// Upper bound on frames consumed in one receive pass, so a flooded socket cannot starve
/// the send cycle: whatever is left waits for the next pass.
pub const MAX_RX_PER_PASS: usize = 64;

/// Upper bound on consecutive loop iterations in which neither a tick nor a frame was
/// processed, before the loop treats itself as stuck and exits instead of spinning.
pub const MAX_NO_PROGRESS_ITERATIONS: u32 = 1000;

/// Out-of-band conditions reported by the cyclic loop, drained by the acyclic side.
#[derive(Debug, Clone, PartialEq, Eq)]
pub enum RtEvent {
    /// The consumer watchdog expired (reported once per gap).
    WatchdogExpired,
    /// The socket failed; the loop stops right after this event.
    SocketError(String),
    /// Real-time scheduling or CPU pinning could not be applied; the loop runs on anyway,
    /// at whatever priority it already had.
    SchedWarning(String),
    /// Last event of the loop's life.
    Exited,
}

/// What the cyclic exchange of one AR runs with.
#[derive(Debug, Clone)]
pub struct RtConfig {
    /// Interface to open.
    pub iface: String,
    /// Our MAC: the source of produced frames.
    pub our_mac: MacAddr,
    /// The controller's MAC: the destination of produced frames.
    pub cpu_mac: MacAddr,
    /// The negotiated cyclic layout.
    pub layout: Layout,
    /// Pin the thread to this CPU, if set.
    pub cpu_pin: Option<usize>,
    /// Run the thread at this `SCHED_FIFO` priority, if set.
    pub rt_priority: Option<u8>,
    /// Lock process memory and pre-fault the stack.
    pub lock_memory: bool,
}

/// Ideal tick grid anchored on the first wake-up: lateness = now - (start + period * n).
///
/// It owns no clock of its own: the caller hands it `now` from each timer read.
#[derive(Debug, Clone, Copy, PartialEq, Eq, Structural)]
pub struct TickGrid {
    /// The period of the grid in nanoseconds.
    pub period: u64,
    /// The time of the first wake-up, once there was one.
    pub start: Option<u64>,
    /// Ticks since the grid was anchored, the anchoring one included.
    pub ticks: u64,
}

/// `a + b`, at most the largest `u64`.
pub open spec fn sat_add(a: u64, b: u64) -> u64 {
    if a + b > u64::MAX {
        u64::MAX
    } else {
        (a + b) as u64
    }
}

/// `a * b`, at most the largest `u64`.
pub open spec fn sat_mul(a: u64, b: u64) -> u64 {
    if a * b > u64::MAX {
        u64::MAX
    } else {
        (a * b) as u64
    }
}

/// How far `now` lies behind `expected`, zero where it does not.
pub open spec fn late_by(now: u64, expected: int) -> u64 {
    if now > expected {
        (now - expected) as u64
    } else {
        0
    }
}

impl TickGrid {
    /// The ideal time of the tick number `ticks`, before the clock runs out.
    pub open spec fn ideal(self, ticks: u64) -> int {
        let before: u64 = if ticks == 0 {
            0
        } else {
            (ticks - 1) as u64
        };
        self.start->0 + sat_mul(self.period, before)
    }

    /// How late a wake of `expirations` ticks at `now` is. The read that anchors the grid is
    /// not late; neither is one whose ideal time the clock cannot tell.
    pub open spec fn lateness(self, now: u64, expirations: u64) -> u64 {
        let ideal = self.ideal(sat_add(self.ticks, expirations));
        if self.start is None || ideal > u64::MAX {
            0
        } else {
            late_by(now, ideal)
        }
    }

    /// The grid after a wake of `expirations` ticks at `now`.
    pub open spec fn after_read(self, now: u64, expirations: u64) -> TickGrid {
        match self.start {
            None => TickGrid { start: Some(now), ticks: 1, ..self },
            Some(_) => TickGrid { ticks: sat_add(self.ticks, expirations), ..self },
        }
    }

    /// A grid that the first read will anchor.
    pub fn new(period: u64) -> (g: Self)
        ensures
            g == (TickGrid { period, start: None, ticks: 0 }),
    {
        TickGrid { period, start: None, ticks: 0 }
    }

    /// Account for one timer read of `expirations` ticks at `now`; returns the lateness of
    /// this wake against the ideal grid, in nanoseconds. The first read anchors the grid
    /// (lateness 0) and does not count its extra expirations: they are the setup time
    /// between arming the timer and the first read, not missed cycles on the wire.
    pub fn on_read(&mut self, now: u64, expirations: u64) -> (lateness: u64)
        ensures
            lateness == old(self).lateness(now, expirations),
            *final(self) == old(self).after_read(now, expirations),
    {
        match self.start {
            None => {
                self.start = Some(now);
                self.ticks = 1;
                0
            },
            Some(start) => {
                self.ticks = if expirations > u64::MAX - self.ticks {
                    u64::MAX
                } else {
                    self.ticks + expirations
                };
                let before: u64 = if self.ticks == 0 {
                    0
                } else {
                    self.ticks - 1
                };
                let offset: u64 = match self.period.checked_mul(before) {
                    Some(n) => n,
                    None => u64::MAX,
                };
                if offset > u64::MAX - start {
                    return 0;
                }
                let expected: u64 = start + offset;
                if now > expected {
                    now - expected
                } else {
                    0
                }
            },
        }
    }

    /// Total ticks since the grid was anchored, used for `Validity.cycle`.
    pub fn ticks(&self) -> (n: u64)
        ensures
            n == self.ticks,
    {
        self.ticks
    }
}

/// A wake that comes `jitter` nanoseconds behind its ideal instant is late by just that, and
/// one that comes early is not late.
pub proof fn lateness_is_the_jitter(g: TickGrid, expirations: u64, now: u64, jitter: int)
    requires
        g.start is Some,
        now == g.ideal(sat_add(g.ticks, expirations)) + jitter,
    ensures
        jitter >= 0 ==> late_by(now, g.ideal(sat_add(g.ticks, expirations))) == jitter,
        jitter <= 0 ==> late_by(now, g.ideal(sat_add(g.ticks, expirations))) == 0,
{
}

/// The expirations that the engine sees for one timer read: the raw count, at most what it
/// can hold, but one for the read that anchors the grid, since whatever was counted before
/// it is setup time.
pub open spec fn seen_expirations(is_first_read: bool, expirations: u64) -> u32 {
    if is_first_read {
        1
    } else if expirations > u32::MAX {
        u32::MAX
    } else {
        expirations as u32
    }
}

/// The expirations that the engine is told of for one timer read.
pub fn engine_expirations(is_first_read: bool, expirations: u64) -> (n: u32)
    ensures
        n == seen_expirations(is_first_read, expirations),
{
    if is_first_read {
        1
    } else if expirations > u32::MAX as u64 {
        u32::MAX
    } else {
        expirations as u32
    }
}

/// Whether a receive pass goes on after one `recv`.
///
/// - `has_fd`: the transport exposes a file descriptor, so its readability can be checked
///   *before* every `recv`.
/// - `readable`: that pre-check's result (only consulted when `has_fd`).
/// - `got_frame`: the `recv` call that just ran returned a frame (only consulted when
///   `!has_fd`).
///
/// With a file descriptor, a queue that is still readable keeps being drained even when the
/// frame just handed back was skipped. Without one, the pass stops as soon as `recv` hands
/// back nothing.
#[verifier::allow_in_spec]
pub fn drain_should_continue(has_fd: bool, readable: bool, got_frame: bool) -> (r: bool)
    ensures
        r == (if has_fd {
            readable
        } else {
            got_frame
        }),
    returns
        (if has_fd {
            readable
        } else {
            got_frame
        }),
{
    if has_fd {
        readable
    } else {
        got_frame
    }
}

/// Whether a pass drains the socket at all: a polled socket when it says so, a transport
/// with no file descriptor once per tick.
#[verifier::allow_in_spec]
pub fn should_drain(has_fd: bool, socket_ready: bool, ticked: bool) -> (r: bool)
    ensures
        r == (if has_fd {
            socket_ready
        } else {
            ticked
        }),
    returns
        (if has_fd {
            socket_ready
        } else {
            ticked
        }),
{
    if has_fd {
        socket_ready
    } else {
        ticked
    }
}

/// A publish the image could not take yet, retried on the next tick.
#[derive(Debug, Clone, Copy, PartialEq, Eq, Structural)]
pub enum Pending {
    /// Data plus validity, from an accepted frame.
    Data(Validity),
    /// Validity only, from a watchdog verdict.
    Validity(Validity),
}

/// How one `recv` of a receive pass ended.
#[derive(Debug, Clone, Copy, PartialEq, Eq, Structural)]
pub enum Received {
    /// Nothing there, or a frame that was not ours to see.
    Nothing,
    /// A frame that the engine accepted.
    Accepted {
        /// When the frame before it was accepted, if one was.
        previous: Option<u64>,
    },
    /// A frame that the engine dropped.
    Dropped,
    /// A frame too long for the buffer, discarded by the transport.
    TooLong,
}

/// What the engine says of the controller's provider state.
#[derive(Debug, Clone, Copy, PartialEq, Eq, Structural)]
pub struct ProviderState {
    /// The provider is in RUN.
    pub run: bool,
    /// The provider is primary.
    pub primary: bool,
}

/// What one tick leaves to do, in this order: record the lateness, retry the pending
/// publish, check the watchdog, take the inputs, produce a frame for so many expirations.
#[derive(Debug, Clone, Copy, PartialEq, Eq, Structural)]
pub struct TickPlan {
    /// Lateness of this wake in nanoseconds.
    pub lateness: u64,
    /// The publish to try again, if one is pending.
    pub retry: Option<Pending>,
    /// The expirations the engine is told of.
    pub expirations: u32,
}

/// What one received frame leaves to do.
#[derive(Debug, Clone, Copy, PartialEq, Eq, Structural)]
pub struct RxPlan {
    /// The interval to the frame accepted before, to be recorded.
    pub interval: Option<u64>,
    /// The validity to publish the frame's data with.
    pub publish: Option<Validity>,
    /// Whether the pass goes on.
    pub go_on: bool,
}

/// The state of the cyclic loop between two waits.
#[derive(Debug, Clone, Copy, PartialEq, Eq, Structural)]
pub struct RtLoop {
    /// The tick grid.
    pub grid: TickGrid,
    /// The publish that could not happen yet.
    pub pending: Option<Pending>,
    /// Consecutive iterations with neither a tick nor a frame.
    pub no_progress: u32,
    /// Whether the current iteration processed a tick.
    pub ticked: bool,
    /// Whether the current iteration processed a tick or a frame.
    pub progressed: bool,
    /// How often the previous input snapshot had to be used again.
    pub input_snapshot_reused: u64,
    /// How often a publish was put off.
    pub output_publish_deferred: u64,
    /// How many frames were too long.
    pub rx_invalid: u64,
}

/// `n + 1`, at most the largest `u32`.
pub open spec fn sat_inc(n: u32) -> u32 {
    if n == u32::MAX {
        n
    } else {
        (n + 1) as u32
    }
}

/// `n + 1`, wrapping as the counters do.
pub open spec fn bumped(n: u64) -> u64 {
    if n == u64::MAX {
        0
    } else {
        (n + 1) as u64
    }
}

fn bump(n: u64) -> (r: u64)
    ensures
        r == bumped(n),
{
    if n == u64::MAX {
        0
    } else {
        n + 1
    }
}

impl RtLoop {
    /// The loop with `p` pending and one more publish put off.
    pub open spec fn put_off(self, p: Pending) -> RtLoop {
        RtLoop {
            pending: Some(p),
            output_publish_deferred: bumped(self.output_publish_deferred),
            ..self
        }
    }

    /// What a timer read leaves to do.
    pub open spec fn tick_plan(self, now: u64, expirations: u64) -> Option<TickPlan> {
        if expirations == 0 {
            None
        } else {
            Some(
                TickPlan {
                    lateness: self.grid.lateness(now, expirations),
                    retry: self.pending,
                    expirations: seen_expirations(self.grid.ticks == 0, expirations),
                },
            )
        }
    }

    /// The loop after a timer read.
    pub open spec fn after_timer(self, now: u64, expirations: u64) -> RtLoop {
        if expirations == 0 {
            self
        } else {
            RtLoop {
                grid: self.grid.after_read(now, expirations),
                pending: None,
                ticked: true,
                progressed: true,
                ..self
            }
        }
    }

    /// The validity that an expired watchdog leaves.
    pub open spec fn expiry(self, provider: ProviderState, last_rx: Option<u64>, now: u64) -> Validity {
        Validity {
            provider_run: provider.run,
            primary: provider.primary,
            watchdog: WatchdogState::Expired,
            last_rx_age: match last_rx {
                Some(t) => Some(late_by(now, t as int)),
                None => None,
            },
            cycle: self.grid.ticks,
        }
    }

    /// The loop after the inputs were asked for.
    pub open spec fn after_snapshot(self, taken: bool) -> RtLoop {
        if taken {
            self
        } else {
            RtLoop { input_snapshot_reused: bumped(self.input_snapshot_reused), ..self }
        }
    }

    /// What one `recv` leaves to do.
    pub open spec fn rx_plan(
        self,
        r: Received,
        provider: ProviderState,
        now: u64,
        has_fd: bool,
    ) -> RxPlan {
        RxPlan {
            interval: match r {
                Received::Accepted { previous: Some(t) } => Some(late_by(now, t as int)),
                _ => None,
            },
            publish: match r {
                Received::Accepted { .. } => Some(
                    Validity {
                        provider_run: provider.run,
                        primary: provider.primary,
                        watchdog: WatchdogState::InWindow,
                        last_rx_age: Some(0),
                        cycle: self.grid.ticks,
                    },
                ),
                _ => None,
            },
            go_on: has_fd || r !is Nothing,
        }
    }

    /// The loop after one `recv`.
    pub open spec fn after_receive(self, r: Received) -> RtLoop {
        RtLoop {
            progressed: self.progressed || r !is Nothing,
            rx_invalid: if r is TooLong {
                bumped(self.rx_invalid)
            } else {
                self.rx_invalid
            },
            ..self
        }
    }

    /// The loop at the end of an iteration.
    pub open spec fn after_finish(self) -> RtLoop {
        RtLoop {
            no_progress: if self.progressed {
                0
            } else {
                sat_inc(self.no_progress)
            },
            ..self
        }
    }

    /// Whether the iteration that ends leaves the loop stuck.
    pub open spec fn is_stuck(self) -> bool {
        !self.progressed && sat_inc(self.no_progress) >= MAX_NO_PROGRESS_ITERATIONS
    }

    /// The loop after the publish `p` was tried again.
    pub open spec fn after_retry(self, p: Pending, taken: bool) -> RtLoop {
        if taken {
            self
        } else {
            self.put_off(p)
        }
    }

    /// The loop after the image was handed a watchdog's validity.
    pub open spec fn after_validity(self, v: Validity, taken: bool) -> RtLoop {
        if taken {
            self
        } else {
            self.put_off(Pending::Validity(v))
        }
    }

    /// The loop after the image was handed an accepted frame's data.
    pub open spec fn after_publish(self, v: Validity, taken: bool) -> RtLoop {
        if taken {
            RtLoop { pending: None, ..self }
        } else {
            self.put_off(Pending::Data(v))
        }
    }

    /// A loop that has not woken up yet.
    pub fn new(period: u64) -> (l: Self)
        ensures
            l == (RtLoop {
                grid: TickGrid { period, start: None, ticks: 0 },
                pending: None,
                no_progress: 0,
                ticked: false,
                progressed: false,
                input_snapshot_reused: 0,
                output_publish_deferred: 0,
                rx_invalid: 0,
            }),
    {
        RtLoop {
            grid: TickGrid::new(period),
            pending: None,
            no_progress: 0,
            ticked: false,
            progressed: false,
            input_snapshot_reused: 0,
            output_publish_deferred: 0,
            rx_invalid: 0,
        }
    }

    /// A wait ended: a new iteration begins.
    pub fn begin(&mut self)
        ensures
            *final(self) == (RtLoop { ticked: false, progressed: false, ..*old(self) }),
    {
        self.ticked = false;
        self.progressed = false;
    }

    /// The timer was read: `expirations` ticks at `now`. No expirations means the wake-up
    /// was for something else, and nothing is to do.
    pub fn on_timer(&mut self, now: u64, expirations: u64) -> (plan: Option<TickPlan>)
        ensures
            plan == old(self).tick_plan(now, expirations),
            *final(self) == old(self).after_timer(now, expirations),
    {
        if expirations == 0 {
            return None;
        }
        let is_first_read: bool = self.grid.ticks() == 0;
        let lateness: u64 = self.grid.on_read(now, expirations);
        let retry = self.pending;
        self.pending = None;
        self.ticked = true;
        self.progressed = true;
        Some(
            TickPlan { lateness, retry, expirations: engine_expirations(is_first_read, expirations) },
        )
    }

    /// The pending publish was tried again; `taken` says whether the image took it. If it
    /// did not, it stays pending.
    pub fn on_retry(&mut self, p: Pending, taken: bool)
        ensures
            *final(self) == old(self).after_retry(p, taken),
    {
        if !taken {
            self.output_publish_deferred = bump(self.output_publish_deferred);
            self.pending = Some(p);
        }
    }

    /// The watchdog expired: the validity to mark the outputs with. The controller stopped
    /// providing, so the application's view of them goes bad until it talks again.
    pub fn expired_validity(&self, provider: ProviderState, last_rx: Option<u64>, now: u64) -> (v:
        Validity)
        ensures
            v == self.expiry(provider, last_rx, now),
    {
        Validity {
            provider_run: provider.run,
            primary: provider.primary,
            watchdog: WatchdogState::Expired,
            last_rx_age: match last_rx {
                Some(t) => Some(
                    if now > t {
                        now - t
                    } else {
                        0
                    },
                ),
                None => None,
            },
            cycle: self.grid.ticks(),
        }
    }

    /// The image was handed a validity from the watchdog; where it did not take it, it
    /// stays pending.
    pub fn on_validity(&mut self, v: Validity, taken: bool)
        ensures
            *final(self) == old(self).after_validity(v, taken),
    {
        if !taken {
            self.output_publish_deferred = bump(self.output_publish_deferred);
            self.pending = Some(Pending::Validity(v));
        }
    }

    /// The inputs were asked for; where the image did not give them, the snapshot of the
    /// cycle before is sent again.
    pub fn on_snapshot(&mut self, taken: bool)
        ensures
            *final(self) == old(self).after_snapshot(taken),
    {
        if !taken {
            self.input_snapshot_reused = bump(self.input_snapshot_reused);
        }
    }

    /// One `recv` of a receive pass ended as `r` says, at `now`. An accepted frame is to be
    /// published as fresh; an oversized one is counted and the pass goes on.
    pub fn on_receive(&mut self, r: Received, provider: ProviderState, now: u64, has_fd: bool) -> (
    plan: RxPlan)
        ensures
            plan == old(self).rx_plan(r, provider, now, has_fd),
            *final(self) == old(self).after_receive(r),
    {
        let mut interval: Option<u64> = None;
        let mut publish: Option<Validity> = None;
        let got_frame: bool = match r {
            Received::Nothing => false,
            Received::Accepted { previous } => {
                if let Some(t) = previous {
                    interval = Some(
                        if now > t {
                            now - t
                        } else {
                            0
                        },
                    );
                }
                publish = Some(
                    Validity {
                        provider_run: provider.run,
                        primary: provider.primary,
                        watchdog: WatchdogState::InWindow,
                        last_rx_age: Some(0),
                        cycle: self.grid.ticks(),
                    },
                );
                true
            },
            Received::Dropped => true,
            Received::TooLong => {
                self.rx_invalid = bump(self.rx_invalid);
                true
            },
        };
        if got_frame {
            self.progressed = true;
        }
        RxPlan { interval, publish, go_on: drain_should_continue(has_fd, true, got_frame) }
    }

    /// An accepted frame's data was handed to the image: what was pending is superseded; if
    /// the image did not take it, it is pending itself.
    pub fn on_publish(&mut self, v: Validity, taken: bool)
        ensures
            *final(self) == old(self).after_publish(v, taken),
    {
        if taken {
            self.pending = None;
        } else {
            self.output_publish_deferred = bump(self.output_publish_deferred);
            self.pending = Some(Pending::Data(v));
        }
    }

    /// The iteration is over; `true` if the loop is stuck and has to end.
    pub fn finish(&mut self) -> (stuck: bool)
        ensures
            *final(self) == old(self).after_finish(),
            stuck == old(self).is_stuck(),
    {
        if self.progressed {
            self.no_progress = 0;
            return false;
        }
        if self.no_progress < u32::MAX {
            self.no_progress = self.no_progress + 1;
        }
        self.no_progress >= MAX_NO_PROGRESS_ITERATIONS
    }
}

/// A publish that was put off is kept until the image takes it: put off again it is still
/// pending, and taken it is pending no more.
pub proof fn a_deferred_publish_is_kept(l: RtLoop, p: Pending, v: Validity)
    ensures
        l.after_retry(p, false).pending == Some(p),
        (RtLoop { pending: None, ..l }).after_retry(p, true).pending is None,
        l.after_publish(v, false).pending == Some(Pending::Data(v)),
        l.after_publish(v, true).pending is None,
        l.after_validity(v, false).pending == Some(Pending::Validity(v)),
        l.after_validity(v, true).pending == l.pending,
{
}

/// A time span as whole seconds and the nanoseconds of the started one.
pub fn split_seconds(ns: u64) -> (r: (u64, u32))
    ensures
        r.0 * 1_000_000_000 + r.1 == ns,
        r.1 < 1_000_000_000,
{
    (ns / 1_000_000_000, (ns % 1_000_000_000) as u32)
}

/// A wait of `timeout_ns` in whole milliseconds, rounded **up**: a started millisecond
/// counts whole, so a short wait never becomes none. `None` for more than a poll can be asked
/// to wait, which is a count of 31 bits.
pub fn wait_millis(timeout_ns: u64) -> (r: Option<i32>)
    ensures
        ({
            let ms = timeout_ns / 1_000_000 + (if timeout_ns % 1_000_000 != 0 {
                1int
            } else {
                0int
            });
            match r {
                Some(m) => m == ms,
                None => ms > i32::MAX,
            }
        }),
        match r {
            Some(m) => (m - 1) * 1_000_000 < timeout_ns <= m * 1_000_000,
            None => timeout_ns > 0x7FFF_FFFF * 1_000_000,
        },
{
    let whole: u64 = timeout_ns / 1_000_000;
    let ms: u64 = if timeout_ns % 1_000_000 != 0 {
        whole + 1
    } else {
        whole
    };
    if ms > i32::MAX as u64 {
        None
    } else {
        Some(ms as i32)
    }
}

/// A wake is late by its distance from the grid: with the grid begun at `start`, the tick
/// number `n` is due at `start + (n - 1) * period`. The wake that begins the grid is not late.
pub proof fn lateness_is_measured_from_the_first_wake(g: TickGrid, now: u64, expirations: u64)
    ensures
        g.start is None ==> g.lateness(now, expirations) == 0,
        g.start matches Some(start) ==> {
            let n = g.ticks + expirations;
            let due = start + g.period * (n - 1);
            n >= 1 && n <= u64::MAX && due <= u64::MAX ==> {
                &&& now >= due ==> g.lateness(now, expirations) == now - due
                &&& now < due ==> g.lateness(now, expirations) == 0
            }
        },
{
    if let Some(start) = g.start {
        let n = g.ticks + expirations;
        if n >= 1 && n <= u64::MAX && start + g.period * (n - 1) <= u64::MAX {
            let before = (n - 1) as u64;
            assert(sat_add(g.ticks, expirations) == n);
            assert(g.period * before == g.period * (n - 1));
            assert(sat_mul(g.period, before) == g.period * (n - 1));
        }
    }
}

/// The first wake begins the grid as its tick one, whatever it counted; each later one adds
/// what it counted, and the period stays.
pub proof fn ticks_count_expirations(g: TickGrid, now: u64, expirations: u64)
    ensures
        ({
            let after = g.after_read(now, expirations);
            &&& after.period == g.period
            &&& g.start is None ==> after.start == Some(now) && after.ticks == 1
            &&& g.start is Some ==> after.start == g.start
            &&& g.start is Some && g.ticks + expirations <= u64::MAX ==> after.ticks == g.ticks
                + expirations
        }),
{
}

/// What the engine sees of a read: one cycle for the first, else as many as were counted.
pub proof fn the_first_read_is_one_cycle(expirations: u64)
    ensures
        seen_expirations(true, expirations) == 1,
        expirations <= 0xFFFF_FFFF ==> seen_expirations(false, expirations) == expirations,
        expirations > 0xFFFF_FFFF ==> seen_expirations(false, expirations) == 0xFFFF_FFFF,
{
}

/// The validity that a frame or its absence leaves: an accepted frame is within the window and
/// has no age; an expired watchdog leaves the age of the last frame. Both carry the
/// controller's state and the tick they were seen at.
pub proof fn validity_tells_what_was_seen(
    l: RtLoop,
    provider: ProviderState,
    last: u64,
    previous: Option<u64>,
    now: u64,
    has_fd: bool,
)
    ensures
        ({
            let v = l.expiry(provider, Some(last), now);
            &&& v.watchdog is Expired
            &&& v.provider_run == provider.run && v.primary == provider.primary
            &&& v.cycle == l.grid.ticks
            &&& now >= last ==> v.last_rx_age == Some((now - last) as u64)
            &&& now < last ==> v.last_rx_age == Some(0u64)
            &&& l.expiry(provider, None, now).last_rx_age is None
        }),
        l.rx_plan(Received::Accepted { previous }, provider, now, has_fd).publish matches Some(v) && {
            &&& v.watchdog is InWindow
            &&& v.provider_run == provider.run && v.primary == provider.primary
            &&& v.cycle == l.grid.ticks
            &&& v.last_rx_age == Some(0u64)
        },
{
}

/// Only an accepted frame is published, and the time since the one before is what is recorded
/// of it.
pub proof fn only_accepted_frames_are_published(
    l: RtLoop,
    r: Received,
    provider: ProviderState,
    now: u64,
    has_fd: bool,
)
    ensures
        ({
            let plan = l.rx_plan(r, provider, now, has_fd);
            &&& plan.publish is Some <==> r is Accepted
            &&& plan.interval is Some <==> r is Accepted && r->previous is Some
            &&& (r matches Received::Accepted { previous: Some(t) } && now >= t) ==> plan.interval
                == Some((now - r->previous->0) as u64)
            &&& plan.go_on <==> has_fd || !(r is Nothing)
        }),
{
}

/// What each outcome of a receive counts as: anything but nothing is progress, and only a
/// frame that is too long is invalid.
pub proof fn receives_are_counted(l: RtLoop, r: Received)
    requires
        l.rx_invalid < u64::MAX,
    ensures
        ({
            let after = l.after_receive(r);
            &&& after.progressed <==> l.progressed || !(r is Nothing)
            &&& after.rx_invalid - l.rx_invalid == (if r is TooLong { 1int } else { 0 })
            &&& after.pending == l.pending && after.grid == l.grid
            &&& after.no_progress == l.no_progress && after.ticked == l.ticked
            &&& after.input_snapshot_reused == l.input_snapshot_reused
            &&& after.output_publish_deferred == l.output_publish_deferred
        }),
{
}

/// What each refusal of the image counts as: a refused publish is one put off, a refused
/// snapshot one used again, and nothing else is touched.
pub proof fn refusals_are_counted(l: RtLoop, p: Pending, v: Validity)
    requires
        l.output_publish_deferred < u64::MAX,
        l.input_snapshot_reused < u64::MAX,
    ensures
        l.after_retry(p, false).output_publish_deferred == l.output_publish_deferred + 1,
        l.after_publish(v, false).output_publish_deferred == l.output_publish_deferred + 1,
        l.after_validity(v, false).output_publish_deferred == l.output_publish_deferred + 1,
        l.after_retry(p, true) == l && l.after_validity(v, true) == l,
        l.after_publish(v, true).output_publish_deferred == l.output_publish_deferred,
        l.after_snapshot(false).input_snapshot_reused == l.input_snapshot_reused + 1,
        l.after_snapshot(true) == l,
{
}

/// What a timer read leaves to do and keeps: without an expiration nothing; with one a tick,
/// late as the grid says, that takes over what was pending.
pub proof fn a_tick_takes_over_what_was_pending(l: RtLoop, now: u64, expirations: u64)
    ensures
        expirations == 0 ==> l.tick_plan(now, expirations) is None && l.after_timer(
            now,
            expirations,
        ) == l,
        expirations > 0 ==> {
            let after = l.after_timer(now, expirations);
            &&& l.tick_plan(now, expirations) matches Some(plan) && {
                &&& plan.retry == l.pending
                &&& plan.lateness == l.grid.lateness(now, expirations)
                &&& plan.expirations == (if l.grid.ticks == 0 {
                    1
                } else if expirations > 0xFFFF_FFFF {
                    0xFFFF_FFFF
                } else {
                    expirations as int
                })
            }
            &&& after.pending is None && after.ticked && after.progressed
            &&& after.no_progress == l.no_progress && after.rx_invalid == l.rx_invalid
        },
{
}

/// An iteration that got somewhere starts the count of the others anew; the thousandth in a row
/// that did not leaves the loop stuck.
pub proof fn a_thousand_idle_iterations_are_too_many(l: RtLoop)
    ensures
        l.progressed ==> l.after_finish().no_progress == 0 && !l.is_stuck(),
        !l.progressed && l.no_progress < 999 ==> l.after_finish().no_progress == l.no_progress + 1
            && !l.is_stuck(),
        !l.progressed && l.no_progress >= 999 ==> l.is_stuck(),
{
}

/// A socket that can tell is asked whether there is more, any other by what it gave.
pub proof fn sockets_that_can_tell_are_asked(ready: bool, other: bool)
    ensures
        drain_should_continue(true, ready, other) == ready,
        drain_should_continue(false, other, ready) == ready,
        should_drain(true, ready, other) == ready,
        should_drain(false, other, ready) == ready,
{
}

/// A pass takes at most 64 frames.
pub proof fn a_pass_takes_64_frames()
    ensures
        MAX_RX_PER_PASS == 64,
{
}

/// Seconds and nanoseconds of a span: as many whole seconds as it holds, and the rest.
pub proof fn spans_are_split_at_whole_seconds(ns: u64, r: (u64, u32))
    requires
        call_ensures(split_seconds, (ns,), r),
    ensures
        r.0 * 1_000_000_000 <= ns < (r.0 + 1) * 1_000_000_000,
        r.1 == ns - r.0 * 1_000_000_000,
{
}

/// A wait in milliseconds is the shortest that is not shorter than the wait in nanoseconds; it
/// is none only for no wait, and given up only beyond 31 bits.
pub proof fn waits_are_never_cut_short(ns: u64, r: Option<i32>)
    requires
        call_ensures(wait_millis, (ns,), r),
    ensures
        r matches Some(m) ==> m * 1_000_000 >= ns && (m > 0 ==> (m - 1) * 1_000_000 < ns),
        r matches Some(m) ==> (m == 0 <==> ns == 0),
        r is None <==> ns > 2_147_483_647_000_000,
{
}

} // verus!
