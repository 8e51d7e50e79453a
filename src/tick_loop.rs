//! The broadcast loop's decisions: cadence, deadline fallback, self-healing,
//! housekeeping and the display summary. The runtime around it sleeps,
//! runs the collector under the deadline and hands the outcome in here.
use vstd::prelude::*;
use crate::snapshot::{SnapshotView, TelemetrySnapshot};
use crate::text::{decimal, push_decimal};
use crate::types::WarningEvent;

verus! {

/// Deadline of one collection pass.
pub const COLLECT_DEADLINE_MS: u64 = 3000;

/// Consecutive timeouts that trigger a rebuild of the collector.
pub const FAILURE_THRESHOLD: u32 = 3;

/// Ticks between two calls of the retention hook.
pub const HOUSEKEEPING_EVERY: u64 = 180;

/// Smallest and largest refresh rate a caller may configure.
pub const MIN_RATE_MS: u64 = 10;
pub const MAX_RATE_MS: u64 = 10000;

pub open spec fn clamped_rate(ms: u64) -> u64 {
    if ms < MIN_RATE_MS {
        MIN_RATE_MS
    } else if ms > MAX_RATE_MS {
        MAX_RATE_MS
    } else {
        ms
    }
}

/// The stored cadence for a requested refresh rate (the control surface's `set_refresh_rate`).
pub fn clamp_refresh_rate(ms: u64) -> (r: u64)
    ensures
        r == clamped_rate(ms),
        MIN_RATE_MS <= r <= MAX_RATE_MS,
{
    if ms < MIN_RATE_MS {
        MIN_RATE_MS
    } else if ms > MAX_RATE_MS {
        MAX_RATE_MS
    } else {
        ms
    }
}

/// What the collector produced within the deadline, or that it overran.
pub enum CollectOutcome {
    Collected(TelemetrySnapshot),
    TimedOut,
}

/// What the runtime does at the end of a tick.
pub struct TickDecision {
    /// Store as the latest snapshot and fan out to consumers.
    pub publish: TelemetrySnapshot,
    /// Emitted on a timeout.
    pub warning: Option<WarningEvent>,
    /// Discard the collector and build a fresh one.
    pub rebuild_collector: bool,
    /// Emitted with a rebuild.
    pub recovery: Option<WarningEvent>,
    /// Call the external retention hook this tick.
    pub housekeeping: bool,
}

/// Failure counter and rebuild counter (saturating) after a timeout.
pub open spec fn after_timeout(failures: u32, resets: u64) -> (u32, u64) {
    if failures + 1 >= FAILURE_THRESHOLD {
        (0, if resets < u64::MAX { (resets + 1) as u64 } else { resets })
    } else {
        ((failures + 1) as u32, resets)
    }
}

pub struct TelemetryLoop {
    /// Cadence the tick timer currently runs at.
    pub current_rate_ms: u64,
    pub consecutive_failures: u32,
    /// Number of collector rebuilds so far.
    pub collector_resets: u64,
    pub ticks: u64,
    /// The last published snapshot.
    pub latest: TelemetrySnapshot,
}

impl TelemetryLoop {
    pub open spec fn wf(&self) -> bool {
        &&& self.latest.wf()
        &&& self.consecutive_failures < FAILURE_THRESHOLD
        &&& self.current_rate_ms >= MIN_RATE_MS
    }

    /// The snapshot a tick with `outcome` publishes.
    pub open spec fn publishes(&self, outcome: &CollectOutcome) -> SnapshotView {
        match outcome {
            CollectOutcome::Collected(s) => s@,
            CollectOutcome::TimedOut => self.latest@,
        }
    }

    pub fn new(initial: TelemetrySnapshot, configured_rate_ms: u64) -> (r: TelemetryLoop)
        requires
            initial.wf(),
        ensures
            r.wf(),
            r.latest@ == initial@,
            r.current_rate_ms == if configured_rate_ms < MIN_RATE_MS {
                MIN_RATE_MS
            } else {
                configured_rate_ms
            },
            r.consecutive_failures == 0,
            r.collector_resets == 0,
            r.ticks == 0,
    {
        let rate = if configured_rate_ms < MIN_RATE_MS {
            MIN_RATE_MS
        } else {
            configured_rate_ms
        };
        TelemetryLoop {
            current_rate_ms: rate,
            consecutive_failures: 0,
            collector_resets: 0,
            ticks: 0,
            latest: initial,
        }
    }

    /// Read the configured rate at the top of an iteration: returns the new
    /// cadence when the timer must be rebuilt, `None` when it stays.
    pub fn reconfigure(&mut self, configured_rate_ms: u64) -> (r: Option<u64>)
        requires
            old(self).wf(),
        ensures
            final(self).wf(),
            ({
                let rate = if configured_rate_ms < MIN_RATE_MS {
                    MIN_RATE_MS
                } else {
                    configured_rate_ms
                };
                &&& final(self).current_rate_ms == rate
                &&& r == if rate != old(self).current_rate_ms {
                    Some(rate)
                } else {
                    None::<u64>
                }
            }),
            final(self).consecutive_failures == old(self).consecutive_failures,
            final(self).collector_resets == old(self).collector_resets,
            final(self).ticks == old(self).ticks,
            final(self).latest@ == old(self).latest@,
    {
        let rate = if configured_rate_ms < MIN_RATE_MS {
            MIN_RATE_MS
        } else {
            configured_rate_ms
        };
        if rate != self.current_rate_ms {
            self.current_rate_ms = rate;
            Some(rate)
        } else {
            None
        }
    }

    /// Decide the end of a tick. A snapshot collected in time is published
    /// and clears the failure count. A timeout republishes the previous
    /// snapshot with a warning; the third consecutive one also rebuilds the
    /// collector and clears the count.
    pub fn on_collect(&mut self, outcome: CollectOutcome) -> (r: TickDecision)
        requires
            old(self).wf(),
            match outcome {
                CollectOutcome::Collected(s) => s.wf(),
                CollectOutcome::TimedOut => true,
            },
        ensures
            final(self).wf(),
            r.publish@ == old(self).publishes(&outcome),
            final(self).latest@ == r.publish@,
            r.publish.wf(),
            final(self).current_rate_ms == old(self).current_rate_ms,
            final(self).ticks == if old(self).ticks < u64::MAX {
                (old(self).ticks + 1) as u64
            } else {
                old(self).ticks
            },
            r.housekeeping == (final(self).ticks % HOUSEKEEPING_EVERY == 0),
            match outcome {
                CollectOutcome::Collected(_) => {
                    &&& final(self).consecutive_failures == 0
                    &&& final(self).collector_resets == old(self).collector_resets
                    &&& r.warning.is_none()
                    &&& !r.rebuild_collector
                    &&& r.recovery.is_none()
                },
                CollectOutcome::TimedOut => {
                    &&& (final(self).consecutive_failures, final(self).collector_resets)
                        == after_timeout(old(self).consecutive_failures, old(self).collector_resets)
                    &&& r.warning.is_some()
                    &&& r.rebuild_collector == (old(self).consecutive_failures + 1
                        >= FAILURE_THRESHOLD)
                    &&& r.recovery.is_some() == r.rebuild_collector
                },
            },
    {
        if self.ticks < u64::MAX {
            self.ticks = self.ticks + 1;
        }
        let housekeeping = self.ticks % HOUSEKEEPING_EVERY == 0;
        match outcome {
            CollectOutcome::Collected(s) => {
                self.consecutive_failures = 0;
                let publish = s.clone();
                self.latest = s;
                TickDecision {
                    publish,
                    warning: None,
                    rebuild_collector: false,
                    recovery: None,
                    housekeeping,
                }
            },
            CollectOutcome::TimedOut => {
                let warning = Some(
                    WarningEvent {
                        message: String::from_str("telemetry collection timed out"),
                        source: String::from_str("telemetry"),
                    },
                );
                let publish = self.latest.clone();
                if self.consecutive_failures + 1 >= FAILURE_THRESHOLD {
                    self.consecutive_failures = 0;
                    self.collector_resets = if self.collector_resets < u64::MAX {
                        self.collector_resets + 1
                    } else {
                        self.collector_resets
                    };
                    TickDecision {
                        publish,
                        warning,
                        rebuild_collector: true,
                        recovery: Some(
                            WarningEvent {
                                message: String::from_str(
                                    "collector rebuilt after repeated timeouts",
                                ),
                                source: String::from_str("telemetry"),
                            },
                        ),
                        housekeeping,
                    }
                } else {
                    self.consecutive_failures = self.consecutive_failures + 1;
                    TickDecision {
                        publish,
                        warning,
                        rebuild_collector: false,
                        recovery: None,
                        housekeeping,
                    }
                }
            },
        }
    }
}

/// Whole percent, rounded half up, of a basis-point value.
pub open spec fn whole_percent(bp: int) -> int {
    (bp + 50) / 100
}

/// Tenths of a MiB per second, rounded half up.
pub open spec fn tenths_mib(bytes_per_sec: int) -> int {
    (bytes_per_sec * 10 + 524288) / 1048576
}

/// The compact headline for display surfaces:
/// `PulseCore | CPU <c>% | RAM <m>% | Down <d.d> MB/s`.
pub open spec fn headline(cpu_bp: int, ram_bp: int, down_bytes_per_sec: int) -> Seq<char> {
    let t = tenths_mib(down_bytes_per_sec);
    "PulseCore | CPU "@ + decimal(whole_percent(cpu_bp) as nat) + "% | RAM "@ + decimal(
        whole_percent(ram_bp) as nat,
    ) + "% | Down "@ + decimal((t / 10) as nat) + "."@ + decimal((t % 10) as nat) + " MB/s"@
}

pub fn summary_title(s: &TelemetrySnapshot) -> (r: String)
    ensures
        r@ == headline(
            s.cpu.usage_bp as int,
            s.memory.usage_bp as int,
            s.network.download_bytes_per_sec as int,
        ),
{
    let cpu = ((s.cpu.usage_bp as u128 + 50) / 100) as u64;
    let ram = ((s.memory.usage_bp as u128 + 50) / 100) as u64;
    let t = (s.network.download_bytes_per_sec as u128 * 10 + 524288) / 1048576;
    assert(t <= u64::MAX);
    let t = t as u64;
    let mut out = String::from_str("PulseCore | CPU ");
    push_decimal(&mut out, cpu);
    out.append("% | RAM ");
    push_decimal(&mut out, ram);
    out.append("% | Down ");
    push_decimal(&mut out, t / 10);
    out.append(".");
    push_decimal(&mut out, t % 10);
    out.append(" MB/s");
    out
}

/// Three consecutive timeouts from a clean state rebuild the collector
/// exactly once and bring the failure counter back to 0; one or two do not
/// rebuild it.
pub proof fn lemma_self_heal_after_three_timeouts(resets: u64)
    requires
        resets < u64::MAX,
    ensures
        after_timeout(0, resets) == (1u32, resets),
        after_timeout(1, resets) == (2u32, resets),
        after_timeout(2, resets) == (0u32, (resets + 1) as u64),
{
}

/// A tick whose collection timed out publishes exactly the snapshot that
/// the previous tick published.
pub proof fn lemma_timeout_republishes(l: TelemetryLoop)
    ensures
        l.publishes(&CollectOutcome::TimedOut) == l.latest@,
{
}

} // verus!
