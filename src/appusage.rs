//! Resource usage of the application's own process subtree.
use vstd::prelude::*;
use crate::cache::{elapsed_ms, elapsed_ms_of};
use crate::ema::Ema;
use crate::measure::{clamp_bp, counter_delta, counter_delta_of, sat_add, BYTES_PER_MIB, FULL_BP};
use crate::proctree::{contains_pid, in_subtree, process_subtree, ProcessRow};

verus! {

/// After the tracker starts, CPU load reads 0 for this long.
pub const STARTUP_GRACE_MS: u64 = 2000;

/// CPU time is differenced over windows at least this long.
pub const MIN_CPU_WINDOW_MS: u64 = 800;

/// A 64-bit count of 100 ns ticks from its high and low 32-bit halves.
pub open spec fn ticks_of(high: u32, low: u32) -> int {
    high as int * 0x1_0000_0000 + low as int
}

/// CPU time of a process in 100 ns ticks: kernel plus user time, each given
/// as high and low halves, the sum saturated at `u64::MAX`.
pub fn process_cpu_ticks(kernel_high: u32, kernel_low: u32, user_high: u32, user_low: u32) -> (r: u64)
    ensures
        r as int == sat_add(ticks_of(kernel_high, kernel_low), ticks_of(user_high, user_low)),
{
    let k = (kernel_high as u64) * 0x1_0000_0000 + kernel_low as u64;
    let u = (user_high as u64) * 0x1_0000_0000 + user_low as u64;
    k.saturating_add(u)
}

/// Cumulative CPU time of one process at one sample.
#[derive(Debug, Clone, Copy, PartialEq, Eq, Structural)]
pub struct CpuTime {
    pub pid: u32,
    pub cpu_time_ms: u64,
}

/// Load of the subtree in basis points of the whole machine, and its memory in MiB.
#[derive(Debug, Clone, Copy, PartialEq, Eq, Structural)]
pub struct AppUsage {
    pub cpu_bp: Option<u64>,
    pub memory_mb: Option<u64>,
}

/// The pids of `root`'s subtree in `rows`.
pub open spec fn subtree_set(rows: Seq<ProcessRow>, root: u32) -> Set<u32> {
    Set::new(|x: u32| in_subtree(rows, root, x))
}

/// Memory of the rows whose pid is in `tree`, summed with saturation.
pub open spec fn subtree_memory(rows: Seq<ProcessRow>, tree: Set<u32>) -> int
    decreases rows.len(),
{
    if rows.len() == 0 {
        0
    } else {
        let rest = subtree_memory(rows.drop_last(), tree);
        if tree.contains(rows.last().pid) {
            sat_add(rest, rows.last().memory_bytes as int)
        } else {
            rest
        }
    }
}

/// CPU times of the rows whose pid is in `tree`, in table order.
pub open spec fn subtree_times(rows: Seq<ProcessRow>, tree: Set<u32>) -> Seq<CpuTime>
    decreases rows.len(),
{
    if rows.len() == 0 {
        Seq::empty()
    } else {
        let rest = subtree_times(rows.drop_last(), tree);
        let r = rows.last();
        if tree.contains(r.pid) {
            rest.push(CpuTime { pid: r.pid, cpu_time_ms: r.cpu_time_ms })
        } else {
            rest
        }
    }
}

/// The CPU time recorded for `pid` (the latest entry for it).
pub open spec fn lookup_time(times: Seq<CpuTime>, pid: u32) -> Option<u64>
    decreases times.len(),
{
    if times.len() == 0 {
        None
    } else if times.last().pid == pid {
        Some(times.last().cpu_time_ms)
    } else {
        lookup_time(times.drop_last(), pid)
    }
}

/// CPU time spent since `prev` by the processes of `cur` that `prev` knew.
pub open spec fn cpu_time_delta(prev: Seq<CpuTime>, cur: Seq<CpuTime>) -> int
    decreases cur.len(),
{
    if cur.len() == 0 {
        0
    } else {
        let rest = cpu_time_delta(prev, cur.drop_last());
        match lookup_time(prev, cur.last().pid) {
            Some(t) => sat_add(rest, counter_delta(t as int, cur.last().cpu_time_ms as int)),
            None => rest,
        }
    }
}

/// `delta_ms` of CPU time over `elapsed_ms` on `cores` logical cores, in
/// basis points of the whole machine, clamped to 100%.
pub open spec fn load_bp(delta_ms: int, elapsed_ms: int, cores: int) -> int {
    let c = if cores < 1 { 1 } else { cores };
    clamp_bp(delta_ms * (FULL_BP as int) / (elapsed_ms * c))
}

fn subtree_memory_of(rows: &Vec<ProcessRow>, tree: &Vec<u32>, Ghost(set): Ghost<Set<u32>>) -> (r: u64)
    requires
        forall|x: u32| tree@.contains(x) <==> set.contains(x),
    ensures
        r as int == subtree_memory(rows@, set),
{
    let mut sum: u64 = 0;
    let mut i: usize = 0;
    while i < rows.len()
        invariant
            0 <= i <= rows@.len(),
            forall|x: u32| tree@.contains(x) <==> set.contains(x),
            sum as int == subtree_memory(rows@.subrange(0, i as int), set),
        decreases rows@.len() - i,
    {
        proof {
            let pre = rows@.subrange(0, i + 1);
            assert(pre.drop_last() =~= rows@.subrange(0, i as int));
        }
        if contains_pid(tree, rows[i].pid) {
            sum = sum.saturating_add(rows[i].memory_bytes);
        }
        i += 1;
    }
    assert(rows@.subrange(0, rows@.len() as int) =~= rows@);
    sum
}

fn subtree_times_of(rows: &Vec<ProcessRow>, tree: &Vec<u32>, Ghost(set): Ghost<Set<u32>>) -> (r: Vec<CpuTime>)
    requires
        forall|x: u32| tree@.contains(x) <==> set.contains(x),
    ensures
        r@ == subtree_times(rows@, set),
{
    let mut out: Vec<CpuTime> = Vec::new();
    let mut i: usize = 0;
    while i < rows.len()
        invariant
            0 <= i <= rows@.len(),
            forall|x: u32| tree@.contains(x) <==> set.contains(x),
            out@ == subtree_times(rows@.subrange(0, i as int), set),
        decreases rows@.len() - i,
    {
        proof {
            let pre = rows@.subrange(0, i + 1);
            assert(pre.drop_last() =~= rows@.subrange(0, i as int));
        }
        if contains_pid(tree, rows[i].pid) {
            out.push(CpuTime { pid: rows[i].pid, cpu_time_ms: rows[i].cpu_time_ms });
        }
        i += 1;
    }
    assert(rows@.subrange(0, rows@.len() as int) =~= rows@);
    out
}

pub fn lookup_time_of(times: &Vec<CpuTime>, pid: u32) -> (r: Option<u64>)
    ensures
        r == lookup_time(times@, pid),
{
    let mut found: Option<u64> = None;
    let mut i: usize = 0;
    while i < times.len()
        invariant
            0 <= i <= times@.len(),
            found == lookup_time(times@.subrange(0, i as int), pid),
        decreases times@.len() - i,
    {
        proof {
            let pre = times@.subrange(0, i + 1);
            assert(pre.drop_last() =~= times@.subrange(0, i as int));
        }
        if times[i].pid == pid {
            found = Some(times[i].cpu_time_ms);
        }
        i += 1;
    }
    assert(times@.subrange(0, times@.len() as int) =~= times@);
    found
}

pub fn cpu_time_delta_of(prev: &Vec<CpuTime>, cur: &Vec<CpuTime>) -> (r: u64)
    ensures
        r as int == cpu_time_delta(prev@, cur@),
{
    let mut sum: u64 = 0;
    let mut i: usize = 0;
    while i < cur.len()
        invariant
            0 <= i <= cur@.len(),
            sum as int == cpu_time_delta(prev@, cur@.subrange(0, i as int)),
        decreases cur@.len() - i,
    {
        proof {
            let pre = cur@.subrange(0, i + 1);
            assert(pre.drop_last() =~= cur@.subrange(0, i as int));
        }
        match lookup_time_of(prev, cur[i].pid) {
            Some(t) => {
                sum = sum.saturating_add(counter_delta_of(t, cur[i].cpu_time_ms));
            },
            None => {},
        }
        i += 1;
    }
    assert(cur@.subrange(0, cur@.len() as int) =~= cur@);
    sum
}

pub fn load_bp_of(delta_ms: u64, elapsed_ms: u64, cores: u64) -> (r: u64)
    requires
        elapsed_ms > 0,
    ensures
        r as int == load_bp(delta_ms as int, elapsed_ms as int, cores as int),
        r <= FULL_BP,
{
    let c: u64 = if cores < 1 { 1 } else { cores };
    assert((elapsed_ms as int) * (c as int) > 0) by (nonlinear_arith)
        requires elapsed_ms > 0, c >= 1;
    assert((elapsed_ms as int) * (c as int) <= (u64::MAX as int) * (u64::MAX as int))
        by (nonlinear_arith)
        requires elapsed_ms <= u64::MAX, c <= u64::MAX;
    let num = (delta_ms as u128) * 10000;
    let den = (elapsed_ms as u128) * (c as u128);
    let q = num / den;
    if q > 10000 {
        10000
    } else {
        q as u64
    }
}

/// Tracks the application's subtree between samples.
pub struct AppUsageTracker {
    pub root_pid: u32,
    pub started_ms: u64,
    pub last_sample_ms: Option<u64>,
    pub prev_times: Vec<CpuTime>,
    pub ema: Ema,
    pub cpu_cache: Option<u64>,
}

pub open spec fn opt_le_full(v: Option<u64>) -> bool {
    match v {
        Some(x) => x <= FULL_BP,
        None => true,
    }
}

impl AppUsageTracker {
    pub open spec fn wf(&self) -> bool {
        &&& self.ema.wf()
        &&& self.ema.weight_num == 1
        &&& self.ema.weight_den == 4
        &&& opt_le_full(self.ema.value)
        &&& opt_le_full(self.cpu_cache)
    }

    pub open spec fn in_grace(&self, now: u64) -> bool {
        elapsed_ms(self.started_ms, now) < STARTUP_GRACE_MS
    }

    pub fn new(root_pid: u32, now: u64) -> (r: AppUsageTracker)
        ensures
            r.wf(),
            r.root_pid == root_pid,
            r.started_ms == now,
            r.last_sample_ms.is_none(),
            r.ema.value.is_none(),
            r.cpu_cache.is_none(),
    {
        AppUsageTracker {
            root_pid,
            started_ms: now,
            last_sample_ms: None,
            prev_times: Vec::new(),
            ema: Ema::new(1, 4),
            cpu_cache: None,
        }
    }

    /// The CPU load that `sample(rows, logical_cpus, now)` reports from this state.
    pub open spec fn sample_cpu(&self, rows: Seq<ProcessRow>, logical_cpus: u64, now: u64) -> Option<u64> {
        let cur = subtree_times(rows, subtree_set(rows, self.root_pid));
        match self.last_sample_ms {
            None => Some(0u64),
            Some(t) => if self.in_grace(now) {
                Some(0u64)
            } else if elapsed_ms(t, now) >= MIN_CPU_WINDOW_MS {
                Some(
                    self.ema.next_value(
                        load_bp(cpu_time_delta(self.prev_times@, cur), elapsed_ms(t, now), logical_cpus as int),
                    ) as u64,
                )
            } else {
                self.cpu_cache
            },
        }
    }

    /// Take one sample of the process table at `now`. Memory is the sum over
    /// the subtree; CPU load is the smoothed CPU-time delta over a window of
    /// at least `MIN_CPU_WINDOW_MS`, 0 during the startup grace period and
    /// before the first window, and the last computed load inside a window.
    pub fn sample(&mut self, rows: &Vec<ProcessRow>, logical_cpus: u64, now: u64) -> (r: AppUsage)
        requires
            old(self).wf(),
        ensures
            final(self).wf(),
            final(self).root_pid == old(self).root_pid,
            final(self).started_ms == old(self).started_ms,
            ({
                let tree = subtree_set(rows@, old(self).root_pid);
                let cur = subtree_times(rows@, tree);
                &&& r.memory_mb == Some((subtree_memory(rows@, tree) / BYTES_PER_MIB as int) as u64)
                &&& r.cpu_bp == old(self).sample_cpu(rows@, logical_cpus, now)
                &&& match old(self).last_sample_ms {
                    None => {
                        &&& r.cpu_bp == Some(0u64)
                        &&& final(self).last_sample_ms == Some(now)
                        &&& final(self).prev_times@ == cur
                        &&& final(self).ema == old(self).ema
                        &&& final(self).cpu_cache == old(self).cpu_cache
                    },
                    Some(t) => if elapsed_ms(t, now) >= MIN_CPU_WINDOW_MS {
                        let raw = load_bp(
                            cpu_time_delta(old(self).prev_times@, cur),
                            elapsed_ms(t, now),
                            logical_cpus as int,
                        );
                        let smoothed = old(self).ema.next_value(raw);
                        &&& final(self).ema.value == Some(smoothed as u64)
                        &&& final(self).cpu_cache == Some(smoothed as u64)
                        &&& final(self).last_sample_ms == Some(now)
                        &&& final(self).prev_times@ == cur
                        &&& r.cpu_bp == if old(self).in_grace(now) {
                            Some(0u64)
                        } else {
                            Some(smoothed as u64)
                        }
                    } else {
                        &&& final(self).last_sample_ms == old(self).last_sample_ms
                        &&& final(self).prev_times@ == old(self).prev_times@
                        &&& final(self).ema == old(self).ema
                        &&& final(self).cpu_cache == old(self).cpu_cache
                        &&& r.cpu_bp == if old(self).in_grace(now) {
                            Some(0u64)
                        } else {
                            old(self).cpu_cache
                        }
                    },
                }
            }),
            opt_le_full(r.cpu_bp),
    {
        let tree = process_subtree(rows, self.root_pid);
        let ghost set = subtree_set(rows@, self.root_pid);
        let mem = subtree_memory_of(rows, &tree, Ghost(set));
        let cur = subtree_times_of(rows, &tree, Ghost(set));
        let memory_mb = Some(mem / BYTES_PER_MIB);
        let in_grace = elapsed_ms_of(self.started_ms, now) < STARTUP_GRACE_MS;
        let cpu_bp = match self.last_sample_ms {
            None => {
                self.prev_times = cur;
                self.last_sample_ms = Some(now);
                Some(0)
            },
            Some(t) => {
                let el = elapsed_ms_of(t, now);
                if el >= MIN_CPU_WINDOW_MS {
                    let delta = cpu_time_delta_of(&self.prev_times, &cur);
                    let raw = load_bp_of(delta, el, logical_cpus);
                    let smoothed = self.ema.update(raw);
                    self.cpu_cache = Some(smoothed);
                    self.prev_times = cur;
                    self.last_sample_ms = Some(now);
                    if in_grace {
                        Some(0)
                    } else {
                        Some(smoothed)
                    }
                } else if in_grace {
                    Some(0)
                } else {
                    self.cpu_cache
                }
            },
        };
        AppUsage { cpu_bp, memory_mb }
    }
}

} // verus!
