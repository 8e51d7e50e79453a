//! The collector: turns one round of raw readings into a snapshot, keeping
//! each expensive source on its own time-to-live.
use vstd::prelude::*;
use crate::appusage::{subtree_memory, subtree_set, AppUsage, AppUsageTracker};
use crate::cache::{elapsed_ms, elapsed_ms_of, CacheEntry};
use crate::ema::Ema;
use crate::measure::{
    bytes_to_mib, clamp_bp, clamp_bp_of, counter_delta, counter_delta_of,
    per_second, per_second_of, ratio_bp, ratio_bp_of, sat_add, BYTES_PER_MIB, FULL_BP,
};
use crate::proctree::ProcessRow;
use crate::sensors::{hottest, hottest_cpu_sensor, reconcile_gpu, reconciled, GpuCounters, SensorReading, VideoMemory};
use crate::snapshot::{
    disks_wf, opt_bp_ok, CpuMetrics, DiskMetrics, GpuMetrics, MemoryMetrics, NetworkMetrics, TelemetrySnapshot,
};

verus! {

/// Time-to-live of the CPU temperature scan.
pub const TEMPERATURE_TTL_MS: u64 = 1000;

/// Time-to-live of the disk list.
pub const DISK_TTL_MS: u64 = 500;

/// Floor of the GPU query interval.
pub const GPU_MIN_INTERVAL_MS: u64 = 400;

/// Floor of the application-usage sampling interval.
pub const APP_USAGE_MIN_INTERVAL_MS: u64 = 300;

/// Floor of the configured refresh rate.
pub const MIN_REFRESH_MS: u64 = 10;

/// Cumulative byte counters of one network interface.
#[derive(Debug, Clone, Copy, PartialEq, Eq, Structural)]
pub struct InterfaceCounters {
    pub received: u64,
    pub transmitted: u64,
}

/// One mounted volume as the disk probe reports it; `read_bytes` and
/// `written_bytes` count the bytes moved since the probe's previous refresh.
#[derive(Debug)]
pub struct DiskSample {
    pub mount_point: String,
    pub name: String,
    pub total_bytes: u64,
    pub available_bytes: u64,
    pub read_bytes: u64,
    pub written_bytes: u64,
}

/// Everything the probes read for one collection pass. The expensive
/// sources (`sensors`, `disks`, `gpu_counters`, `processes`) are `None`
/// when they were not probed or the probe failed.
#[derive(Debug)]
pub struct Readings {
    /// Monotonic clock, milliseconds.
    pub now_ms: u64,
    /// Wall clock, milliseconds since the Unix epoch.
    pub timestamp_ms: i64,
    /// Load from a higher-fidelity counter source, if the platform has one.
    pub cpu_counter_bp: Option<u64>,
    /// Instantaneous load of each logical core.
    pub core_usage_bp: Vec<u64>,
    /// Clock from a counter source, if the platform has one.
    pub cpu_counter_mhz: Option<u64>,
    /// Clock of each logical core.
    pub core_frequency_mhz: Vec<u64>,
    pub memory_used_bytes: u64,
    pub memory_total_bytes: u64,
    pub interfaces: Vec<InterfaceCounters>,
    pub sensors: Option<Vec<SensorReading>>,
    pub disks: Option<Vec<DiskSample>>,
    pub gpu_counters: Option<GpuCounters>,
    pub gpu_memory: Option<VideoMemory>,
    pub processes: Option<Vec<ProcessRow>>,
    pub logical_cpus: u64,
}

/// Which expensive sources a pass at a given time should probe.
#[derive(Debug, Clone, Copy, PartialEq, Eq, Structural)]
pub struct ProbePlan {
    pub sensors: bool,
    pub disks: bool,
    pub gpu: bool,
    pub processes: bool,
}

/// Sum of `s`, saturated at `u64::MAX`.
pub open spec fn sat_sum(s: Seq<u64>) -> int
    decreases s.len(),
{
    if s.len() == 0 {
        0
    } else {
        sat_add(sat_sum(s.drop_last()), s.last() as int)
    }
}

/// Exact sum of `s`.
pub open spec fn sum(s: Seq<u64>) -> int
    decreases s.len(),
{
    if s.len() == 0 {
        0
    } else {
        sum(s.drop_last()) + s.last() as int
    }
}

/// Mean of `s`, rounded down; `None` for no values.
pub open spec fn mean(s: Seq<u64>) -> Option<u64> {
    if s.len() == 0 {
        None
    } else {
        Some((sum(s) / s.len() as int) as u64)
    }
}

pub open spec fn received_total(ifs: Seq<InterfaceCounters>) -> int {
    sat_sum(ifs.map_values(|c: InterfaceCounters| c.received))
}

pub open spec fn transmitted_total(ifs: Seq<InterfaceCounters>) -> int {
    sat_sum(ifs.map_values(|c: InterfaceCounters| c.transmitted))
}

/// The unsmoothed CPU load of a pass: the counter source when present,
/// else the mean of the per-core loads; clamped to 100%.
pub open spec fn raw_cpu_bp(rd: &Readings) -> int {
    match rd.cpu_counter_bp {
        Some(v) => clamp_bp(v as int),
        None => match mean(rd.core_usage_bp@) {
            Some(m) => clamp_bp(m as int),
            None => 0,
        },
    }
}

pub open spec fn cpu_frequency(rd: &Readings) -> Option<u64> {
    match rd.cpu_counter_mhz {
        Some(f) => Some(f),
        None => mean(rd.core_frequency_mhz@),
    }
}

/// Memory in MiB, used capped at total.
pub open spec fn memory_metrics(used_bytes: u64, total_bytes: u64) -> MemoryMetrics {
    let used = if used_bytes > total_bytes { total_bytes } else { used_bytes };
    let used_mb = used as int / BYTES_PER_MIB as int;
    let total_mb = total_bytes as int / BYTES_PER_MIB as int;
    MemoryMetrics {
        used_mb: used_mb as u64,
        total_mb: total_mb as u64,
        usage_bp: ratio_bp(used_mb, total_mb) as u64,
    }
}

/// One volume: used = total − available (never below 0), and the bytes
/// moved as rates over the `elapsed` milliseconds since the previous disk refresh.
pub open spec fn disk_metrics(d: DiskSample, elapsed: int) -> DiskMetrics {
    let total_mb = d.total_bytes as int / BYTES_PER_MIB as int;
    let used_mb = counter_delta(d.available_bytes as int, d.total_bytes as int) / BYTES_PER_MIB as int;
    DiskMetrics {
        name: d.mount_point,
        label: d.name,
        used_mb: used_mb as u64,
        total_mb: total_mb as u64,
        usage_bp: ratio_bp(used_mb, total_mb) as u64,
        read_bytes_per_sec: Some(per_second(d.read_bytes as int, elapsed) as u64),
        write_bytes_per_sec: Some(per_second(d.written_bytes as int, elapsed) as u64),
    }
}

pub open spec fn disk_list(ds: Seq<DiskSample>, elapsed: int) -> Seq<DiskMetrics> {
    ds.map_values(|d: DiskSample| disk_metrics(d, elapsed))
}

/// The refresh rate with its floor applied.
pub open spec fn base_interval(refresh_rate_ms: u64) -> u64 {
    if refresh_rate_ms < MIN_REFRESH_MS { MIN_REFRESH_MS } else { refresh_rate_ms }
}

pub open spec fn gpu_interval(refresh_rate_ms: u64) -> u64 {
    let b = base_interval(refresh_rate_ms);
    if b < GPU_MIN_INTERVAL_MS { GPU_MIN_INTERVAL_MS } else { b }
}

pub open spec fn app_interval(refresh_rate_ms: u64) -> u64 {
    let b = base_interval(refresh_rate_ms);
    if b < APP_USAGE_MIN_INTERVAL_MS { APP_USAGE_MIN_INTERVAL_MS } else { b }
}

fn max_u64(a: u64, b: u64) -> (r: u64)
    ensures
        r == if a < b { b } else { a },
{
    if a < b { b } else { a }
}

fn sat_sum_received(ifs: &Vec<InterfaceCounters>) -> (r: (u64, u64))
    ensures
        r.0 as int == received_total(ifs@),
        r.1 as int == transmitted_total(ifs@),
{
    let ghost rx_seq = ifs@.map_values(|c: InterfaceCounters| c.received);
    let ghost tx_seq = ifs@.map_values(|c: InterfaceCounters| c.transmitted);
    let mut rx: u64 = 0;
    let mut tx: u64 = 0;
    let mut i: usize = 0;
    while i < ifs.len()
        invariant
            0 <= i <= ifs@.len(),
            rx_seq == ifs@.map_values(|c: InterfaceCounters| c.received),
            tx_seq == ifs@.map_values(|c: InterfaceCounters| c.transmitted),
            rx as int == sat_sum(rx_seq.subrange(0, i as int)),
            tx as int == sat_sum(tx_seq.subrange(0, i as int)),
        decreases ifs@.len() - i,
    {
        proof {
            assert(rx_seq.subrange(0, i + 1).drop_last() =~= rx_seq.subrange(0, i as int));
            assert(tx_seq.subrange(0, i + 1).drop_last() =~= tx_seq.subrange(0, i as int));
        }
        rx = rx.saturating_add(ifs[i].received);
        tx = tx.saturating_add(ifs[i].transmitted);
        i += 1;
    }
    assert(rx_seq.subrange(0, ifs@.len() as int) =~= rx_seq);
    assert(tx_seq.subrange(0, ifs@.len() as int) =~= tx_seq);
    (rx, tx)
}

/// The mean of `v`, rounded down; `None` when `v` is empty.
pub fn mean_of(v: &Vec<u64>) -> (r: Option<u64>)
    ensures
        r == mean(v@),
{
    if v.len() == 0 {
        return None;
    }
    let mut total: u128 = 0;
    let mut i: usize = 0;
    while i < v.len()
        invariant
            0 <= i <= v@.len(),
            total as int == sum(v@.subrange(0, i as int)),
            total <= i * (u64::MAX as int),
        decreases v@.len() - i,
    {
        proof {
            assert(v@.subrange(0, i + 1).drop_last() =~= v@.subrange(0, i as int));
            assert((i as int) * (u64::MAX as int) <= (usize::MAX as int) * (u64::MAX as int))
                by (nonlinear_arith)
                requires i <= usize::MAX;
        }
        total = total + v[i] as u128;
        i += 1;
    }
    assert(v@.subrange(0, v@.len() as int) =~= v@);
    let n = v.len() as u128;
    assert(total as int / n as int <= u64::MAX) by (nonlinear_arith)
        requires total <= n * (u64::MAX as int), n >= 1;
    Some((total / n) as u64)
}

fn memory_metrics_of(used_bytes: u64, total_bytes: u64) -> (r: MemoryMetrics)
    ensures
        r == memory_metrics(used_bytes, total_bytes),
        r.wf(),
{
    let used = if used_bytes > total_bytes { total_bytes } else { used_bytes };
    let used_mb = bytes_to_mib(used);
    let total_mb = bytes_to_mib(total_bytes);
    assert(used_mb <= total_mb) by (nonlinear_arith)
        requires used <= total_bytes, used_mb == used as int / 1048576, total_mb == total_bytes as int / 1048576;
    MemoryMetrics { used_mb, total_mb, usage_bp: ratio_bp_of(used_mb, total_mb) }
}

fn disk_metrics_of(d: &DiskSample, elapsed: u64) -> (r: DiskMetrics)
    ensures
        r == disk_metrics(*d, elapsed as int),
        r.wf(),
{
    let total_mb = bytes_to_mib(d.total_bytes);
    let used_bytes = counter_delta_of(d.available_bytes, d.total_bytes);
    let used_mb = bytes_to_mib(used_bytes);
    assert(used_mb <= total_mb) by (nonlinear_arith)
        requires used_bytes <= d.total_bytes, used_mb == used_bytes as int / 1048576,
            total_mb == d.total_bytes as int / 1048576;
    DiskMetrics {
        name: d.mount_point.clone(),
        label: d.name.clone(),
        used_mb,
        total_mb,
        usage_bp: ratio_bp_of(used_mb, total_mb),
        read_bytes_per_sec: Some(per_second_of(d.read_bytes, elapsed)),
        write_bytes_per_sec: Some(per_second_of(d.written_bytes, elapsed)),
    }
}

fn disk_list_of(ds: &Vec<DiskSample>, elapsed: u64) -> (r: Vec<DiskMetrics>)
    ensures
        r@ == disk_list(ds@, elapsed as int),
        disks_wf(r@),
{
    let mut out: Vec<DiskMetrics> = Vec::new();
    let mut i: usize = 0;
    while i < ds.len()
        invariant
            0 <= i <= ds@.len(),
            out@ == disk_list(ds@.subrange(0, i as int), elapsed as int),
            disks_wf(out@),
        decreases ds@.len() - i,
    {
        let m = disk_metrics_of(&ds[i], elapsed);
        out.push(m);
        i += 1;
        assert(out@ =~= disk_list(ds@.subrange(0, i as int), elapsed as int));
    }
    assert(ds@.subrange(0, ds@.len() as int) =~= ds@);
    out
}

fn copy_disks(v: &Vec<DiskMetrics>) -> (r: Vec<DiskMetrics>)
    ensures
        r@ == v@,
{
    let r = v.clone();
    assert(r@ =~= v@);
    r
}

/// Long-lived collector state: the CPU smoothing filter, the previous
/// network counters and tick, one cache entry per expensive source, and the
/// application-usage tracker.
pub struct SystemCollector {
    pub cpu_ema: Ema,
    pub prev_rx: u64,
    pub prev_tx: u64,
    pub prev_tick_ms: u64,
    pub created_ms: u64,
    pub temperature: CacheEntry<Option<i64>>,
    pub disks: CacheEntry<Vec<DiskMetrics>>,
    pub gpu: CacheEntry<GpuMetrics>,
    pub app: CacheEntry<AppUsage>,
    pub app_tracker: AppUsageTracker,
}

impl SystemCollector {
    pub open spec fn wf(&self) -> bool {
        &&& self.cpu_ema.wf()
        &&& self.cpu_ema.weight_num == 3
        &&& self.cpu_ema.weight_den == 10
        &&& match self.cpu_ema.value {
            Some(v) => v <= FULL_BP,
            None => true,
        }
        &&& self.temperature.ttl_ms == TEMPERATURE_TTL_MS
        &&& self.disks.ttl_ms == DISK_TTL_MS
        &&& disks_wf(self.disks.value@)
        &&& self.gpu.value.wf()
        &&& opt_bp_ok(self.app.value.cpu_bp)
        &&& self.app_tracker.wf()
    }

    /// The application-usage cache must be refilled: stale, or missing a value.
    pub open spec fn app_due(&self, refresh_rate_ms: u64, now: u64) -> bool {
        let entry = CacheEntry { ttl_ms: app_interval(refresh_rate_ms), ..self.app };
        entry.due(now) || self.app.value.cpu_bp.is_none() || self.app.value.memory_mb.is_none()
    }

    pub open spec fn gpu_due(&self, refresh_rate_ms: u64, now: u64) -> bool {
        let entry = CacheEntry { ttl_ms: gpu_interval(refresh_rate_ms), ..self.gpu };
        entry.due(now)
    }

    /// Milliseconds since the previous disk refresh (since creation before the first).
    pub open spec fn disk_elapsed(&self, now: u64) -> int {
        match self.disks.last_refresh_ms {
            Some(t) => elapsed_ms(t, now),
            None => elapsed_ms(self.created_ms, now),
        }
    }

    /// The disk list that a pass with `rd` returns from this state.
    pub open spec fn disks_result(&self, rd: &Readings) -> Seq<DiskMetrics> {
        match rd.disks {
            Some(ds) if self.disks.due(rd.now_ms) => disk_list(ds@, self.disk_elapsed(rd.now_ms)),
            _ => self.disks.value@,
        }
    }

    /// The CPU temperature that a pass with `rd` returns from this state.
    pub open spec fn temperature_result(&self, rd: &Readings) -> Option<i64> {
        match rd.sensors {
            Some(ss) if self.temperature.due(rd.now_ms) => hottest(ss@),
            _ => self.temperature.value,
        }
    }

    /// The GPU metrics that a pass with `rd` returns from this state.
    pub open spec fn gpu_result(&self, rd: &Readings, refresh_rate_ms: u64) -> GpuMetrics {
        match rd.gpu_counters {
            Some(c) if self.gpu_due(refresh_rate_ms, rd.now_ms) => reconciled(c, rd.gpu_memory),
            _ => self.gpu.value,
        }
    }

    /// A fresh collector for the process `root_pid`, created at `now_ms`
    /// with the network counters read then.
    pub fn new(root_pid: u32, now_ms: u64, interfaces: &Vec<InterfaceCounters>) -> (r: SystemCollector)
        ensures
            r.wf(),
            r.prev_rx as int == received_total(interfaces@),
            r.prev_tx as int == transmitted_total(interfaces@),
            r.prev_tick_ms == now_ms,
            r.created_ms == now_ms,
            r.cpu_ema.value.is_none(),
            r.temperature.last_refresh_ms.is_none(),
            r.disks.last_refresh_ms.is_none(),
            r.disks.value@.len() == 0,
            r.gpu.last_refresh_ms.is_none(),
            r.app.last_refresh_ms.is_none(),
            r.app_tracker.root_pid == root_pid,
            r.gpu.value == (GpuMetrics {
                usage_bp: Some(0),
                temperature_mc: None,
                memory_used_mb: None,
                memory_total_mb: None,
                frequency_mhz: None,
            }),
            r.app.value == (AppUsage { cpu_bp: None, memory_mb: None }),
    {
        let (rx, tx) = sat_sum_received(interfaces);
        SystemCollector {
            cpu_ema: Ema::new(3, 10),
            prev_rx: rx,
            prev_tx: tx,
            prev_tick_ms: now_ms,
            created_ms: now_ms,
            temperature: CacheEntry::new(None, TEMPERATURE_TTL_MS),
            disks: CacheEntry::new(Vec::new(), DISK_TTL_MS),
            gpu: CacheEntry::new(
                GpuMetrics {
                    usage_bp: Some(0),
                    temperature_mc: None,
                    memory_used_mb: None,
                    memory_total_mb: None,
                    frequency_mhz: None,
                },
                GPU_MIN_INTERVAL_MS,
            ),
            app: CacheEntry::new(AppUsage { cpu_bp: None, memory_mb: None }, APP_USAGE_MIN_INTERVAL_MS),
            app_tracker: AppUsageTracker::new(root_pid, now_ms),
        }
    }

    /// The expensive sources that a pass at `now_ms` will use fresh readings of.
    pub fn plan(&self, refresh_rate_ms: u64, now_ms: u64) -> (r: ProbePlan)
        ensures
            r.sensors == self.temperature.due(now_ms),
            r.disks == self.disks.due(now_ms),
            r.gpu == self.gpu_due(refresh_rate_ms, now_ms),
            r.processes == self.app_due(refresh_rate_ms, now_ms),
    {
        let base = max_u64(refresh_rate_ms, MIN_REFRESH_MS);
        let gpu_ttl = max_u64(base, GPU_MIN_INTERVAL_MS);
        let app_ttl = max_u64(base, APP_USAGE_MIN_INTERVAL_MS);
        let gpu_due = match self.gpu.last_refresh_ms {
            None => true,
            Some(t) => elapsed_ms_of(t, now_ms) >= gpu_ttl,
        };
        let app_stale = match self.app.last_refresh_ms {
            None => true,
            Some(t) => elapsed_ms_of(t, now_ms) >= app_ttl,
        };
        ProbePlan {
            sensors: self.temperature.is_due(now_ms),
            disks: self.disks.is_due(now_ms),
            gpu: gpu_due,
            processes: app_stale || self.app.value.cpu_bp.is_none() || self.app.value.memory_mb.is_none(),
        }
    }

    /// One collection pass. Never fails: a source that gave nothing leaves
    /// its cached value in place. Cheap sources (CPU load and clock, memory,
    /// network) are used every pass; each expensive source is refreshed only
    /// when it is due and its reading was supplied.
    pub fn collect(&mut self, refresh_rate_ms: u64, rd: &Readings) -> (r: TelemetrySnapshot)
        requires
            old(self).wf(),
        ensures
            final(self).wf(),
            r.wf(),
            r.timestamp_ms == rd.timestamp_ms,
            r.cpu.usage_bp as int == old(self).cpu_ema.next_value(raw_cpu_bp(rd)),
            final(self).cpu_ema.value == Some(r.cpu.usage_bp),
            r.cpu.frequency_mhz == cpu_frequency(rd),
            r.cpu.temperature_mc == old(self).temperature_result(rd),
            r.memory == memory_metrics(rd.memory_used_bytes, rd.memory_total_bytes),
            r.disks@ == old(self).disks_result(rd),
            r.gpu == old(self).gpu_result(rd, refresh_rate_ms),
            r.network.download_bytes_per_sec as int == per_second(
                counter_delta(old(self).prev_rx as int, received_total(rd.interfaces@)),
                elapsed_ms(old(self).prev_tick_ms, rd.now_ms),
            ),
            r.network.upload_bytes_per_sec as int == per_second(
                counter_delta(old(self).prev_tx as int, transmitted_total(rd.interfaces@)),
                elapsed_ms(old(self).prev_tick_ms, rd.now_ms),
            ),
            r.network.latency_ms.is_none(),
            r.power_milliwatts.is_none(),
            r.app_cpu_usage_bp == final(self).app.value.cpu_bp,
            r.app_memory_mb == final(self).app.value.memory_mb,
            (rd.processes.is_none() || !old(self).app_due(refresh_rate_ms, rd.now_ms))
                ==> final(self).app.value == old(self).app.value,
            (rd.processes.is_some() && old(self).app_due(refresh_rate_ms, rd.now_ms)) ==> {
                let rows = rd.processes.unwrap()@;
                let tree = subtree_set(rows, old(self).app_tracker.root_pid);
                &&& final(self).app.last_refresh_ms == Some(rd.now_ms)
                &&& final(self).app.value.memory_mb == Some(
                    (subtree_memory(rows, tree) / BYTES_PER_MIB as int) as u64,
                )
                &&& final(self).app.value.cpu_bp == old(self).app_tracker.sample_cpu(
                    rows,
                    rd.logical_cpus,
                    rd.now_ms,
                )
            },
            final(self).prev_rx as int == received_total(rd.interfaces@),
            final(self).prev_tx as int == transmitted_total(rd.interfaces@),
            final(self).prev_tick_ms == rd.now_ms,
            final(self).created_ms == old(self).created_ms,
            final(self).disks.value@ == r.disks@,
            final(self).disks.last_refresh_ms == if old(self).disks.due(rd.now_ms)
                && rd.disks.is_some() {
                Some(rd.now_ms)
            } else {
                old(self).disks.last_refresh_ms
            },
            final(self).temperature.value == r.cpu.temperature_mc,
            final(self).temperature.last_refresh_ms == if old(self).temperature.due(rd.now_ms)
                && rd.sensors.is_some() {
                Some(rd.now_ms)
            } else {
                old(self).temperature.last_refresh_ms
            },
            final(self).gpu.value == r.gpu,
            final(self).gpu.last_refresh_ms == if old(self).gpu_due(refresh_rate_ms, rd.now_ms) {
                Some(rd.now_ms)
            } else {
                old(self).gpu.last_refresh_ms
            },
    {
        let now = rd.now_ms;

        let raw_cpu = match rd.cpu_counter_bp {
            Some(v) => clamp_bp_of(v),
            None => match mean_of(&rd.core_usage_bp) {
                Some(m) => clamp_bp_of(m),
                None => 0,
            },
        };
        let cpu_usage = self.cpu_ema.update(raw_cpu);
        let frequency = match rd.cpu_counter_mhz {
            Some(f) => Some(f),
            None => mean_of(&rd.core_frequency_mhz),
        };

        if self.temperature.is_due(now) {
            match &rd.sensors {
                Some(ss) => {
                    let t = hottest_cpu_sensor(ss);
                    self.temperature.refresh(t, now);
                },
                None => {},
            }
        }
        let cpu_temp = self.temperature.value;

        let memory = memory_metrics_of(rd.memory_used_bytes, rd.memory_total_bytes);

        if self.disks.is_due(now) {
            match &rd.disks {
                Some(ds) => {
                    let el = match self.disks.last_refresh_ms {
                        Some(t) => elapsed_ms_of(t, now),
                        None => elapsed_ms_of(self.created_ms, now),
                    };
                    let list = disk_list_of(ds, el);
                    self.disks.refresh(list, now);
                },
                None => {},
            }
        }
        let disks = copy_disks(&self.disks.value);

        let (rx, tx) = sat_sum_received(&rd.interfaces);
        let el = elapsed_ms_of(self.prev_tick_ms, now);
        let rx_rate = per_second_of(counter_delta_of(self.prev_rx, rx), el);
        let tx_rate = per_second_of(counter_delta_of(self.prev_tx, tx), el);
        self.prev_rx = rx;
        self.prev_tx = tx;
        self.prev_tick_ms = now;

        let base = max_u64(refresh_rate_ms, MIN_REFRESH_MS);
        let gpu_ttl = max_u64(base, GPU_MIN_INTERVAL_MS);
        let app_ttl = max_u64(base, APP_USAGE_MIN_INTERVAL_MS);

        let ghost gpu_before = self.gpu;
        self.gpu.ttl_ms = gpu_ttl;
        if self.gpu.is_due(now) {
            self.gpu.last_refresh_ms = Some(now);
            match rd.gpu_counters {
                Some(c) => {
                    self.gpu.value = reconcile_gpu(c, rd.gpu_memory);
                },
                None => {},
            }
        }
        let gpu = self.gpu.value;

        let app_incomplete = self.app.value.cpu_bp.is_none() || self.app.value.memory_mb.is_none();
        self.app.ttl_ms = app_ttl;
        if self.app.is_due(now) || app_incomplete {
            match &rd.processes {
                Some(rows) => {
                    let usage = self.app_tracker.sample(rows, rd.logical_cpus, now);
                    self.app.refresh(usage, now);
                },
                None => {},
            }
        }
        let app = self.app.value;

        TelemetrySnapshot {
            timestamp_ms: rd.timestamp_ms,
            cpu: CpuMetrics { usage_bp: cpu_usage, frequency_mhz: frequency, temperature_mc: cpu_temp },
            gpu,
            memory,
            disks,
            network: NetworkMetrics {
                download_bytes_per_sec: rx_rate,
                upload_bytes_per_sec: tx_rate,
                latency_ms: None,
            },
            app_cpu_usage_bp: app.cpu_bp,
            app_memory_mb: app.memory_mb,
            power_milliwatts: None,
        }
    }
}

/// A cumulative counter that went backwards (reset or wrap-around) yields
/// a rate of zero, never a negative or huge one.
pub proof fn lemma_counter_reset_gives_zero_rate(prev: u64, now_total: u64, elapsed: int)
    requires
        now_total < prev,
    ensures
        per_second(counter_delta(prev as int, now_total as int), elapsed) == 0,
{
    let el = if elapsed < 1 { 1 } else { elapsed };
    assert(0int * 1000 / el == 0) by (nonlinear_arith)
        requires el >= 1;
}

/// A network rate is never negative, and is zero whenever the counter went backwards.
pub proof fn lemma_network_rate_nonnegative(prev: u64, now_total: u64, elapsed: int)
    ensures
        per_second(counter_delta(prev as int, now_total as int), elapsed) >= 0,
        now_total < prev ==> per_second(counter_delta(prev as int, now_total as int), elapsed) == 0,
{
    let el = if elapsed < 1 { 1 } else { elapsed };
    let d = counter_delta(prev as int, now_total as int);
    assert(d * 1000 / el >= 0) by (nonlinear_arith)
        requires d >= 0, el >= 1;
    if now_total < prev {
        lemma_counter_reset_gives_zero_rate(prev, now_total, elapsed);
    }
}

/// A pass less than `DISK_TTL_MS` after the disk list was refreshed returns
/// that same list, whatever the probes read: the cache is hit and the
/// volumes are not probed again.
pub proof fn lemma_disk_cache_hit(c: SystemCollector, refreshed_at: u64, rd: Readings)
    requires
        c.wf(),
        c.disks.last_refresh_ms == Some(refreshed_at),
        refreshed_at <= rd.now_ms < refreshed_at + DISK_TTL_MS,
    ensures
        c.disks_result(&rd) == c.disks.value@,
{
}

/// A pass at least `DISK_TTL_MS` after the last refresh, with a fresh
/// reading of the volumes, returns that reading rather than the cache.
pub proof fn lemma_disk_cache_expiry(c: SystemCollector, refreshed_at: u64, rd: Readings)
    requires
        c.wf(),
        c.disks.last_refresh_ms == Some(refreshed_at),
        refreshed_at + DISK_TTL_MS <= rd.now_ms,
        rd.disks.is_some(),
    ensures
        c.disks_result(&rd) == disk_list(
            rd.disks.unwrap()@,
            (rd.now_ms - refreshed_at) as int,
        ),
{
}

} // verus!
