//! The snapshot: one reading of every tracked metric.
use vstd::prelude::*;
use crate::measure::{lemma_ratio_bp_bounds, ratio_bp, ratio_bp_of, FULL_BP};

verus! {

/// CPU load in basis points, average clock, hottest CPU sensor in milli-degrees Celsius.
#[derive(Debug, Clone, Copy, PartialEq, Eq, Structural)]
pub struct CpuMetrics {
    pub usage_bp: u64,
    pub frequency_mhz: Option<u64>,
    pub temperature_mc: Option<i64>,
}

#[derive(Debug, Clone, Copy, PartialEq, Eq, Structural)]
pub struct GpuMetrics {
    pub usage_bp: Option<u64>,
    pub temperature_mc: Option<i64>,
    pub memory_used_mb: Option<u64>,
    pub memory_total_mb: Option<u64>,
    pub frequency_mhz: Option<u64>,
}

#[derive(Debug, Clone, Copy, PartialEq, Eq, Structural)]
pub struct MemoryMetrics {
    pub used_mb: u64,
    pub total_mb: u64,
    pub usage_bp: u64,
}

/// One mounted volume: `name` is the mount point, `label` the device name.
#[derive(Debug)]
pub struct DiskMetrics {
    pub name: String,
    pub label: String,
    pub used_mb: u64,
    pub total_mb: u64,
    pub usage_bp: u64,
    pub read_bytes_per_sec: Option<u64>,
    pub write_bytes_per_sec: Option<u64>,
}

impl Clone for DiskMetrics {
    fn clone(&self) -> (r: Self)
        ensures
            r == *self,
    {
        DiskMetrics {
            name: self.name.clone(),
            label: self.label.clone(),
            used_mb: self.used_mb,
            total_mb: self.total_mb,
            usage_bp: self.usage_bp,
            read_bytes_per_sec: self.read_bytes_per_sec,
            write_bytes_per_sec: self.write_bytes_per_sec,
        }
    }
}

#[derive(Debug, Clone, Copy, PartialEq, Eq, Structural)]
pub struct NetworkMetrics {
    pub download_bytes_per_sec: u64,
    pub upload_bytes_per_sec: u64,
    pub latency_ms: Option<u64>,
}

/// Every metric at one instant; `timestamp_ms` is milliseconds since the Unix epoch.
#[derive(Debug)]
pub struct TelemetrySnapshot {
    pub timestamp_ms: i64,
    pub cpu: CpuMetrics,
    pub gpu: GpuMetrics,
    pub memory: MemoryMetrics,
    pub disks: Vec<DiskMetrics>,
    pub network: NetworkMetrics,
    pub app_cpu_usage_bp: Option<u64>,
    pub app_memory_mb: Option<u64>,
    pub power_milliwatts: Option<u64>,
}

/// The value of a snapshot, with its disk list as a sequence.
pub ghost struct SnapshotView {
    pub timestamp_ms: i64,
    pub cpu: CpuMetrics,
    pub gpu: GpuMetrics,
    pub memory: MemoryMetrics,
    pub disks: Seq<DiskMetrics>,
    pub network: NetworkMetrics,
    pub app_cpu_usage_bp: Option<u64>,
    pub app_memory_mb: Option<u64>,
    pub power_milliwatts: Option<u64>,
}

impl View for TelemetrySnapshot {
    type V = SnapshotView;

    open spec fn view(&self) -> SnapshotView {
        SnapshotView {
            timestamp_ms: self.timestamp_ms,
            cpu: self.cpu,
            gpu: self.gpu,
            memory: self.memory,
            disks: self.disks@,
            network: self.network,
            app_cpu_usage_bp: self.app_cpu_usage_bp,
            app_memory_mb: self.app_memory_mb,
            power_milliwatts: self.power_milliwatts,
        }
    }
}

pub open spec fn opt_bp_ok(v: Option<u64>) -> bool {
    match v {
        Some(x) => x <= FULL_BP,
        None => true,
    }
}

/// Used never exceeds total where both are known.
pub open spec fn used_within_total(used: Option<u64>, total: Option<u64>) -> bool {
    match (used, total) {
        (Some(u), Some(t)) => u <= t,
        _ => true,
    }
}

impl CpuMetrics {
    pub open spec fn wf(self) -> bool {
        self.usage_bp <= FULL_BP
    }
}

impl GpuMetrics {
    pub open spec fn wf(self) -> bool {
        opt_bp_ok(self.usage_bp) && used_within_total(self.memory_used_mb, self.memory_total_mb)
    }
}

impl MemoryMetrics {
    pub open spec fn wf(self) -> bool {
        &&& self.used_mb <= self.total_mb
        &&& self.usage_bp as int == ratio_bp(self.used_mb as int, self.total_mb as int)
    }
}

impl DiskMetrics {
    pub open spec fn wf(&self) -> bool {
        &&& self.used_mb <= self.total_mb
        &&& self.usage_bp as int == ratio_bp(self.used_mb as int, self.total_mb as int)
    }
}

pub open spec fn disks_wf(disks: Seq<DiskMetrics>) -> bool {
    forall|i: int| 0 <= i < disks.len() ==> (#[trigger] disks[i]).wf()
}

impl SnapshotView {
    /// Every percentage lies in `[0, 100%]` and every used amount is within its total.
    pub open spec fn wf(self) -> bool {
        &&& self.cpu.wf()
        &&& self.gpu.wf()
        &&& self.memory.wf()
        &&& disks_wf(self.disks)
        &&& opt_bp_ok(self.app_cpu_usage_bp)
    }
}

impl TelemetrySnapshot {
    pub open spec fn wf(&self) -> bool {
        self@.wf()
    }

    /// The snapshot published before any real collection: everything zero or unknown.
    pub fn fallback_snapshot(timestamp_ms: i64) -> (r: TelemetrySnapshot)
        ensures
            r.wf(),
            r.timestamp_ms == timestamp_ms,
            r.cpu.usage_bp == 0,
            r.memory == (MemoryMetrics { used_mb: 0, total_mb: 1, usage_bp: 0 }),
            r.disks@.len() == 0,
            r.network.download_bytes_per_sec == 0,
            r.network.upload_bytes_per_sec == 0,
            r.gpu == (GpuMetrics {
                usage_bp: None,
                temperature_mc: None,
                memory_used_mb: None,
                memory_total_mb: None,
                frequency_mhz: None,
            }),
            r.cpu.frequency_mhz.is_none(),
            r.cpu.temperature_mc.is_none(),
            r.network.latency_ms.is_none(),
            r.app_cpu_usage_bp.is_none(),
            r.app_memory_mb.is_none(),
            r.power_milliwatts.is_none(),
    {
        TelemetrySnapshot {
            timestamp_ms,
            cpu: CpuMetrics { usage_bp: 0, frequency_mhz: None, temperature_mc: None },
            gpu: GpuMetrics {
                usage_bp: None,
                temperature_mc: None,
                memory_used_mb: None,
                memory_total_mb: None,
                frequency_mhz: None,
            },
            memory: MemoryMetrics { used_mb: 0, total_mb: 1, usage_bp: 0 },
            disks: Vec::new(),
            network: NetworkMetrics {
                download_bytes_per_sec: 0,
                upload_bytes_per_sec: 0,
                latency_ms: None,
            },
            app_cpu_usage_bp: None,
            app_memory_mb: None,
            power_milliwatts: None,
        }
    }
}

fn opt_bp_ok_of(v: Option<u64>) -> (r: bool)
    ensures
        r == opt_bp_ok(v),
{
    match v {
        Some(x) => x <= FULL_BP,
        None => true,
    }
}

impl TelemetrySnapshot {
    /// Whether the snapshot is well formed (see `wf`).
    pub fn is_consistent(&self) -> (r: bool)
        ensures
            r == self.wf(),
    {
        if self.cpu.usage_bp > FULL_BP || !opt_bp_ok_of(self.gpu.usage_bp) || !opt_bp_ok_of(
            self.app_cpu_usage_bp,
        ) {
            return false;
        }
        match (self.gpu.memory_used_mb, self.gpu.memory_total_mb) {
            (Some(u), Some(t)) => {
                if u > t {
                    return false;
                }
            },
            _ => {},
        }
        if self.memory.used_mb > self.memory.total_mb || self.memory.usage_bp != ratio_bp_of(
            self.memory.used_mb,
            self.memory.total_mb,
        ) {
            return false;
        }
        let mut i: usize = 0;
        while i < self.disks.len()
            invariant
                0 <= i <= self.disks@.len(),
                forall|k: int| 0 <= k < i ==> (#[trigger] self.disks@[k]).wf(),
            decreases self.disks@.len() - i,
        {
            let d = &self.disks[i];
            if d.used_mb > d.total_mb || d.usage_bp != ratio_bp_of(d.used_mb, d.total_mb) {
                return false;
            }
            i += 1;
        }
        true
    }
}

impl Clone for TelemetrySnapshot {
    fn clone(&self) -> (r: Self)
        ensures
            r@ == self@,
    {
        let disks = self.disks.clone();
        assert(disks@ =~= self.disks@);
        TelemetrySnapshot {
            timestamp_ms: self.timestamp_ms,
            cpu: self.cpu,
            gpu: self.gpu,
            memory: self.memory,
            disks,
            network: self.network,
            app_cpu_usage_bp: self.app_cpu_usage_bp,
            app_memory_mb: self.app_memory_mb,
            power_milliwatts: self.power_milliwatts,
        }
    }
}

/// Every snapshot that is well formed keeps its percentages in `[0, 100%]`
/// (CPU, memory, each disk) and memory used within memory total.
pub proof fn lemma_wf_snapshot_bounds(s: SnapshotView)
    requires
        s.wf(),
    ensures
        0 <= s.cpu.usage_bp <= FULL_BP,
        0 <= s.memory.usage_bp <= FULL_BP,
        s.memory.used_mb <= s.memory.total_mb,
        forall|i: int| 0 <= i < s.disks.len() ==> 0 <= (#[trigger] s.disks[i]).usage_bp <= FULL_BP,
{
    lemma_ratio_bp_bounds(s.memory.used_mb as int, s.memory.total_mb as int);
    assert forall|i: int| 0 <= i < s.disks.len() implies 0 <= (#[trigger] s.disks[i]).usage_bp
        <= FULL_BP by {
        assert(s.disks[i].wf());
        lemma_ratio_bp_bounds(s.disks[i].used_mb as int, s.disks[i].total_mb as int);
    }
}

} // verus!
