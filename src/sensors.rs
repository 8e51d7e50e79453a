//! Decisions over raw sensor readings: CPU temperature selection and GPU reconciliation.
use vstd::prelude::*;
use crate::measure::{clamp_bp, clamp_bp_of};
use crate::snapshot::GpuMetrics;
use crate::text::{has_infix, lower_of, lowercase, str_contains};

verus! {

/// One thermal sensor: its label and, when it gave a finite value, the
/// temperature in milli-degrees Celsius.
#[derive(Debug)]
pub struct SensorReading {
    pub label: String,
    pub temperature_mc: Option<i64>,
}

/// A lower-cased label names a CPU sensor.
pub open spec fn is_cpu_label(lower: Seq<char>) -> bool {
    has_infix(lower, "cpu"@) || has_infix(lower, "core"@) || has_infix(lower, "package"@)
}

/// The sensor counts towards the CPU temperature.
pub open spec fn is_cpu_sensor(s: SensorReading) -> bool {
    is_cpu_label(lower_of(s.label@)) && s.temperature_mc.is_some()
}

/// The highest reading among the CPU sensors, `None` when there is none.
pub open spec fn hottest(sensors: Seq<SensorReading>) -> Option<i64>
    decreases sensors.len(),
{
    if sensors.len() == 0 {
        None
    } else {
        let prev = hottest(sensors.drop_last());
        let s = sensors.last();
        if is_cpu_sensor(s) {
            let t = s.temperature_mc.unwrap();
            match prev {
                Some(p) => Some(if p >= t { p } else { t }),
                None => Some(t),
            }
        } else {
            prev
        }
    }
}

/// Whether an already lower-cased label names a CPU sensor.
pub fn cpu_label_matches(lower: &str) -> (r: bool)
    ensures
        r == is_cpu_label(lower@),
{
    proof {
        reveal_strlit("cpu");
        reveal_strlit("core");
        reveal_strlit("package");
    }
    str_contains(lower, "cpu") || str_contains(lower, "core") || str_contains(lower, "package")
}

/// The CPU temperature: the maximum reading among sensors whose label
/// contains "cpu", "core" or "package", ignoring case.
pub fn hottest_cpu_sensor(sensors: &Vec<SensorReading>) -> (r: Option<i64>)
    ensures
        r == hottest(sensors@),
{
    let mut best: Option<i64> = None;
    let mut i: usize = 0;
    while i < sensors.len()
        invariant
            0 <= i <= sensors@.len(),
            best == hottest(sensors@.subrange(0, i as int)),
        decreases sensors@.len() - i,
    {
        let s = &sensors[i];
        let lower = lowercase(s.label.as_str());
        let counts = cpu_label_matches(lower.as_str());
        proof {
            let pre = sensors@.subrange(0, i + 1);
            assert(pre.drop_last() =~= sensors@.subrange(0, i as int));
            assert(pre.last() == sensors@[i as int]);
        }
        if counts {
            if let Some(t) = s.temperature_mc {
                best = match best {
                    Some(p) => Some(if p >= t { p } else { t }),
                    None => Some(t),
                };
            }
        }
        i += 1;
    }
    assert(sensors@.subrange(0, sensors@.len() as int) =~= sensors@);
    best
}

/// GPU readings from the performance-counter source (a truncated total is possible).
#[derive(Debug, Clone, Copy, PartialEq, Eq, Structural)]
pub struct GpuCounters {
    pub usage_bp: Option<u64>,
    pub memory_used_mb: Option<u64>,
    pub memory_total_mb: Option<u64>,
    pub frequency_mhz: Option<u64>,
}

/// Dedicated video memory from the higher-fidelity capacity source.
#[derive(Debug, Clone, Copy, PartialEq, Eq, Structural)]
pub struct VideoMemory {
    pub used_mb: u64,
    pub total_mb: u64,
}

/// Capacity from the capacity source when present, else from the counters;
/// current use from the counters when present, else from the capacity
/// source; use clamped to capacity when both are known; load clamped to
/// 100% (0 when the counters gave none).
pub open spec fn reconciled(c: GpuCounters, cap: Option<VideoMemory>) -> GpuMetrics {
    let total = match cap {
        Some(m) => Some(m.total_mb),
        None => c.memory_total_mb,
    };
    let used0 = match c.memory_used_mb {
        Some(u) => Some(u),
        None => match cap {
            Some(m) => Some(m.used_mb),
            None => None,
        },
    };
    let used = match (used0, total) {
        (Some(u), Some(t)) => Some(if u > t { t } else { u }),
        _ => used0,
    };
    let usage = match c.usage_bp {
        Some(u) => clamp_bp(u as int),
        None => 0,
    };
    GpuMetrics {
        usage_bp: Some(usage as u64),
        temperature_mc: None,
        memory_used_mb: used,
        memory_total_mb: total,
        frequency_mhz: c.frequency_mhz,
    }
}

pub fn reconcile_gpu(c: GpuCounters, cap: Option<VideoMemory>) -> (r: GpuMetrics)
    ensures
        r == reconciled(c, cap),
        r.wf(),
{
    let total = match cap {
        Some(m) => Some(m.total_mb),
        None => c.memory_total_mb,
    };
    let used0 = match c.memory_used_mb {
        Some(u) => Some(u),
        None => match cap {
            Some(m) => Some(m.used_mb),
            None => None,
        },
    };
    let used = match (used0, total) {
        (Some(u), Some(t)) => Some(if u > t { t } else { u }),
        _ => used0,
    };
    let usage = match c.usage_bp {
        Some(u) => clamp_bp_of(u),
        None => 0,
    };
    GpuMetrics {
        usage_bp: Some(usage),
        temperature_mc: None,
        memory_used_mb: used,
        memory_total_mb: total,
        frequency_mhz: c.frequency_mhz,
    }
}

/// One graphics adapter as the OS enumerates it.
#[derive(Debug, Clone, Copy, PartialEq, Eq, Structural)]
pub struct AdapterDesc {
    pub software: bool,
    pub dedicated_bytes: u64,
}

/// A hardware adapter with dedicated memory.
pub open spec fn eligible(a: AdapterDesc) -> bool {
    !a.software && a.dedicated_bytes > 0
}

/// The index of the eligible adapter with the largest dedicated memory,
/// the first of several equal ones; `None` when no adapter is eligible.
pub fn pick_gpu_adapter(adapters: &Vec<AdapterDesc>) -> (r: Option<usize>)
    ensures
        match r {
            None => forall|i: int| 0 <= i < adapters@.len() ==> !eligible(#[trigger] adapters@[i]),
            Some(k) => {
                &&& 0 <= k < adapters@.len()
                &&& eligible(adapters@[k as int])
                &&& forall|i: int|
                    0 <= i < adapters@.len() && eligible(#[trigger] adapters@[i])
                        ==> adapters@[i].dedicated_bytes <= adapters@[k as int].dedicated_bytes
                &&& forall|i: int|
                    0 <= i < k && eligible(#[trigger] adapters@[i]) ==> adapters@[i].dedicated_bytes
                        < adapters@[k as int].dedicated_bytes
            },
        },
{
    let mut best: Option<usize> = None;
    let mut i: usize = 0;
    while i < adapters.len()
        invariant
            0 <= i <= adapters@.len(),
            match best {
                None => forall|j: int| 0 <= j < i ==> !eligible(#[trigger] adapters@[j]),
                Some(k) => {
                    &&& 0 <= k < i
                    &&& eligible(adapters@[k as int])
                    &&& forall|j: int|
                        0 <= j < i && eligible(#[trigger] adapters@[j]) ==> adapters@[j].dedicated_bytes
                            <= adapters@[k as int].dedicated_bytes
                    &&& forall|j: int|
                        0 <= j < k && eligible(#[trigger] adapters@[j]) ==> adapters@[j].dedicated_bytes
                            < adapters@[k as int].dedicated_bytes
                },
            },
        decreases adapters@.len() - i,
    {
        let a = adapters[i];
        if !a.software && a.dedicated_bytes > 0 {
            match best {
                None => {
                    best = Some(i);
                },
                Some(k) => {
                    if adapters[k].dedicated_bytes < a.dedicated_bytes {
                        best = Some(i);
                    }
                },
            }
        }
        i += 1;
    }
    best
}

/// Dedicated memory of an adapter in MiB, current use capped at the total;
/// `None` when the total rounds down to nothing.
pub open spec fn video_memory_spec(dedicated_bytes: u64, usage_bytes: u64) -> Option<VideoMemory> {
    let total = dedicated_bytes as int / 1048576;
    let used = usage_bytes as int / 1048576;
    if total > 0 {
        Some(VideoMemory { used_mb: (if used > total { total } else { used }) as u64, total_mb: total as u64 })
    } else {
        None
    }
}

pub fn video_memory(dedicated_bytes: u64, usage_bytes: u64) -> (r: Option<VideoMemory>)
    ensures
        r == video_memory_spec(dedicated_bytes, usage_bytes),
{
    let total = dedicated_bytes / 1048576;
    let used = usage_bytes / 1048576;
    if total > 0 {
        Some(VideoMemory { used_mb: if used > total { total } else { used }, total_mb: total })
    } else {
        None
    }
}

} // verus!
