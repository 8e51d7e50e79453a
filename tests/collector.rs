use pulsecore::appusage::process_cpu_ticks;
use pulsecore::collector::{SystemCollector, DiskSample, InterfaceCounters, Readings};
use pulsecore::proctree::ProcessRow;
use pulsecore::sensors::{GpuCounters, SensorReading, VideoMemory};

const MIB: u64 = 1048576;
const GIB: u64 = 1024 * MIB;

fn net(rx: u64, tx: u64) -> Vec<InterfaceCounters> {
    vec![InterfaceCounters { received: rx, transmitted: tx }]
}

fn base(now_ms: u64, rx: u64, tx: u64) -> Readings {
    Readings {
        now_ms,
        timestamp_ms: 1_700_000_000_000 + now_ms as i64,
        cpu_counter_bp: None,
        core_usage_bp: vec![2000, 4000],
        cpu_counter_mhz: None,
        core_frequency_mhz: vec![3000, 3400],
        memory_used_bytes: 8 * GIB,
        memory_total_bytes: 16 * GIB,
        interfaces: net(rx, tx),
        sensors: None,
        disks: None,
        gpu_counters: None,
        gpu_memory: None,
        processes: None,
        logical_cpus: 2,
    }
}

fn disk(mount: &str, total_gib: u64, avail_gib: u64) -> DiskSample {
    DiskSample {
        mount_point: mount.to_string(),
        name: format!("dev-{mount}"),
        total_bytes: total_gib * GIB,
        available_bytes: avail_gib * GIB,
        read_bytes: 4096,
        written_bytes: 8192,
    }
}

fn check_invariants(s: &pulsecore::snapshot::TelemetrySnapshot) {
    assert!(s.cpu.usage_bp <= 10000);
    assert!(s.memory.usage_bp <= 10000);
    assert!(s.memory.used_mb <= s.memory.total_mb);
    for d in &s.disks {
        assert!(d.usage_bp <= 10000);
        assert!(d.used_mb <= d.total_mb);
    }
    if let (Some(u), Some(t)) = (s.gpu.memory_used_mb, s.gpu.memory_total_mb) {
        assert!(u <= t);
    }
}

#[test]
fn first_pass_values() {
    let mut c = SystemCollector::new(42, 0, &net(1000, 500));
    let s = c.collect(500, &base(1000, 3000, 1500));
    assert_eq!(s.cpu.usage_bp, 3000);
    assert_eq!(s.cpu.frequency_mhz, Some(3200));
    assert_eq!(s.memory.used_mb, 8192);
    assert_eq!(s.memory.total_mb, 16384);
    assert_eq!(s.memory.usage_bp, 5000);
    assert_eq!(s.network.download_bytes_per_sec, 2000);
    assert_eq!(s.network.upload_bytes_per_sec, 1000);
    assert_eq!(s.network.latency_ms, None);
    assert_eq!(s.timestamp_ms, 1_700_000_001_000);
    assert_eq!(s.power_milliwatts, None);
    check_invariants(&s);
}

#[test]
fn counter_source_preferred_and_smoothed() {
    let mut c = SystemCollector::new(1, 0, &net(0, 0));
    let mut r = base(100, 0, 0);
    r.cpu_counter_bp = Some(15000);
    r.cpu_counter_mhz = Some(4100);
    let s = c.collect(500, &r);
    assert_eq!(s.cpu.usage_bp, 10000);
    assert_eq!(s.cpu.frequency_mhz, Some(4100));
    let mut r2 = base(200, 0, 0);
    r2.cpu_counter_bp = Some(0);
    let s2 = c.collect(500, &r2);
    assert_eq!(s2.cpu.usage_bp, 7000);
}

#[test]
fn no_cores_reads_zero_and_no_clock() {
    let mut c = SystemCollector::new(1, 0, &net(0, 0));
    let mut r = base(100, 0, 0);
    r.core_usage_bp = Vec::new();
    r.core_frequency_mhz = Vec::new();
    let s = c.collect(500, &r);
    assert_eq!(s.cpu.usage_bp, 0);
    assert_eq!(s.cpu.frequency_mhz, None);
}

#[test]
fn memory_used_capped_and_zero_total() {
    let mut c = SystemCollector::new(1, 0, &net(0, 0));
    let mut r = base(100, 0, 0);
    r.memory_used_bytes = 20 * GIB;
    let s = c.collect(500, &r);
    assert_eq!(s.memory.used_mb, 16384);
    assert_eq!(s.memory.usage_bp, 10000);
    let mut z = base(200, 0, 0);
    z.memory_used_bytes = 0;
    z.memory_total_bytes = 0;
    let s2 = c.collect(500, &z);
    assert_eq!(s2.memory.total_mb, 0);
    assert_eq!(s2.memory.usage_bp, 0);
}

#[test]
fn network_counter_reset_gives_zero_rate() {
    let mut c = SystemCollector::new(1, 0, &net(1_000_000, 1_000_000));
    let s = c.collect(500, &base(1000, 500, 200));
    assert_eq!(s.network.download_bytes_per_sec, 0);
    assert_eq!(s.network.upload_bytes_per_sec, 0);
    let s2 = c.collect(500, &base(2000, 2500, 1200));
    assert_eq!(s2.network.download_bytes_per_sec, 2000);
    assert_eq!(s2.network.upload_bytes_per_sec, 1000);
}

#[test]
fn network_elapsed_floored_and_interfaces_summed() {
    let mut c = SystemCollector::new(1, 500, &net(0, 0));
    let mut r = base(500, 0, 0);
    r.interfaces = vec![
        InterfaceCounters { received: 7, transmitted: 1 },
        InterfaceCounters { received: 3, transmitted: u64::MAX },
    ];
    let s = c.collect(500, &r);
    assert_eq!(s.network.download_bytes_per_sec, 10_000);
    assert_eq!(s.network.upload_bytes_per_sec, u64::MAX);
}

#[test]
fn disk_list_cached_within_ttl() {
    let mut c = SystemCollector::new(1, 0, &net(0, 0));
    let mut r1 = base(1000, 0, 0);
    r1.disks = Some(vec![disk("/", 100, 25)]);
    let s1 = c.collect(500, &r1);
    assert_eq!(s1.disks.len(), 1);
    assert_eq!(s1.disks[0].name, "/");
    assert_eq!(s1.disks[0].label, "dev-/");
    assert_eq!(s1.disks[0].total_mb, 102400);
    assert_eq!(s1.disks[0].used_mb, 76800);
    assert_eq!(s1.disks[0].usage_bp, 7500);
    assert_eq!(s1.disks[0].read_bytes_per_sec, Some(4096));
    assert_eq!(s1.disks[0].write_bytes_per_sec, Some(8192));

    let mut r2 = base(1200, 0, 0);
    r2.disks = Some(vec![disk("/", 100, 50), disk("/data", 10, 1)]);
    let s2 = c.collect(500, &r2);
    assert_eq!(s2.disks.len(), 1);
    assert_eq!(s2.disks[0].used_mb, s1.disks[0].used_mb);
    assert_eq!(s2.disks[0].name, s1.disks[0].name);

    let mut r3 = base(1500, 0, 0);
    r3.disks = Some(vec![disk("/", 100, 50), disk("/data", 10, 1)]);
    let s3 = c.collect(500, &r3);
    assert_eq!(s3.disks.len(), 2);
    assert_eq!(s3.disks[0].usage_bp, 5000);
    assert_eq!(s3.disks[1].usage_bp, 9000);
    assert_eq!(s3.disks[0].read_bytes_per_sec, Some(8192));
}

#[test]
fn disk_available_above_total_reads_zero_used() {
    let mut c = SystemCollector::new(1, 0, &net(0, 0));
    let mut r = base(1000, 0, 0);
    r.disks = Some(vec![disk("/odd", 10, 12)]);
    let s = c.collect(500, &r);
    assert_eq!(s.disks[0].used_mb, 0);
    assert_eq!(s.disks[0].usage_bp, 0);
}

#[test]
fn temperature_from_cpu_sensors_cached_for_a_second() {
    let mut c = SystemCollector::new(1, 0, &net(0, 0));
    let plan = c.plan(500, 100);
    assert!(plan.sensors);
    let mut r = base(100, 0, 0);
    r.sensors = Some(vec![
        SensorReading { label: "CPU Package".to_string(), temperature_mc: Some(55000) },
        SensorReading { label: "Core 0".to_string(), temperature_mc: Some(61000) },
        SensorReading { label: "acpitz".to_string(), temperature_mc: Some(90000) },
        SensorReading { label: "Core 1".to_string(), temperature_mc: None },
    ]);
    let s = c.collect(500, &r);
    assert_eq!(s.cpu.temperature_mc, Some(61000));
    assert!(!c.plan(500, 600).sensors);
    let mut r2 = base(600, 0, 0);
    r2.sensors = Some(vec![SensorReading { label: "core 3".to_string(), temperature_mc: Some(70000) }]);
    assert_eq!(c.collect(500, &r2).cpu.temperature_mc, Some(61000));
    let mut r3 = base(1100, 0, 0);
    r3.sensors = Some(vec![SensorReading { label: "nvme".to_string(), temperature_mc: Some(40000) }]);
    assert_eq!(c.collect(500, &r3).cpu.temperature_mc, None);
}

#[test]
fn gpu_cache_and_fallback() {
    let mut c = SystemCollector::new(1, 0, &net(0, 0));
    let s0 = c.collect(100, &base(0, 0, 0));
    assert_eq!(s0.gpu.usage_bp, Some(0));
    assert!(c.plan(100, 100).gpu == false);
    let mut r = base(400, 0, 0);
    r.gpu_counters = Some(GpuCounters {
        usage_bp: Some(4200),
        memory_used_mb: Some(5000),
        memory_total_mb: Some(4095),
        frequency_mhz: Some(1800),
    });
    r.gpu_memory = Some(VideoMemory { used_mb: 3000, total_mb: 8192 });
    let s = c.collect(100, &r);
    assert_eq!(s.gpu.usage_bp, Some(4200));
    assert_eq!(s.gpu.memory_used_mb, Some(5000));
    assert_eq!(s.gpu.memory_total_mb, Some(8192));
    assert_eq!(s.gpu.frequency_mhz, Some(1800));
    let s2 = c.collect(100, &base(900, 0, 0));
    assert_eq!(s2.gpu, s.gpu);
}

#[test]
fn gpu_interval_follows_slow_refresh_rate() {
    let mut c = SystemCollector::new(1, 0, &net(0, 0));
    assert!(c.plan(1000, 0).gpu);
    let _ = c.collect(1000, &base(0, 0, 0));
    assert!(!c.plan(1000, 999).gpu);
    assert!(c.plan(1000, 1000).gpu);
    assert!(c.plan(10, 400).gpu);
    assert!(!c.plan(10, 399).gpu);
}

fn proc_row(pid: u32, parent: Option<u32>, cpu_ms: u64, mem: u64) -> ProcessRow {
    ProcessRow {
        pid,
        parent,
        name: format!("p{pid}"),
        memory_bytes: mem,
        cpu_time_ms: cpu_ms,
        cpu_usage_bp: 0,
    }
}

#[test]
fn application_usage_over_subtree() {
    let mut c = SystemCollector::new(10, 0, &net(0, 0));
    let table = |cpu_a: u64, cpu_b: u64| {
        vec![
            proc_row(1, None, 999_999, 1000 * MIB),
            proc_row(10, Some(1), cpu_a, 100 * MIB),
            proc_row(11, Some(10), cpu_b, 50 * MIB),
        ]
    };
    let mut r = base(0, 0, 0);
    r.processes = Some(table(0, 0));
    let s = c.collect(500, &r);
    assert_eq!(s.app_memory_mb, Some(150));
    assert_eq!(s.app_cpu_usage_bp, Some(0));

    let mut r1 = base(1000, 0, 0);
    r1.processes = Some(table(500, 500));
    let s1 = c.collect(500, &r1);
    assert_eq!(s1.app_cpu_usage_bp, Some(0));

    let mut r2 = base(3000, 0, 0);
    r2.processes = Some(table(4500, 500));
    let s2 = c.collect(500, &r2);
    assert_eq!(s2.app_cpu_usage_bp, Some(6250));
}

#[test]
fn smoothing_state_carries_across_passes() {
    let mut c = SystemCollector::new(1, 0, &net(0, 0));
    let mut last = 0;
    for k in 0..26u64 {
        let mut r = base(100 * (k + 1), 0, 0);
        r.cpu_counter_bp = Some(if k == 0 { 0 } else { 8000 });
        last = c.collect(500, &r).cpu.usage_bp;
        assert_eq!(c.cpu_ema.value, Some(last));
    }
    assert_eq!(last, 8000);
}

#[test]
fn filetime_halves_combined() {
    assert_eq!(process_cpu_ticks(1, 5, 0, 7), (1u64 << 32) + 12);
    assert_eq!(process_cpu_ticks(u32::MAX, u32::MAX, 0, 1), u64::MAX);
}
