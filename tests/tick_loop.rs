use pulsecore::tick_loop::{clamp_refresh_rate, summary_title, CollectOutcome, TelemetryLoop};
use pulsecore::collector::{SystemCollector, InterfaceCounters, Readings};
use pulsecore::snapshot::TelemetrySnapshot;

fn snap(ts: i64, cpu: u64) -> TelemetrySnapshot {
    let mut s = TelemetrySnapshot::fallback_snapshot(ts);
    s.cpu.usage_bp = cpu;
    s
}

#[test]
fn refresh_rate_clamped() {
    assert_eq!(clamp_refresh_rate(5), 10);
    assert_eq!(clamp_refresh_rate(100), 100);
    assert_eq!(clamp_refresh_rate(20000), 10000);
}

#[test]
fn fallback_snapshot_values() {
    let s = TelemetrySnapshot::fallback_snapshot(7);
    assert_eq!(s.timestamp_ms, 7);
    assert_eq!(s.cpu.usage_bp, 0);
    assert_eq!(s.memory.total_mb, 1);
    assert_eq!(s.memory.used_mb, 0);
    assert!(s.disks.is_empty());
    assert_eq!(s.gpu.usage_bp, None);
}

#[test]
fn timeout_republishes_previous_snapshot() {
    let mut l = TelemetryLoop::new(snap(1, 100), 500);
    let d1 = l.on_collect(CollectOutcome::Collected(snap(2, 4200)));
    assert_eq!(d1.publish.timestamp_ms, 2);
    assert!(d1.warning.is_none());
    let d2 = l.on_collect(CollectOutcome::TimedOut);
    assert_eq!(d2.publish.timestamp_ms, 2);
    assert_eq!(d2.publish.cpu, d1.publish.cpu);
    assert_eq!(d2.publish.memory, d1.publish.memory);
    let w = d2.warning.expect("warning on timeout");
    assert_eq!(w.source, "telemetry");
    assert!(!d2.rebuild_collector);
    assert_eq!(l.consecutive_failures, 1);
}

#[test]
fn three_timeouts_rebuild_collector() {
    let mut l = TelemetryLoop::new(snap(1, 0), 100);
    let a = l.on_collect(CollectOutcome::TimedOut);
    let b = l.on_collect(CollectOutcome::TimedOut);
    assert!(!a.rebuild_collector && !b.rebuild_collector);
    assert_eq!(l.consecutive_failures, 2);
    let c = l.on_collect(CollectOutcome::TimedOut);
    assert!(c.rebuild_collector);
    assert!(c.recovery.is_some());
    assert_eq!(l.collector_resets, 1);
    assert_eq!(l.consecutive_failures, 0);
}

#[test]
fn success_clears_failures() {
    let mut l = TelemetryLoop::new(snap(1, 0), 100);
    l.on_collect(CollectOutcome::TimedOut);
    l.on_collect(CollectOutcome::TimedOut);
    l.on_collect(CollectOutcome::Collected(snap(5, 1)));
    assert_eq!(l.consecutive_failures, 0);
    let d = l.on_collect(CollectOutcome::TimedOut);
    assert!(!d.rebuild_collector);
    assert_eq!(l.collector_resets, 0);
}

#[test]
fn housekeeping_every_180_ticks() {
    let mut l = TelemetryLoop::new(snap(1, 0), 100);
    let mut hits = Vec::new();
    for i in 1..=360u64 {
        let d = l.on_collect(CollectOutcome::Collected(snap(i as i64, 0)));
        if d.housekeeping {
            hits.push(i);
        }
    }
    assert_eq!(hits, vec![180, 360]);
}

#[test]
fn rate_change_rebuilds_timer() {
    let mut l = TelemetryLoop::new(snap(1, 0), 3);
    assert_eq!(l.current_rate_ms, 10);
    assert_eq!(l.reconfigure(10), None);
    assert_eq!(l.reconfigure(250), Some(250));
    assert_eq!(l.reconfigure(250), None);
    assert_eq!(l.current_rate_ms, 250);
}

#[test]
fn headline_text() {
    let mut s = snap(1, 4250);
    s.memory.usage_bp = 5000;
    s.network.download_bytes_per_sec = 1572864;
    assert_eq!(summary_title(&s), "PulseCore | CPU 43% | RAM 50% | Down 1.5 MB/s");
    let z = snap(1, 0);
    assert_eq!(summary_title(&z), "PulseCore | CPU 0% | RAM 0% | Down 0.0 MB/s");
}

#[test]
fn loop_at_100ms_for_one_second_publishes_ten_snapshots() {
    let ifs = vec![InterfaceCounters { received: 0, transmitted: 0 }];
    let mut collector = SystemCollector::new(1, 0, &ifs);
    let mut l = TelemetryLoop::new(TelemetrySnapshot::fallback_snapshot(0), 100);
    let mut published = Vec::new();
    let mut now = 0u64;
    while now < 1000 {
        assert_eq!(l.reconfigure(100), None);
        let rd = Readings {
            now_ms: now,
            timestamp_ms: now as i64,
            cpu_counter_bp: Some(3000 + now),
            core_usage_bp: Vec::new(),
            cpu_counter_mhz: None,
            core_frequency_mhz: vec![2000],
            memory_used_bytes: now * 1048576,
            memory_total_bytes: 4096 * 1048576,
            interfaces: vec![InterfaceCounters { received: now * 10, transmitted: now }],
            sensors: None,
            disks: None,
            gpu_counters: None,
            gpu_memory: None,
            processes: None,
            logical_cpus: 1,
        };
        let s = collector.collect(l.current_rate_ms, &rd);
        let d = l.on_collect(CollectOutcome::Collected(s));
        published.push(d.publish);
        now += l.current_rate_ms;
    }
    assert_eq!(published.len(), 10);
    for s in &published {
        assert!(s.cpu.usage_bp <= 10000);
        assert!(s.memory.usage_bp <= 10000);
        assert!(s.memory.used_mb <= s.memory.total_mb);
    }
    assert_eq!(published[9].network.download_bytes_per_sec, 10000);
}

#[test]
fn consistency_check_and_clone() {
    let mut s = snap(3, 5000);
    assert!(s.is_consistent());
    s.disks.push(pulsecore::snapshot::DiskMetrics {
        name: "/".to_string(),
        label: "sda".to_string(),
        used_mb: 50,
        total_mb: 200,
        usage_bp: 2500,
        read_bytes_per_sec: None,
        write_bytes_per_sec: Some(1),
    });
    assert!(s.is_consistent());
    let c = s.clone();
    assert_eq!(c.disks[0].label, "sda");
    assert_eq!(c.cpu, s.cpu);
    s.disks[0].usage_bp = 2501;
    assert!(!s.is_consistent());
    let mut t = snap(3, 10001);
    assert!(!t.is_consistent());
    t.cpu.usage_bp = 0;
    t.memory.used_mb = 2;
    assert!(!t.is_consistent());
    t.memory.total_mb = 4;
    t.memory.usage_bp = 5000;
    assert!(t.is_consistent());
    t.gpu.memory_used_mb = Some(9);
    t.gpu.memory_total_mb = Some(8);
    assert!(!t.is_consistent());
}
