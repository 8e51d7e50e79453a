use pulsecore::profiler::{classify_process, collect_process_samples, ProcessKind, Profiler, ProfilerError};
use pulsecore::proctree::ProcessRow;

fn row(pid: u32, parent: Option<u32>, name: &str, mem: u64) -> ProcessRow {
    ProcessRow {
        pid,
        parent,
        name: name.to_string(),
        memory_bytes: mem,
        cpu_time_ms: 0,
        cpu_usage_bp: 150,
    }
}

#[test]
fn classify_by_name_ignoring_case() {
    assert_eq!(classify_process("MsEdgeWebView2.exe"), "webview");
    assert_eq!(classify_process("PulseCore.exe"), "app");
    assert_eq!(classify_process("node"), "child");
    assert_eq!(ProcessKind::App.as_str(), "app");
}

#[test]
fn process_samples_sorted_by_memory() {
    let rows = vec![
        row(1, None, "init", 999),
        row(100, Some(1), "PulseCore.exe", 300),
        row(101, Some(100), "msedgewebview2.exe", 700),
        row(102, Some(100), "helper", 300),
        row(103, Some(101), "renderer", 500),
        row(200, Some(1), "other", 5000),
    ];
    let s = collect_process_samples(&rows, 100);
    let pids: Vec<u32> = s.iter().map(|p| p.pid).collect();
    assert_eq!(pids, vec![101, 103, 100, 102]);
    assert_eq!(s[0].kind, ProcessKind::WebView);
    assert_eq!(s[2].kind, ProcessKind::App);
    assert_eq!(s[3].kind, ProcessKind::Child);
    assert_eq!(s[1].parent_pid, Some(101));
    assert_eq!(s[1].cpu_usage_bp, 150);
}

#[test]
fn profiler_lifecycle() {
    let mut p = Profiler::new();
    let idle = p.status();
    assert!(!idle.active && idle.path.is_none() && idle.started_at_ms.is_none() && idle.samples == 0);

    let st = p.start("/tmp/a.jsonl".to_string(), 50, Some(100), 1234, 10).unwrap();
    assert!(st.active);
    assert_eq!(st.path.as_deref(), Some("/tmp/a.jsonl"));
    assert_eq!(st.started_at_ms, Some(1234));
    let a = p.active.as_ref().unwrap();
    assert_eq!(a.interval_ms, 200);
    assert_eq!(a.max_duration_ms, Some(200));

    let again = p.start("/tmp/b.jsonl".to_string(), 1000, None, 0, 0);
    assert_eq!(again.err(), Some(ProfilerError::AlreadyActive));
    assert_eq!(ProfilerError::AlreadyActive.message(), "Profile capture already running.");

    assert!(p.on_tick(100, false));
    p.record_sample();
    p.record_sample();
    assert_eq!(p.status().samples, 2);
    assert!(!p.on_tick(150, true));
    assert!(!p.on_tick(210, false));

    let done = p.stop();
    assert!(!done.active);
    assert_eq!(done.samples, 2);
    assert_eq!(done.path.as_deref(), Some("/tmp/a.jsonl"));
    assert!(p.active.is_none());
    let empty = p.stop();
    assert!(empty.path.is_none() && empty.samples == 0);
}

#[test]
fn profiler_interval_upper_clamp_and_no_deadline() {
    let mut p = Profiler::new();
    p.start("x".to_string(), 60_000, None, 0, 0).unwrap();
    assert_eq!(p.active.as_ref().unwrap().interval_ms, 10_000);
    assert!(p.on_tick(u64::MAX, false));
}

#[test]
fn process_samples_on_cyclic_table() {
    let rows = vec![row(1, Some(2), "a", 10), row(2, Some(1), "b", 20), row(3, None, "c", 30)];
    let s = collect_process_samples(&rows, 1);
    let pids: Vec<u32> = s.iter().map(|p| p.pid).collect();
    assert_eq!(pids, vec![2, 1]);
}
