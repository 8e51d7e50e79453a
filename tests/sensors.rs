use pulsecore::sensors::{
    cpu_label_matches, hottest_cpu_sensor, pick_gpu_adapter, reconcile_gpu, video_memory,
    AdapterDesc, GpuCounters, SensorReading, VideoMemory,
};

#[test]
fn cpu_labels() {
    assert!(cpu_label_matches("cpu package"));
    assert!(cpu_label_matches("coretemp core 0"));
    assert!(cpu_label_matches("package id 0"));
    assert!(!cpu_label_matches("acpitz"));
    assert!(!cpu_label_matches("CPU"));
}

#[test]
fn hottest_ignores_case_and_other_sensors() {
    let s = vec![
        SensorReading { label: "CPU Package".to_string(), temperature_mc: Some(55000) },
        SensorReading { label: "nvme Composite".to_string(), temperature_mc: Some(80000) },
        SensorReading { label: "CORE 2".to_string(), temperature_mc: Some(-5000) },
    ];
    assert_eq!(hottest_cpu_sensor(&s), Some(55000));
    assert_eq!(hottest_cpu_sensor(&Vec::new()), None);
}

#[test]
fn gpu_capacity_source_wins_for_total() {
    let c = GpuCounters {
        usage_bp: Some(12000),
        memory_used_mb: Some(5000),
        memory_total_mb: Some(4095),
        frequency_mhz: Some(1500),
    };
    let g = reconcile_gpu(c, Some(VideoMemory { used_mb: 3000, total_mb: 8192 }));
    assert_eq!(g.usage_bp, Some(10000));
    assert_eq!(g.memory_used_mb, Some(5000));
    assert_eq!(g.memory_total_mb, Some(8192));
    assert_eq!(g.frequency_mhz, Some(1500));
    assert_eq!(g.temperature_mc, None);
}

#[test]
fn gpu_used_clamped_and_fallbacks() {
    let c = GpuCounters { usage_bp: None, memory_used_mb: Some(9000), memory_total_mb: Some(4095), frequency_mhz: None };
    let g = reconcile_gpu(c, None);
    assert_eq!(g.usage_bp, Some(0));
    assert_eq!(g.memory_used_mb, Some(4095));
    let c2 = GpuCounters { usage_bp: Some(10), memory_used_mb: None, memory_total_mb: None, frequency_mhz: None };
    let g2 = reconcile_gpu(c2, Some(VideoMemory { used_mb: 100, total_mb: 6144 }));
    assert_eq!(g2.memory_used_mb, Some(100));
    assert_eq!(g2.memory_total_mb, Some(6144));
    let g3 = reconcile_gpu(c2, None);
    assert_eq!(g3.memory_used_mb, None);
    assert_eq!(g3.memory_total_mb, None);
}

#[test]
fn adapter_with_most_dedicated_memory() {
    let a = vec![
        AdapterDesc { software: false, dedicated_bytes: 512 },
        AdapterDesc { software: true, dedicated_bytes: 1 << 40 },
        AdapterDesc { software: false, dedicated_bytes: 8 << 30 },
        AdapterDesc { software: false, dedicated_bytes: 8 << 30 },
        AdapterDesc { software: false, dedicated_bytes: 0 },
    ];
    assert_eq!(pick_gpu_adapter(&a), Some(2));
    let none = vec![AdapterDesc { software: true, dedicated_bytes: 10 }, AdapterDesc { software: false, dedicated_bytes: 0 }];
    assert_eq!(pick_gpu_adapter(&none), None);
}

#[test]
fn video_memory_in_mib() {
    assert_eq!(video_memory(8 << 30, 3 << 30), Some(VideoMemory { used_mb: 3072, total_mb: 8192 }));
    assert_eq!(video_memory(1 << 30, 2 << 30), Some(VideoMemory { used_mb: 1024, total_mb: 1024 }));
    assert_eq!(video_memory(1000, 0), None);
}
