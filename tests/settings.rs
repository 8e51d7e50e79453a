use pulsecore::types::{
    trim_interval_from_minutes, trim_interval_ms, AppSettings, ModuleTogglesPatch,
    OverlayDisplaySettingsPatch, SettingsPatch,
};

#[test]
fn default_settings() {
    let s = AppSettings::default();
    assert_eq!(s.refresh_rate_ms, 500);
    assert_eq!(s.low_power_rate_ms, 2000);
    assert_eq!(s.theme, "cyber-dark");
    assert_eq!(s.accent, "#2b6cee");
    assert_eq!(s.glass_opacity_milli, 750);
    assert_eq!(s.glow_intensity_milli, 400);
    assert_eq!(s.language, "zh-CN");
    assert_eq!(s.speedtest_endpoints.len(), 2);
    assert_eq!(s.history_retention_days, 30);
    assert!(s.module_toggles.show_network);
    assert!(!s.overlay_display.show_hardware_info);
}

#[test]
fn patch_clamps_and_merges() {
    let mut s = AppSettings::default();
    s.apply_patch(SettingsPatch {
        refresh_rate_ms: Some(10),
        low_power_rate_ms: Some(99_999),
        glass_opacity_milli: Some(50),
        glow_intensity_milli: Some(1500),
        history_retention_days: Some(-4),
        theme: Some("light".to_string()),
        speedtest_endpoints: Some(Vec::new()),
        module_toggles: Some(ModuleTogglesPatch { show_gpu: Some(false), ..Default::default() }),
        overlay_display: Some(OverlayDisplaySettingsPatch { show_hardware_info: Some(true), ..Default::default() }),
        ..Default::default()
    });
    assert_eq!(s.refresh_rate_ms, 250);
    assert_eq!(s.low_power_rate_ms, 10000);
    assert_eq!(s.glass_opacity_milli, 200);
    assert_eq!(s.glow_intensity_milli, 1000);
    assert_eq!(s.history_retention_days, 1);
    assert_eq!(s.theme, "light");
    assert_eq!(s.accent, "#2b6cee");
    assert_eq!(s.speedtest_endpoints.len(), 2);
    assert!(!s.module_toggles.show_gpu);
    assert!(s.module_toggles.show_cpu);
    assert!(s.overlay_display.show_hardware_info);
    assert!(s.overlay_display.show_values);

    s.apply_patch(SettingsPatch {
        history_retention_days: Some(1000),
        speedtest_endpoints: Some(vec!["https://example.test/x".to_string()]),
        ..Default::default()
    });
    assert_eq!(s.history_retention_days, 365);
    assert_eq!(s.speedtest_endpoints, vec!["https://example.test/x".to_string()]);
    assert_eq!(s.refresh_rate_ms, 250);
}

#[test]
fn trim_intervals() {
    assert_eq!(trim_interval_ms(1000), 60_000);
    assert_eq!(trim_interval_ms(120_000), 120_000);
    assert_eq!(trim_interval_ms(u64::MAX), 1_800_000);
    assert_eq!(trim_interval_from_minutes(0), (1, 60_000));
    assert_eq!(trim_interval_from_minutes(45), (30, 1_800_000));
    assert_eq!(trim_interval_from_minutes(7), (7, 420_000));
}
