use pulsecore::commands::{
    covers_monitor, find_uninstall_string, normalize_registry_path, split_uninstall_command,
    uninstall_entry_matches, Rect,
    weekday_to_schtasks, UninstallEntry,
};
use pulsecore::schedule::{normalize_shutdown_plan, parse_hhmm, plan_shutdown, ScheduleShutdownRequest};

#[test]
fn weekday_names() {
    assert_eq!(weekday_to_schtasks(1), Ok("MON"));
    assert_eq!(weekday_to_schtasks(7), Ok("SUN"));
    assert_eq!(weekday_to_schtasks(0).unwrap_err(), "weekday must be between 1 and 7");
    assert_eq!(weekday_to_schtasks(8).unwrap_err(), "weekday must be between 1 and 7");
}

#[test]
fn uninstall_command_words() {
    assert_eq!(
        split_uninstall_command("\"C:\\Program Files\\Pulse Core\\uninstall.exe\" /S  --keep"),
        vec!["C:\\Program Files\\Pulse Core\\uninstall.exe".to_string(), "/S".to_string(), "--keep".to_string()]
    );
    assert_eq!(split_uninstall_command("MsiExec.exe\t/X{1234}"), vec!["MsiExec.exe".to_string(), "/X{1234}".to_string()]);
    assert!(split_uninstall_command("   ").is_empty());
    assert_eq!(split_uninstall_command("a\"b c\"d"), vec!["ab cd".to_string()]);
}

#[test]
fn registry_paths() {
    assert_eq!(normalize_registry_path("  \"C:\\App\\app.exe\",0 "), "C:\\App\\app.exe");
    assert_eq!(normalize_registry_path("C:\\App\\app.exe"), "C:\\App\\app.exe");
    assert_eq!(normalize_registry_path("\" C:\\x.exe \" , 1"), "C:\\x.exe ");
    assert_eq!(normalize_registry_path(""), "");
}

#[test]
fn hhmm_times() {
    assert_eq!(parse_hhmm(" 7:5 "), Ok("07:05".to_string()));
    assert_eq!(parse_hhmm("23:59"), Ok("23:59".to_string()));
    assert_eq!(parse_hhmm("+1:+02"), Ok("01:02".to_string()));
    assert_eq!(parse_hhmm("0700"), Err("time must be in HH:mm format".to_string()));
    assert_eq!(parse_hhmm("1:2:3"), Err("time must be in HH:mm format".to_string()));
    assert_eq!(parse_hhmm("xx:10"), Err("invalid hour in time".to_string()));
    assert_eq!(parse_hhmm(":10"), Err("invalid hour in time".to_string()));
    assert_eq!(parse_hhmm("256:10"), Err("invalid hour in time".to_string()));
    assert_eq!(parse_hhmm("10: 5"), Err("invalid minute in time".to_string()));
    assert_eq!(parse_hhmm("24:00"), Err("time out of range".to_string()));
    assert_eq!(parse_hhmm("12:60"), Err("time out of range".to_string()));
}

fn request(mode: &str) -> ScheduleShutdownRequest {
    ScheduleShutdownRequest {
        mode: mode.to_string(),
        delay_seconds: None,
        execute_at_ms: None,
        time: None,
        weekday: None,
        day_of_month: None,
    }
}

#[test]
fn countdown_plans() {
    let mut r = request(" Countdown ");
    assert_eq!(plan_shutdown(&r, 1000).unwrap_err(), "delaySeconds is required for countdown mode");
    r.delay_seconds = Some(0);
    assert_eq!(plan_shutdown(&r, 1000).unwrap_err(), "countdown must be greater than 0 seconds");
    r.delay_seconds = Some(315_360_001);
    assert_eq!(plan_shutdown(&r, 1000).unwrap_err(), "countdown is too large (max 315360000 seconds)");
    r.delay_seconds = Some(90);
    let p = plan_shutdown(&r, 1000).unwrap();
    assert_eq!(p.mode, "countdown");
    assert_eq!(p.execute_at_ms, Some(91_000));
    assert_eq!(p.countdown_seconds, Some(90));
    assert_eq!(p.created_at_ms, 1000);
    assert!(p.time.is_none());
}

#[test]
fn once_plans() {
    let mut r = request("once");
    assert_eq!(plan_shutdown(&r, 5000).unwrap_err(), "executeAt is required for once mode");
    r.execute_at_ms = Some(5000);
    assert_eq!(plan_shutdown(&r, 5000).unwrap_err(), "executeAt must be in the future");
    r.execute_at_ms = Some(5400);
    let p = plan_shutdown(&r, 5000).unwrap();
    assert_eq!(p.countdown_seconds, Some(1));
    assert_eq!(p.execute_at_ms, Some(5400));
    r.execute_at_ms = Some(65_000);
    assert_eq!(plan_shutdown(&r, 5000).unwrap().countdown_seconds, Some(60));
}

#[test]
fn repeat_plans() {
    let mut r = request("WEEKLY");
    assert_eq!(plan_shutdown(&r, 0).unwrap_err(), "time is required for repeat mode");
    r.time = Some("25:00".to_string());
    assert_eq!(plan_shutdown(&r, 0).unwrap_err(), "time out of range");
    r.time = Some("7:30".to_string());
    assert_eq!(plan_shutdown(&r, 0).unwrap_err(), "weekday is required for weekly repeat");
    r.weekday = Some(9);
    assert_eq!(plan_shutdown(&r, 0).unwrap_err(), "weekday must be between 1 and 7");
    r.weekday = Some(5);
    let p = plan_shutdown(&r, 0).unwrap();
    assert_eq!(p.mode, "weekly");
    assert_eq!(p.time.as_deref(), Some("07:30"));
    assert_eq!(p.weekday, Some(5));
    assert!(p.execute_at_ms.is_none());

    let mut m = request("monthly");
    m.time = Some("23:00".to_string());
    assert_eq!(plan_shutdown(&m, 0).unwrap_err(), "dayOfMonth is required for monthly repeat");
    m.day_of_month = Some(32);
    assert_eq!(plan_shutdown(&m, 0).unwrap_err(), "dayOfMonth must be between 1 and 31");
    m.day_of_month = Some(31);
    assert_eq!(plan_shutdown(&m, 0).unwrap().day_of_month, Some(31));

    let mut d = request("daily");
    d.time = Some("06:05".to_string());
    assert_eq!(plan_shutdown(&d, 0).unwrap().time.as_deref(), Some("06:05"));
    assert_eq!(plan_shutdown(&request("hourly"), 0).unwrap_err(), "unsupported schedule mode");
}

#[test]
fn stale_one_off_plans_dropped() {
    let mut r = request("countdown");
    r.delay_seconds = Some(10);
    let p = plan_shutdown(&r, 0).unwrap();
    assert!(normalize_shutdown_plan(p, 10_000).is_none());
    let p2 = plan_shutdown(&r, 0).unwrap();
    assert!(normalize_shutdown_plan(p2, 9_999).is_some());
    let mut d = request("daily");
    d.time = Some("01:00".to_string());
    let p3 = plan_shutdown(&d, 0).unwrap();
    assert!(normalize_shutdown_plan(p3, i64::MAX).is_some());
}

fn entry(u: Option<&str>, icon: Option<&str>, loc: Option<&str>, name: Option<&str>) -> UninstallEntry {
    UninstallEntry {
        uninstall_string: u.map(str::to_string),
        display_icon: icon.map(str::to_string),
        install_location: loc.map(str::to_string),
        display_name: name.map(str::to_string),
    }
}

#[test]
fn uninstall_entry_by_icon_location_or_name() {
    let exe = "C:\\Program Files\\PulseCore\\pulsecore.exe";
    let dir = "C:\\Program Files\\PulseCore";
    assert!(uninstall_entry_matches(&entry(Some("u"), Some("\"c:\\program files\\pulsecore\\PULSECORE.EXE\",0"), None, None), exe, dir));
    assert!(uninstall_entry_matches(&entry(Some("u"), Some("C:\\PROGRAM FILES\\PULSECORE\\icon.ico"), None, None), exe, dir));
    assert!(uninstall_entry_matches(&entry(Some("u"), None, Some("C:\\Program Files\\PulseCore\\\\"), None), exe, dir));
    assert!(!uninstall_entry_matches(&entry(Some("u"), None, Some("C:\\Program Files\\Pulse"), None), exe, dir));
    assert!(uninstall_entry_matches(&entry(Some("u"), None, None, Some("Pulse Core Lite")), exe, dir));
    assert!(!uninstall_entry_matches(&entry(None, Some(exe), None, None), exe, dir));
    assert!(!uninstall_entry_matches(&entry(Some("u"), Some("D:\\other.exe"), None, Some("Other")), exe, ""));
}

#[test]
fn first_matching_uninstall_string() {
    let exe = "C:\\Apps\\PulseCore\\pulsecore.exe";
    let entries = vec![
        entry(Some("other.exe /x"), None, None, Some("Other Tool")),
        entry(Some("\"C:\\Apps\\PulseCore\\uninstall.exe\""), None, Some("C:\\Apps\\PulseCore"), None),
        entry(Some("second"), None, None, Some("PulseCore")),
    ];
    assert_eq!(
        find_uninstall_string(&entries, exe, "C:\\Apps\\PulseCore"),
        Some("\"C:\\Apps\\PulseCore\\uninstall.exe\"".to_string())
    );
    let only_other = vec![entry(Some("other.exe /x"), None, None, Some("Other Tool"))];
    assert_eq!(find_uninstall_string(&only_other, exe, ""), None);
}

#[test]
fn fullscreen_window_test() {
    let mon = Rect { left: 0, top: 0, right: 1920, bottom: 1080 };
    assert!(covers_monitor(Rect { left: 0, top: 0, right: 1920, bottom: 1080 }, mon));
    assert!(covers_monitor(Rect { left: -8, top: -8, right: 1928, bottom: 1088 }, mon));
    assert!(covers_monitor(Rect { left: 0, top: 0, right: 1882, bottom: 1059 }, mon));
    assert!(!covers_monitor(Rect { left: 0, top: 0, right: 1881, bottom: 1080 }, mon));
    assert!(!covers_monitor(Rect { left: 0, top: 0, right: 1920, bottom: 1040 }, mon));
    assert!(!covers_monitor(Rect { left: 10, top: 10, right: 10, bottom: 500 }, mon));
    assert!(!covers_monitor(mon, Rect { left: 0, top: 0, right: 0, bottom: 0 }));
}
