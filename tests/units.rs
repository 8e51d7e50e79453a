use pulsecore::ema::Ema;
use pulsecore::measure::{bytes_to_mib, clamp_bp_of, counter_delta_of, per_second_of, ratio_bp_of};
use pulsecore::text::{chars_of, contains_chars, push_decimal, str_contains, to_wide};
use pulsecore::types::{Mode, OverlayDisplaySettings};

#[test]
fn mode_names() {
    assert_eq!(Mode::Normal.as_str(), "normal");
    assert_eq!(Mode::LowPower.as_str(), "low_power");
}

#[test]
fn overlay_display_defaults() {
    let d = OverlayDisplaySettings::default();
    assert!(d.show_values);
    assert!(d.show_percent);
    assert!(!d.show_hardware_info);
}

#[test]
fn ratio_in_basis_points() {
    assert_eq!(ratio_bp_of(1, 3), 3333);
    assert_eq!(ratio_bp_of(1, 2), 5000);
    assert_eq!(ratio_bp_of(5, 0), 0);
    assert_eq!(ratio_bp_of(7, 5), 10000);
    assert_eq!(ratio_bp_of(0, 9), 0);
    assert_eq!(ratio_bp_of(u64::MAX - 1, u64::MAX), 9999);
}

#[test]
fn clamp_and_delta() {
    assert_eq!(clamp_bp_of(12000), 10000);
    assert_eq!(clamp_bp_of(4321), 4321);
    assert_eq!(counter_delta_of(100, 250), 150);
    assert_eq!(counter_delta_of(250, 100), 0);
    assert_eq!(bytes_to_mib(3 * 1048576 + 5), 3);
}

#[test]
fn rate_per_second() {
    assert_eq!(per_second_of(1000, 500), 2000);
    assert_eq!(per_second_of(5, 0), 5000);
    assert_eq!(per_second_of(0, 0), 0);
    assert_eq!(per_second_of(u64::MAX, 1), u64::MAX);
}

#[test]
fn ema_steps_round_towards_raw() {
    let mut e = Ema::new(3, 10);
    assert_eq!(e.update(50), 50);
    assert_eq!(e.update(100), 65);
    assert_eq!(e.update(0), 45);
    assert_eq!(e.update(45), 45);
}

#[test]
fn ema_reaches_constant_input() {
    let mut e = Ema::new(3, 10);
    e.update(0);
    let mut last = 0;
    for _ in 0..26 {
        last = e.update(7000);
    }
    assert_eq!(last, 7000);
    let mut a = Ema::new(1, 4);
    a.update(10000);
    let mut v = 10000;
    for _ in 0..33 {
        v = a.update(0);
    }
    assert_eq!(v, 0);
}

#[test]
fn ema_within_tolerance_after_few_samples() {
    let mut e = Ema::new(3, 10);
    e.update(0);
    let mut v = 0;
    for _ in 0..10 {
        v = e.update(5000);
    }
    assert!(5000 - v <= 5000 * 3 / 100);
}

#[test]
fn decimal_digits() {
    let mut s = String::from("n=");
    push_decimal(&mut s, 0);
    assert_eq!(s, "n=0");
    let mut t = String::new();
    push_decimal(&mut t, 1234567890);
    assert_eq!(t, "1234567890");
    let mut u = String::new();
    push_decimal(&mut u, u64::MAX);
    assert_eq!(u, u64::MAX.to_string());
}

#[test]
fn substring_search() {
    assert!(str_contains("cpu package id 0", "package"));
    assert!(!str_contains("acpitz", "cpu"));
    assert!(str_contains("abc", ""));
    assert!(!str_contains("ab", "abc"));
    let hay = chars_of("héllo wörld");
    assert_eq!(hay.len(), 11);
    assert!(contains_chars(&hay, &chars_of("wö")));
}

#[test]
fn wide_strings() {
    assert_eq!(to_wide("A€😀"), vec![0x41, 0x20AC, 0xD83D, 0xDE00, 0]);
    assert_eq!(to_wide(""), vec![0]);
    let s = "Software\\Microsoft\\Windows";
    let mut expected: Vec<u16> = s.encode_utf16().collect();
    expected.push(0);
    assert_eq!(to_wide(s), expected);
}
