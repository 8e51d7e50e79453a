use pulsecore::devinfo::{
    cpu_max_frequency, disk_drive_models, first_nonblank_row, first_wmic_value, gpu_models,
    output_lines, split_lines,
};

fn strings(v: &[&str]) -> Vec<String> {
    v.iter().map(|s| s.to_string()).collect()
}

#[test]
fn lines_split_on_line_feeds() {
    assert_eq!(split_lines("a\nb\r\n\nc"), strings(&["a", "b\r", "", "c"]));
    assert_eq!(split_lines(""), strings(&[""]));
    assert_eq!(split_lines("x\n"), strings(&["x", ""]));
}

#[test]
fn tool_output_lines() {
    assert_eq!(output_lines("  DDR4 3200MHz 32G \r\n\r\n"), Some(strings(&["DDR4 3200MHz 32G"])));
    assert_eq!(output_lines(" \n\t\n"), None);
}

#[test]
fn wmic_values() {
    assert_eq!(first_wmic_value("\r\n\r\nName=\r\nName= NVIDIA GeForce RTX 4070 \r\n"), Some("NVIDIA GeForce RTX 4070".to_string()));
    assert_eq!(first_wmic_value("Product=B650=X\n"), Some("B650=X".to_string()));
    assert_eq!(first_wmic_value("no value here\nkey=  \n"), None);
}

#[test]
fn cpu_frequency_from_first_line() {
    assert_eq!(cpu_max_frequency(&strings(&["3600", "4000"])), Some(3600));
    assert_eq!(cpu_max_frequency(&strings(&["+42"])), Some(42));
    assert_eq!(cpu_max_frequency(&strings(&["fast"])), None);
    assert_eq!(cpu_max_frequency(&strings(&["18446744073709551616"])), None);
    assert_eq!(cpu_max_frequency(&Vec::new()), None);
}

#[test]
fn first_nonblank() {
    assert_eq!(first_nonblank_row(&strings(&["", "  ", " ASUS "])), Some(" ASUS ".to_string()));
    assert_eq!(first_nonblank_row(&strings(&[" "])), None);
}

#[test]
fn disk_models_deduplicated() {
    let rows = strings(&["C:|Samsung SSD 980", " D: | WD Blue ", "C:|Samsung SSD 980", "E:|", "junk"]);
    assert_eq!(
        disk_drive_models(&rows),
        Some(strings(&["C: · Samsung SSD 980", "D: · WD Blue"]))
    );
    assert_eq!(disk_drive_models(&strings(&["|x", "y"])), None);
}

#[test]
fn gpu_names_sorted_unique() {
    let names = strings(&["NVIDIA GeForce RTX 4070", "", "AMD Radeon(TM) Graphics", "NVIDIA GeForce RTX 4070"]);
    assert_eq!(gpu_models(&names), Some("AMD Radeon(TM) Graphics / NVIDIA GeForce RTX 4070".to_string()));
    assert_eq!(gpu_models(&strings(&["", ""])), None);
    assert_eq!(gpu_models(&strings(&["b", "a", "ab"])), Some("a / ab / b".to_string()));
}
