use pulsecore::proctree::{process_subtree, ProcessRow};

fn row(pid: u32, parent: Option<u32>) -> ProcessRow {
    ProcessRow {
        pid,
        parent,
        name: format!("p{pid}"),
        memory_bytes: 0,
        cpu_time_ms: 0,
        cpu_usage_bp: 0,
    }
}

#[test]
fn subtree_of_root_with_descendants() {
    let rows = vec![
        row(1, None),
        row(10, Some(1)),
        row(11, Some(10)),
        row(12, Some(10)),
        row(13, Some(11)),
        row(20, Some(1)),
    ];
    let t = process_subtree(&rows, 10);
    assert_eq!(t[0], 10);
    let mut sorted = t.clone();
    sorted.sort();
    assert_eq!(sorted, vec![10, 11, 12, 13]);
}

#[test]
fn cycle_terminates_without_duplicates() {
    let rows = vec![row(1, Some(2)), row(2, Some(1))];
    let t = process_subtree(&rows, 1);
    assert_eq!(t, vec![1, 2]);
}

#[test]
fn self_parent_and_duplicate_rows() {
    let rows = vec![row(5, Some(5)), row(6, Some(5)), row(6, Some(5)), row(7, Some(6))];
    let t = process_subtree(&rows, 5);
    assert_eq!(t, vec![5, 6, 7]);
}

#[test]
fn root_missing_from_table() {
    let rows = vec![row(3, Some(4))];
    assert_eq!(process_subtree(&rows, 99), vec![99]);
    assert_eq!(process_subtree(&Vec::new(), 1), vec![1]);
}
