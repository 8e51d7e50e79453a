//! Process Tree Resolver: the subtree of the process table rooted at one process.
use vstd::prelude::*;

verus! {

/// One row of the OS process table, in plain units.
#[derive(Debug)]
pub struct ProcessRow {
    pub pid: u32,
    pub parent: Option<u32>,
    pub name: String,
    pub memory_bytes: u64,
    /// Cumulative CPU time of the process in milliseconds.
    pub cpu_time_ms: u64,
    /// Current CPU load of the process in basis points of one core.
    pub cpu_usage_bp: u64,
}

/// Row `j` records `c` as a child of `p`.
pub open spec fn is_link(rows: Seq<ProcessRow>, j: int, p: u32, c: u32) -> bool {
    0 <= j < rows.len() && rows[j].parent == Some(p) && rows[j].pid == c
}

pub open spec fn is_edge(rows: Seq<ProcessRow>, p: u32, c: u32) -> bool {
    exists|j: int| #[trigger] is_link(rows, j, p, c)
}

/// `path` walks from parent to child at every step.
pub open spec fn is_path(rows: Seq<ProcessRow>, path: Seq<u32>) -> bool {
    &&& path.len() >= 1
    &&& forall|k: int| 0 <= k < path.len() - 1 ==> is_edge(rows, #[trigger] path[k], path[k + 1])
}

/// `x` is `root` or one of its transitive children in the table.
pub open spec fn in_subtree(rows: Seq<ProcessRow>, root: u32, x: u32) -> bool {
    exists|path: Seq<u32>| is_path(rows, path) && path[0] == root && path.last() == x
}

/// The pids named by the rows.
pub open spec fn row_pids(rows: Seq<ProcessRow>) -> Seq<u32> {
    rows.map_values(|r: ProcessRow| r.pid)
}

proof fn lemma_root_in_subtree(rows: Seq<ProcessRow>, root: u32)
    ensures
        in_subtree(rows, root, root),
{
    let path = seq![root];
    assert(is_path(rows, path));
    assert(path[0] == root && path.last() == root);
}

proof fn lemma_child_in_subtree(rows: Seq<ProcessRow>, root: u32, j: int, p: u32, c: u32)
    requires
        in_subtree(rows, root, p),
        is_link(rows, j, p, c),
    ensures
        in_subtree(rows, root, c),
{
    let path = choose|path: Seq<u32>| is_path(rows, path) && path[0] == root && path.last() == p;
    let np = path.push(c);
    assert forall|k: int| 0 <= k < np.len() - 1 implies is_edge(rows, #[trigger] np[k], np[k + 1]) by {
        if k < path.len() - 1 {
            assert(np[k] == path[k] && np[k + 1] == path[k + 1]);
        } else {
            assert(np[k] == p && np[k + 1] == c);
        }
    }
    assert(is_path(rows, np));
    assert(np[0] == root && np.last() == c);
}

/// The row's parent is listed in `out`.
pub open spec fn parent_in(row: ProcessRow, out: Seq<u32>) -> bool {
    match row.parent {
        Some(p) => out.contains(p),
        None => false,
    }
}

/// A set that holds a path's first step and every child of its members holds the path's end.
proof fn lemma_closed_holds_path(rows: Seq<ProcessRow>, out: Seq<u32>, path: Seq<u32>)
    requires
        is_path(rows, path),
        out.contains(path[0]),
        forall|j: int|
            0 <= j < rows.len() && parent_in(#[trigger] rows[j], out) ==> out.contains(rows[j].pid),
    ensures
        out.contains(path.last()),
    decreases path.len(),
{
    if path.len() > 1 {
        let pre = path.drop_last();
        assert forall|k: int| 0 <= k < pre.len() - 1 implies is_edge(rows, #[trigger] pre[k], pre[k + 1]) by {
            assert(pre[k] == path[k] && pre[k + 1] == path[k + 1]);
        }
        lemma_closed_holds_path(rows, out, pre);
        let n = path.len() - 2;
        assert(is_edge(rows, path[n], path[n + 1]));
        let j = choose|j: int| #[trigger] is_link(rows, j, path[n], path[n + 1]);
        assert(parent_in(rows[j], out));
        assert(out.contains(rows[j].pid));
    }
}

/// A duplicate-free list whose members past the first are pids of the rows
/// is at most one longer than the rows.
proof fn lemma_distinct_bounded(rows: Seq<ProcessRow>, out: Seq<u32>)
    requires
        out.len() >= 1,
        out.no_duplicates(),
        forall|k: int| 1 <= k < out.len() ==> row_pids(rows).contains(#[trigger] out[k]),
    ensures
        out.len() <= rows.len() + 1,
{
    let tail = out.subrange(1, out.len() as int);
    assert forall|a: int, b: int| 0 <= a < tail.len() && 0 <= b < tail.len() && a != b implies tail[a]
        != tail[b] by {
        assert(tail[a] == out[a + 1] && tail[b] == out[b + 1]);
    }
    assert(tail.no_duplicates());
    tail.unique_seq_to_set();
    row_pids(rows).lemma_cardinality_of_set();
    assert forall|x: u32| tail.to_set().contains(x) implies row_pids(rows).to_set().contains(x) by {
        let k = choose|k: int| 0 <= k < tail.len() && tail[k] == x;
        assert(out[k + 1] == x);
    }
    vstd::set_lib::lemma_len_subset(tail.to_set(), row_pids(rows).to_set());
    assert(row_pids(rows).len() == rows.len());
}

/// Whether `x` is listed in `v`.
pub fn contains_pid(v: &Vec<u32>, x: u32) -> (r: bool)
    ensures
        r == v@.contains(x),
{
    let mut i: usize = 0;
    while i < v.len()
        invariant
            0 <= i <= v.len(),
            forall|k: int| 0 <= k < i ==> v@[k] != x,
        decreases v.len() - i,
    {
        if v[i] == x {
            return true;
        }
        i += 1;
    }
    false
}

/// The process ids of `root` and all of its transitive children in `rows`,
/// `root` first and each id once. A cyclic or malformed parent relation
/// cannot make it loop or repeat an id.
pub fn process_subtree(rows: &Vec<ProcessRow>, root: u32) -> (r: Vec<u32>)
    ensures
        r@.len() >= 1,
        r@[0] == root,
        r@.no_duplicates(),
        forall|x: u32| r@.contains(x) <==> in_subtree(rows@, root, x),
{
    let mut out: Vec<u32> = Vec::new();
    out.push(root);
    proof {
        lemma_root_in_subtree(rows@, root);
    }
    let mut i: usize = 0;
    while i < out.len()
        invariant
            out@.len() >= 1,
            out@[0] == root,
            out@.no_duplicates(),
            0 <= i <= out@.len(),
            forall|k: int| 0 <= k < out@.len() ==> in_subtree(rows@, root, #[trigger] out@[k]),
            forall|k: int| 1 <= k < out@.len() ==> row_pids(rows@).contains(#[trigger] out@[k]),
            forall|k: int, j: int|
                #![trigger out@[k], rows@[j]]
                0 <= k < i && 0 <= j < rows@.len() && rows@[j].parent == Some(out@[k])
                    ==> out@.contains(rows@[j].pid),
        decreases rows@.len() + 1 - i,
    {
        proof {
            lemma_distinct_bounded(rows@, out@);
        }
        let p = out[i];
        let mut j: usize = 0;
        while j < rows.len()
            invariant
                out@.len() >= 1,
                out@[0] == root,
                out@.no_duplicates(),
                0 <= i < out@.len(),
                out@[i as int] == p,
                0 <= j <= rows@.len(),
                forall|k: int| 0 <= k < out@.len() ==> in_subtree(rows@, root, #[trigger] out@[k]),
                forall|k: int| 1 <= k < out@.len() ==> row_pids(rows@).contains(#[trigger] out@[k]),
                forall|k: int, j2: int|
                    #![trigger out@[k], rows@[j2]]
                    0 <= k < i && 0 <= j2 < rows@.len() && rows@[j2].parent == Some(out@[k])
                        ==> out@.contains(rows@[j2].pid),
                forall|j2: int|
                    0 <= j2 < j && (#[trigger] rows@[j2]).parent == Some(p) ==> out@.contains(
                        rows@[j2].pid,
                    ),
            decreases rows@.len() - j,
        {
            let row = &rows[j];
            if row.parent == Some(p) {
                let c = row.pid;
                if !contains_pid(&out, c) {
                    proof {
                        assert(is_link(rows@, j as int, p, c));
                        lemma_child_in_subtree(rows@, root, j as int, p, c);
                        assert(row_pids(rows@)[j as int] == c);
                    }
                    let ghost before = out@;
                    out.push(c);
                    proof {
                        assert forall|x: u32| before.contains(x) implies out@.contains(x) by {
                            let k = choose|k: int| 0 <= k < before.len() && before[k] == x;
                            assert(out@[k] == x);
                        }
                        assert(out@.no_duplicates()) by {
                            assert forall|a: int, b: int|
                                0 <= a < out@.len() && 0 <= b < out@.len() && a != b implies out@[a]
                                != out@[b] by {
                                if a < before.len() && b < before.len() {
                                    assert(before[a] != before[b]);
                                } else if a == before.len() {
                                    assert(before[b] == out@[b]);
                                    assert(before.contains(out@[b]));
                                } else {
                                    assert(before[a] == out@[a]);
                                    assert(before.contains(out@[a]));
                                }
                            }
                        }
                        assert(out@[out@.len() - 1] == c);
                    }
                }
            }
            j += 1;
        }
        i += 1;
    }
    proof {
        assert forall|x: u32| in_subtree(rows@, root, x) implies out@.contains(x) by {
            let path = choose|path: Seq<u32>| is_path(rows@, path) && path[0] == root && path.last() == x;
            assert(out@[0] == root);
            assert forall|j: int|
                0 <= j < rows@.len() && parent_in(#[trigger] rows@[j], out@) implies out@.contains(
                rows@[j].pid) by {
                let p = rows@[j].parent.unwrap();
                let k = choose|k: int| 0 <= k < out@.len() && out@[k] == p;
                assert(rows@[j].parent == Some(out@[k]));
            }
            lemma_closed_holds_path(rows@, out@, path);
        }
    }
    out
}

} // verus!
