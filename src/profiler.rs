//! Profiler sidecar: the capture session's state machine and the
//! per-process rows of each record. Opening the destination, ticking and
//! writing records is the runtime's part.
use vstd::prelude::*;
use crate::cache::{elapsed_ms, elapsed_ms_of};
use crate::proctree::{contains_pid, in_subtree, process_subtree, ProcessRow};
use crate::text::{has_infix, lower_of, lowercase, str_contains};

verus! {

pub const MIN_SAMPLE_INTERVAL_MS: u64 = 200;
pub const MAX_SAMPLE_INTERVAL_MS: u64 = 10000;
pub const MIN_CAPTURE_DURATION_MS: u64 = 200;

/// What a capture looks like from outside; all empty or zero while inactive.
#[derive(Debug)]
pub struct ProfileStatus {
    pub active: bool,
    pub path: Option<String>,
    /// Wall-clock start, milliseconds since the Unix epoch.
    pub started_at_ms: Option<i64>,
    pub samples: u64,
}

/// A capture in progress.
#[derive(Debug)]
pub struct ActiveCapture {
    pub path: String,
    pub started_at_ms: i64,
    /// Monotonic clock at the start, milliseconds.
    pub started_mono_ms: u64,
    pub interval_ms: u64,
    pub max_duration_ms: Option<u64>,
    pub samples: u64,
}

#[derive(Debug, Clone, Copy, PartialEq, Eq, Structural)]
pub enum ProfilerError {
    AlreadyActive,
}

impl ProfilerError {
    pub fn message(&self) -> (r: String)
        ensures
            r@ == "Profile capture already running."@,
    {
        String::from_str("Profile capture already running.")
    }
}

pub open spec fn clamped_interval(ms: u64) -> u64 {
    if ms < MIN_SAMPLE_INTERVAL_MS {
        MIN_SAMPLE_INTERVAL_MS
    } else if ms > MAX_SAMPLE_INTERVAL_MS {
        MAX_SAMPLE_INTERVAL_MS
    } else {
        ms
    }
}

pub open spec fn floored_duration(d: Option<u64>) -> Option<u64> {
    match d {
        Some(v) => Some(if v < MIN_CAPTURE_DURATION_MS { MIN_CAPTURE_DURATION_MS } else { v }),
        None => None,
    }
}

/// At most one capture at a time.
pub struct Profiler {
    pub active: Option<ActiveCapture>,
}

impl Profiler {
    pub open spec fn status_of(&self, s: ProfileStatus) -> bool {
        match self.active {
            Some(a) => s.active && s.path == Some(a.path) && s.started_at_ms == Some(a.started_at_ms)
                && s.samples == a.samples,
            None => !s.active && s.path.is_none() && s.started_at_ms.is_none() && s.samples == 0,
        }
    }

    pub fn new() -> (r: Profiler)
        ensures
            r.active.is_none(),
    {
        Profiler { active: None }
    }

    pub fn status(&self) -> (r: ProfileStatus)
        ensures
            self.status_of(r),
    {
        match &self.active {
            Some(a) => ProfileStatus {
                active: true,
                path: Some(a.path.clone()),
                started_at_ms: Some(a.started_at_ms),
                samples: a.samples,
            },
            None => ProfileStatus { active: false, path: None, started_at_ms: None, samples: 0 },
        }
    }

    /// Begin a capture into `path` (already opened by the caller). Fails
    /// when one is running; clamps the interval to `[200, 10000]` ms and
    /// floors the duration at 200 ms.
    pub fn start(
        &mut self,
        path: String,
        interval_ms: u64,
        duration_ms: Option<u64>,
        started_at_ms: i64,
        now_ms: u64,
    ) -> (r: Result<ProfileStatus, ProfilerError>)
        ensures
            old(self).active.is_some() <==> r == Err::<ProfileStatus, ProfilerError>(
                ProfilerError::AlreadyActive,
            ),
            old(self).active.is_some() ==> final(self).active == old(self).active,
            old(self).active.is_none() ==> {
                &&& final(self).active == Some(
                    ActiveCapture {
                        path,
                        started_at_ms,
                        started_mono_ms: now_ms,
                        interval_ms: clamped_interval(interval_ms),
                        max_duration_ms: floored_duration(duration_ms),
                        samples: 0,
                    },
                )
                &&& r is Ok
                &&& final(self).status_of(r->Ok_0)
            },
    {
        if self.active.is_some() {
            return Err(ProfilerError::AlreadyActive);
        }
        let interval = if interval_ms < MIN_SAMPLE_INTERVAL_MS {
            MIN_SAMPLE_INTERVAL_MS
        } else if interval_ms > MAX_SAMPLE_INTERVAL_MS {
            MAX_SAMPLE_INTERVAL_MS
        } else {
            interval_ms
        };
        let duration = match duration_ms {
            Some(v) => Some(if v < MIN_CAPTURE_DURATION_MS { MIN_CAPTURE_DURATION_MS } else { v }),
            None => None,
        };
        self.active = Some(
            ActiveCapture {
                path,
                started_at_ms,
                started_mono_ms: now_ms,
                interval_ms: interval,
                max_duration_ms: duration,
                samples: 0,
            },
        );
        Ok(self.status())
    }

    /// The capture should take a sample at this tick: it is running, no stop
    /// was requested, and its maximum duration has not elapsed.
    pub open spec fn should_sample(&self, now_ms: u64, stop_requested: bool) -> bool {
        match self.active {
            Some(a) => !stop_requested && match a.max_duration_ms {
                Some(d) => elapsed_ms(a.started_mono_ms, now_ms) < d,
                None => true,
            },
            None => false,
        }
    }

    pub fn on_tick(&self, now_ms: u64, stop_requested: bool) -> (r: bool)
        ensures
            r == self.should_sample(now_ms, stop_requested),
    {
        match &self.active {
            Some(a) => !stop_requested && match a.max_duration_ms {
                Some(d) => elapsed_ms_of(a.started_mono_ms, now_ms) < d,
                None => true,
            },
            None => false,
        }
    }

    /// Count one record written.
    pub fn record_sample(&mut self)
        ensures
            match (old(self).active, final(self).active) {
                (Some(a), Some(b)) => b == (ActiveCapture {
                    samples: if a.samples < u64::MAX { (a.samples + 1) as u64 } else { a.samples },
                    ..a
                }),
                (None, None) => true,
                _ => false,
            },
    {
        match &mut self.active {
            Some(a) => {
                if a.samples < u64::MAX {
                    a.samples = a.samples + 1;
                }
            },
            None => {},
        }
    }

    /// End the capture: the final status keeps its path, start and sample
    /// count but is no longer active. Without a capture, everything is empty.
    pub fn stop(&mut self) -> (r: ProfileStatus)
        ensures
            final(self).active.is_none(),
            !r.active,
            match old(self).active {
                Some(a) => r.path == Some(a.path) && r.started_at_ms == Some(a.started_at_ms)
                    && r.samples == a.samples,
                None => r.path.is_none() && r.started_at_ms.is_none() && r.samples == 0,
            },
    {
        let taken = self.active.take();
        match taken {
            Some(a) => ProfileStatus {
                active: false,
                path: Some(a.path),
                started_at_ms: Some(a.started_at_ms),
                samples: a.samples,
            },
            None => ProfileStatus { active: false, path: None, started_at_ms: None, samples: 0 },
        }
    }
}

/// What a process of the application's subtree is.
#[derive(Debug, Clone, Copy, PartialEq, Eq, Structural)]
pub enum ProcessKind {
    WebView,
    App,
    Child,
}

impl ProcessKind {
    pub open spec fn name(self) -> Seq<char> {
        match self {
            ProcessKind::WebView => "webview"@,
            ProcessKind::App => "app"@,
            ProcessKind::Child => "child"@,
        }
    }

    pub fn as_str(&self) -> (r: &'static str)
        ensures
            r@ == self.name(),
    {
        match self {
            ProcessKind::WebView => "webview",
            ProcessKind::App => "app",
            ProcessKind::Child => "child",
        }
    }
}

/// The kind named by an already lower-cased process name.
pub open spec fn kind_of(lower: Seq<char>) -> ProcessKind {
    if has_infix(lower, "msedgewebview2"@) {
        ProcessKind::WebView
    } else if has_infix(lower, "pulsecore"@) {
        ProcessKind::App
    } else {
        ProcessKind::Child
    }
}

/// Classify an already lower-cased process name.
pub fn classify_lowered(lower: &str) -> (r: ProcessKind)
    ensures
        r == kind_of(lower@),
{
    proof {
        reveal_strlit("msedgewebview2");
        reveal_strlit("pulsecore");
    }
    if str_contains(lower, "msedgewebview2") {
        ProcessKind::WebView
    } else if str_contains(lower, "pulsecore") {
        ProcessKind::App
    } else {
        ProcessKind::Child
    }
}

/// Classify a process by its name, ignoring case.
pub fn classify_process(name: &str) -> (r: String)
    ensures
        r@ == kind_of(lower_of(name@)).name(),
{
    let lower = lowercase(name);
    let kind = classify_lowered(lower.as_str());
    String::from_str(kind.as_str())
}

/// One process row of a profile record.
#[derive(Debug)]
pub struct ProcessSample {
    pub pid: u32,
    pub name: String,
    pub parent_pid: Option<u32>,
    pub memory_bytes: u64,
    pub cpu_usage_bp: u64,
    pub kind: ProcessKind,
}

pub open spec fn sample_of(row: ProcessRow) -> ProcessSample {
    ProcessSample {
        pid: row.pid,
        name: row.name,
        parent_pid: row.parent,
        memory_bytes: row.memory_bytes,
        cpu_usage_bp: row.cpu_usage_bp,
        kind: kind_of(lower_of(row.name@)),
    }
}

/// Samples of the rows whose pid lies in `root`'s subtree, in table order.
pub open spec fn subtree_samples(rows: Seq<ProcessRow>, all: Seq<ProcessRow>, root: u32) -> Seq<ProcessSample>
    decreases rows.len(),
{
    if rows.len() == 0 {
        Seq::empty()
    } else {
        let rest = subtree_samples(rows.drop_last(), all, root);
        if in_subtree(all, root, rows.last().pid) {
            rest.push(sample_of(rows.last()))
        } else {
            rest
        }
    }
}

/// No two rows of the table name the same process.
pub open spec fn unique_pids(rows: Seq<ProcessRow>) -> bool {
    forall|a: int, b: int| 0 <= a < b < rows.len() ==> rows[a].pid != rows[b].pid
}

pub open spec fn by_memory_desc(s: Seq<ProcessSample>) -> bool {
    forall|a: int, b: int| 0 <= a < b < s.len() ==> s[a].memory_bytes >= s[b].memory_bytes
}

fn sample_row(row: &ProcessRow) -> (r: ProcessSample)
    ensures
        r == sample_of(*row),
{
    let lower = lowercase(row.name.as_str());
    ProcessSample {
        pid: row.pid,
        name: row.name.clone(),
        parent_pid: row.parent,
        memory_bytes: row.memory_bytes,
        cpu_usage_bp: row.cpu_usage_bp,
        kind: classify_lowered(lower.as_str()),
    }
}

proof fn lemma_insert_multiset(s: Seq<ProcessSample>, p: int, x: ProcessSample)
    requires
        0 <= p <= s.len(),
    ensures
        s.insert(p, x).to_multiset() == s.to_multiset().insert(x),
{
    let a = s.subrange(0, p);
    let b = s.subrange(p, s.len() as int);
    assert(s =~= a + b);
    vstd::seq_lib::lemma_multiset_commutative(a, b);
    vstd::seq_lib::lemma_multiset_commutative(a.push(x), b);
    a.to_multiset_ensures();
    assert(s.insert(p, x) =~= a.push(x) + b);
    assert(s.insert(p, x).to_multiset() =~= s.to_multiset().insert(x));
}

/// Insert `x` after every sample with at least as much memory.
fn insert_by_memory(out: &mut Vec<ProcessSample>, x: ProcessSample)
    requires
        by_memory_desc(old(out)@),
    ensures
        by_memory_desc(final(out)@),
        final(out)@.to_multiset() == old(out)@.to_multiset().insert(x),
        exists|p: int| 0 <= p <= old(out)@.len() && final(out)@ == old(out)@.insert(p, x),
{
    let mut p: usize = 0;
    while p < out.len() && out[p].memory_bytes >= x.memory_bytes
        invariant
            0 <= p <= out@.len(),
            forall|k: int| 0 <= k < p ==> out@[k].memory_bytes >= x.memory_bytes,
        decreases out@.len() - p,
    {
        p += 1;
    }
    let ghost before = out@;
    proof {
        before.insert_ensures(p as int, x);
        lemma_insert_multiset(before, p as int, x);
    }
    out.insert(p, x);
    proof {
        let s = out@;
        assert forall|a: int, b: int| 0 <= a < b < s.len() implies s[a].memory_bytes
            >= s[b].memory_bytes by {
            if b < p {
                assert(s[a] == before[a] && s[b] == before[b]);
            } else if b == p {
                assert(s[a] == before[a]);
            } else if a < p {
                assert(s[a] == before[a] && s[b] == before[b - 1]);
                if p < before.len() {
                    assert(before[p as int].memory_bytes < x.memory_bytes);
                    assert(before[a].memory_bytes >= before[b - 1].memory_bytes);
                }
            } else if a == p {
                assert(s[b] == before[b - 1]);
                assert(before[p as int].memory_bytes < x.memory_bytes);
                assert(before[p as int].memory_bytes >= before[b - 1].memory_bytes || b - 1 == p);
            } else {
                assert(s[a] == before[a - 1] && s[b] == before[b - 1]);
            }
        }
    }
}

/// The process rows of `root`'s subtree as profile samples, largest memory
/// first: a reordering of the subtree's rows, each classified by name.
pub fn collect_process_samples(rows: &Vec<ProcessRow>, root: u32) -> (r: Vec<ProcessSample>)
    ensures
        by_memory_desc(r@),
        r@.to_multiset() == subtree_samples(rows@, rows@, root).to_multiset(),
        unique_pids(rows@) ==> forall|a: int, b: int|
            0 <= a < b < r@.len() ==> r@[a].pid != r@[b].pid,
{
    let tree = process_subtree(rows, root);
    let mut out: Vec<ProcessSample> = Vec::new();
    let mut i: usize = 0;
    while i < rows.len()
        invariant
            0 <= i <= rows@.len(),
            forall|x: u32| tree@.contains(x) <==> in_subtree(rows@, root, x),
            by_memory_desc(out@),
            out@.to_multiset() == subtree_samples(rows@.subrange(0, i as int), rows@, root).to_multiset(),
            forall|k: int| 0 <= k < out@.len() ==> exists|j: int| 0 <= j < i && rows@[j].pid == (#[trigger] out@[k]).pid,
            unique_pids(rows@) ==> forall|a: int, b: int|
                0 <= a < b < out@.len() ==> out@[a].pid != out@[b].pid,
        decreases rows@.len() - i,
    {
        proof {
            assert(rows@.subrange(0, i + 1).drop_last() =~= rows@.subrange(0, i as int));
        }
        if contains_pid(&tree, rows[i].pid) {
            let smp = sample_row(&rows[i]);
            let ghost before = out@;
            let ghost x = smp;
            insert_by_memory(&mut out, smp);
            proof {
                subtree_samples(rows@.subrange(0, i as int), rows@, root).to_multiset_ensures();
                let p = choose|p: int| 0 <= p <= before.len() && out@ == before.insert(p, x);
                before.insert_ensures(p, x);
                assert(x.pid == rows@[i as int].pid);
                assert forall|k: int| 0 <= k < out@.len() implies exists|j: int|
                    0 <= j < i + 1 && rows@[j].pid == (#[trigger] out@[k]).pid by {
                    if k < p {
                        assert(out@[k] == before[k]);
                    } else if k > p {
                        assert(out@[k] == before[k - 1]);
                    } else {
                        assert(rows@[i as int].pid == out@[k].pid);
                    }
                }
                if unique_pids(rows@) {
                    assert forall|k: int| 0 <= k < before.len() implies before[k].pid != x.pid by {
                        let j = choose|j: int| 0 <= j < i && rows@[j].pid == (#[trigger] before[k]).pid;
                    }
                    assert forall|a: int, b: int| 0 <= a < b < out@.len() implies out@[a].pid
                        != out@[b].pid by {
                        if b < p {
                            assert(out@[a] == before[a] && out@[b] == before[b]);
                        } else if b == p {
                            assert(out@[a] == before[a]);
                        } else if a < p {
                            assert(out@[a] == before[a] && out@[b] == before[b - 1]);
                        } else if a == p {
                            assert(out@[b] == before[b - 1]);
                        } else {
                            assert(out@[a] == before[a - 1] && out@[b] == before[b - 1]);
                        }
                    }
                }
            }
        }
        i += 1;
    }
    assert(rows@.subrange(0, rows@.len() as int) =~= rows@);
    out
}

} // verus!
