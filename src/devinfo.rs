//! Parsing of the text that the platform's hardware query tools print.
use vstd::prelude::*;
use crate::schedule::{parse_unsigned, parse_unsigned_range};
use crate::text::{before_char, before_char_end, chars_of, strip, strip_range, substring, views};

verus! {

/// Line splitter state: finished lines and the line being read.
pub ghost struct LineScan {
    pub done: Seq<Seq<char>>,
    pub cur: Seq<char>,
}

pub open spec fn line_scan(s: Seq<char>) -> LineScan
    decreases s.len(),
{
    if s.len() == 0 {
        LineScan { done: Seq::empty(), cur: Seq::empty() }
    } else {
        let st = line_scan(s.drop_last());
        if s.last() == '\n' {
            LineScan { done: st.done.push(st.cur), cur: Seq::empty() }
        } else {
            LineScan { cur: st.cur.push(s.last()), ..st }
        }
    }
}

/// The pieces of `s` between line feeds, the last one included even when empty.
pub open spec fn lines(s: Seq<char>) -> Seq<Seq<char>> {
    line_scan(s).done.push(line_scan(s).cur)
}

pub fn split_lines(text: &str) -> (r: Vec<String>)
    ensures
        views(r@) == lines(text@),
{
    let cs = chars_of(text);
    let mut out: Vec<String> = Vec::new();
    let mut start: usize = 0;
    let mut i: usize = 0;
    while i < cs.len()
        invariant
            cs@ == text@,
            0 <= start <= i <= cs@.len(),
            views(out@) == line_scan(cs@.subrange(0, i as int)).done,
            cs@.subrange(start as int, i as int) == line_scan(cs@.subrange(0, i as int)).cur,
        decreases cs@.len() - i,
    {
        proof {
            assert(cs@.subrange(0, i + 1).drop_last() =~= cs@.subrange(0, i as int));
        }
        if cs[i] == '\n' {
            let ghost before = out@;
            out.push(substring(text, start, i));
            proof {
                assert(views(out@) =~= views(before).push(out@.last()@));
                assert(cs@.subrange((i + 1) as int, (i + 1) as int) =~= Seq::<char>::empty());
            }
            start = i + 1;
        } else {
            proof {
                assert(cs@.subrange(start as int, i + 1) =~= cs@.subrange(start as int, i as int).push(cs@[i as int]));
            }
        }
        i += 1;
    }
    assert(cs@.subrange(0, cs@.len() as int) =~= cs@);
    let ghost before = out@;
    out.push(substring(text, start, cs.len()));
    proof {
        assert(views(out@) =~= views(before).push(out@.last()@));
    }
    out
}

/// The lines trimmed, blank ones dropped.
pub open spec fn trimmed_nonblank(ls: Seq<Seq<char>>) -> Seq<Seq<char>>
    decreases ls.len(),
{
    if ls.len() == 0 {
        Seq::empty()
    } else {
        let prev = trimmed_nonblank(ls.drop_last());
        let t = strip(ls.last(), false);
        if t.len() > 0 {
            prev.push(t)
        } else {
            prev
        }
    }
}

/// A tool's output as its trimmed non-blank lines; `None` when there is none.
pub fn output_lines(text: &str) -> (r: Option<Vec<String>>)
    ensures
        ({
            let want = trimmed_nonblank(lines(text@));
            match r {
                Some(v) => want.len() > 0 && views(v@) == want,
                None => want.len() == 0,
            }
        }),
{
    let ls = split_lines(text);
    let mut out: Vec<String> = Vec::new();
    let mut i: usize = 0;
    while i < ls.len()
        invariant
            0 <= i <= ls@.len(),
            views(out@) == trimmed_nonblank(views(ls@.subrange(0, i as int))),
        decreases ls@.len() - i,
    {
        proof {
            assert(views(ls@.subrange(0, i + 1)).drop_last() =~= views(ls@.subrange(0, i as int)));
        }
        let line = &ls[i];
        let cs = chars_of(line.as_str());
        let (a, b) = strip_range(&cs, 0, cs.len(), false);
        assert(cs@.subrange(0, cs@.len() as int) =~= cs@);
        if a < b {
            let ghost before = out@;
            out.push(substring(line.as_str(), a, b));
            proof {
                assert(views(out@) =~= views(before).push(out@.last()@));
            }
        }
        i += 1;
    }
    assert(ls@.subrange(0, ls@.len() as int) =~= ls@);
    if out.len() == 0 {
        None
    } else {
        Some(out)
    }
}

/// The value of a `key=value` line: the trimmed text after the first `=`,
/// when there is an `=` and that text is not blank.
pub open spec fn line_value(line: Seq<char>) -> Option<Seq<char>> {
    let k = before_char(line, '=').len() as int;
    if k >= line.len() {
        None
    } else {
        let v = strip(line.subrange(k + 1, line.len() as int), false);
        if v.len() > 0 {
            Some(v)
        } else {
            None
        }
    }
}

/// The first line that has a value.
pub open spec fn first_value(ls: Seq<Seq<char>>) -> Option<Seq<char>>
    decreases ls.len(),
{
    if ls.len() == 0 {
        None
    } else {
        match first_value(ls.drop_last()) {
            Some(v) => Some(v),
            None => line_value(ls.last()),
        }
    }
}

fn line_value_of(line: &str) -> (r: Option<String>)
    ensures
        match line_value(line@) {
            Some(v) => r matches Some(s) && s@ == v,
            None => r.is_none(),
        },
{
    let cs = chars_of(line);
    let n = cs.len();
    let k = before_char_end(&cs, 0, n, '=');
    assert(cs@.subrange(0, n as int) =~= cs@);
    if k >= n {
        return None;
    }
    let (a, b) = strip_range(&cs, k + 1, n, false);
    if a < b {
        Some(substring(line, a, b))
    } else {
        None
    }
}

/// The first non-blank value of `key=value` output.
pub fn first_wmic_value(raw: &str) -> (r: Option<String>)
    ensures
        match first_value(lines(raw@)) {
            Some(v) => r matches Some(s) && s@ == v,
            None => r.is_none(),
        },
{
    let ls = split_lines(raw);
    let mut i: usize = 0;
    while i < ls.len()
        invariant
            0 <= i <= ls@.len(),
            views(ls@) == lines(raw@),
            first_value(views(ls@.subrange(0, i as int))).is_none(),
        decreases ls@.len() - i,
    {
        proof {
            assert(views(ls@.subrange(0, i + 1)).drop_last() =~= views(ls@.subrange(0, i as int)));
            assert(views(ls@.subrange(0, i + 1)).last() == ls@[i as int]@);
        }
        let v = line_value_of(ls[i].as_str());
        if v.is_some() {
            proof {
                assert(views(ls@).subrange(0, i + 1) =~= views(ls@.subrange(0, i + 1)));
                assert(first_value(views(ls@.subrange(0, i + 1))) == line_value(ls@[i as int]@));
                lemma_first_value_prefix(views(ls@), (i + 1) as int);
            }
            return v;
        }
        i += 1;
    }
    assert(views(ls@.subrange(0, ls@.len() as int)) =~= views(ls@));
    None
}

/// Once a prefix has a value, every longer list has the same first value.
proof fn lemma_first_value_prefix(ls: Seq<Seq<char>>, k: int)
    requires
        0 <= k <= ls.len(),
        first_value(ls.subrange(0, k)).is_some(),
    ensures
        first_value(ls) == first_value(ls.subrange(0, k)),
    decreases ls.len() - k,
{
    if k < ls.len() {
        assert(ls.subrange(0, k + 1).drop_last() =~= ls.subrange(0, k));
        lemma_first_value_prefix(ls, k + 1);
    } else {
        assert(ls.subrange(0, k) =~= ls);
    }
}

/// The maximum CPU clock from a query's output lines: the first line as a number.
pub fn cpu_max_frequency(lines_out: &Vec<String>) -> (r: Option<u64>)
    ensures
        lines_out@.len() == 0 ==> r.is_none(),
        lines_out@.len() > 0 ==> match parse_unsigned(lines_out@[0]@, u64::MAX as int) {
            Some(v) => r == Some(v as u64),
            None => r.is_none(),
        },
{
    if lines_out.len() == 0 {
        return None;
    }
    let cs = chars_of(lines_out[0].as_str());
    assert(cs@.subrange(0, cs@.len() as int) =~= cs@);
    parse_unsigned_range(&cs, 0, cs.len(), u64::MAX)
}

/// The first row that is not blank.
pub open spec fn first_nonblank(rows: Seq<Seq<char>>) -> Option<Seq<char>>
    decreases rows.len(),
{
    if rows.len() == 0 {
        None
    } else if strip(rows[0], false).len() > 0 {
        Some(rows[0])
    } else {
        first_nonblank(rows.drop_first())
    }
}

pub fn first_nonblank_row(rows: &Vec<String>) -> (r: Option<String>)
    ensures
        match first_nonblank(views(rows@)) {
            Some(v) => r matches Some(s) && s@ == v,
            None => r.is_none(),
        },
{
    let mut i: usize = 0;
    assert(rows@.subrange(0, rows@.len() as int) =~= rows@);
    while i < rows.len()
        invariant
            0 <= i <= rows@.len(),
            first_nonblank(views(rows@)) == first_nonblank(views(rows@.subrange(i as int, rows@.len() as int))),
        decreases rows@.len() - i,
    {
        let cs = chars_of(rows[i].as_str());
        let (a, b) = strip_range(&cs, 0, cs.len(), false);
        assert(cs@.subrange(0, cs@.len() as int) =~= cs@);
        let ghost rest = views(rows@.subrange(i as int, rows@.len() as int));
        assert(rest[0] == rows@[i as int]@);
        if a < b {
            return Some(rows[i].clone());
        }
        assert(rest.drop_first() =~= views(rows@.subrange(i + 1, rows@.len() as int)));
        i += 1;
    }
    None
}

/// A `drive|model` row as `drive · model`, both sides trimmed and non-blank.
pub open spec fn disk_item(line: Seq<char>) -> Option<Seq<char>> {
    let k = before_char(line, '|').len() as int;
    if k >= line.len() {
        None
    } else {
        let drive = strip(line.subrange(0, k), false);
        let model = strip(line.subrange(k + 1, line.len() as int), false);
        if drive.len() > 0 && model.len() > 0 {
            Some(drive + " · "@ + model)
        } else {
            None
        }
    }
}

/// The rows' items in order, each once.
pub open spec fn disk_items(ls: Seq<Seq<char>>) -> Seq<Seq<char>>
    decreases ls.len(),
{
    if ls.len() == 0 {
        Seq::empty()
    } else {
        let prev = disk_items(ls.drop_last());
        match disk_item(ls.last()) {
            Some(it) => if prev.contains(it) {
                prev
            } else {
                prev.push(it)
            },
            None => prev,
        }
    }
}

fn disk_item_of(line: &str) -> (r: Option<String>)
    ensures
        match disk_item(line@) {
            Some(v) => r matches Some(s) && s@ == v,
            None => r.is_none(),
        },
{
    let cs = chars_of(line);
    let n = cs.len();
    let k = before_char_end(&cs, 0, n, '|');
    assert(cs@.subrange(0, n as int) =~= cs@);
    if k >= n {
        return None;
    }
    let (a, b) = strip_range(&cs, 0, k, false);
    let (c, d) = strip_range(&cs, k + 1, n, false);
    if a < b && c < d {
        let mut item = substring(line, a, b);
        item.append(" · ");
        item.append(substring(line, c, d).as_str());
        Some(item)
    } else {
        None
    }
}

fn contains_text(v: &Vec<String>, x: &String) -> (r: bool)
    ensures
        r == views(v@).contains(x@),
{
    let mut i: usize = 0;
    while i < v.len()
        invariant
            0 <= i <= v@.len(),
            forall|k: int| 0 <= k < i ==> v@[k]@ != x@,
        decreases v@.len() - i,
    {
        if v[i] == *x {
            assert(views(v@)[i as int] == x@);
            return true;
        }
        i += 1;
    }
    assert forall|k: int| 0 <= k < views(v@).len() implies views(v@)[k] != x@ by {
        assert(views(v@)[k] == v@[k]@);
    }
    false
}

/// The disks of `drive|model` query rows, each once in first-seen order;
/// `None` when no row names one.
pub fn disk_drive_models(rows: &Vec<String>) -> (r: Option<Vec<String>>)
    ensures
        ({
            let want = disk_items(views(rows@));
            match r {
                Some(v) => want.len() > 0 && views(v@) == want,
                None => want.len() == 0,
            }
        }),
{
    let mut out: Vec<String> = Vec::new();
    let mut i: usize = 0;
    while i < rows.len()
        invariant
            0 <= i <= rows@.len(),
            views(out@) == disk_items(views(rows@.subrange(0, i as int))),
        decreases rows@.len() - i,
    {
        proof {
            assert(views(rows@.subrange(0, i + 1)).drop_last() =~= views(rows@.subrange(0, i as int)));
            assert(views(rows@.subrange(0, i + 1)).last() == rows@[i as int]@);
        }
        match disk_item_of(rows[i].as_str()) {
            Some(item) => {
                if !contains_text(&out, &item) {
                    let ghost before = out@;
                    out.push(item);
                    proof {
                        assert(views(out@) =~= views(before).push(out@.last()@));
                    }
                }
            },
            None => {},
        }
        i += 1;
    }
    assert(rows@.subrange(0, rows@.len() as int) =~= rows@);
    if out.len() == 0 {
        None
    } else {
        Some(out)
    }
}

/// The order of `String`s: code points compared left to right, a proper
/// prefix first.
pub open spec fn lex_lt(a: Seq<char>, b: Seq<char>) -> bool
    decreases a.len(),
{
    if a.len() == 0 {
        b.len() > 0
    } else if b.len() == 0 {
        false
    } else if a[0] != b[0] {
        (a[0] as u32) < (b[0] as u32)
    } else {
        lex_lt(a.drop_first(), b.drop_first())
    }
}

proof fn lemma_lex_irrefl(a: Seq<char>)
    ensures
        !lex_lt(a, a),
    decreases a.len(),
{
    if a.len() > 0 {
        lemma_lex_irrefl(a.drop_first());
    }
}

proof fn lemma_lex_total(a: Seq<char>, b: Seq<char>)
    ensures
        a == b || lex_lt(a, b) || lex_lt(b, a),
    decreases a.len(),
{
    if a.len() == 0 && b.len() == 0 {
        assert(a =~= b);
    } else if a.len() == 0 || b.len() == 0 {
    } else if a[0] != b[0] {
        vstd::utf8::char_u32_cast(a[0], a[0] as u32);
        vstd::utf8::char_u32_cast(b[0], b[0] as u32);
    } else {
        lemma_lex_total(a.drop_first(), b.drop_first());
        if a.drop_first() == b.drop_first() {
            assert(a.drop_first().len() == b.drop_first().len());
            assert(a.len() == b.len());
            assert forall|i: int| 0 <= i < a.len() implies a[i] == b[i] by {
                if i > 0 {
                    assert(a[i] == a.drop_first()[i - 1]);
                    assert(b[i] == b.drop_first()[i - 1]);
                }
            }
            assert(a =~= b);
        }
    }
}

proof fn lemma_lex_trans(a: Seq<char>, b: Seq<char>, c: Seq<char>)
    requires
        lex_lt(a, b),
        lex_lt(b, c),
    ensures
        lex_lt(a, c),
    decreases a.len(),
{
    if a.len() > 0 && b.len() > 0 && c.len() > 0 && a[0] == b[0] && b[0] == c[0] {
        lemma_lex_trans(a.drop_first(), b.drop_first(), c.drop_first());
    }
}

pub open spec fn strictly_sorted(s: Seq<Seq<char>>) -> bool {
    forall|i: int, j: int| 0 <= i < j < s.len() ==> lex_lt(#[trigger] s[i], #[trigger] s[j])
}

/// `parts` joined with `sep` between neighbours.
pub open spec fn join(parts: Seq<Seq<char>>, sep: Seq<char>) -> Seq<char>
    decreases parts.len(),
{
    if parts.len() == 0 {
        Seq::empty()
    } else if parts.len() == 1 {
        parts[0]
    } else {
        join(parts.drop_last(), sep) + sep + parts.last()
    }
}

fn lex_less(a: &str, b: &str) -> (r: bool)
    ensures
        r == lex_lt(a@, b@),
{
    let x = chars_of(a);
    let y = chars_of(b);
    let mut i: usize = 0;
    assert(x@.subrange(0, x@.len() as int) =~= x@);
    assert(y@.subrange(0, y@.len() as int) =~= y@);
    while i < x.len() && i < y.len() && x[i] == y[i]
        invariant
            0 <= i <= x@.len(),
            i <= y@.len(),
            lex_lt(x@, y@) == lex_lt(x@.subrange(i as int, x@.len() as int), y@.subrange(i as int, y@.len() as int)),
        decreases x@.len() - i,
    {
        assert(x@.subrange(i as int, x@.len() as int).drop_first() =~= x@.subrange(i + 1, x@.len() as int));
        assert(y@.subrange(i as int, y@.len() as int).drop_first() =~= y@.subrange(i + 1, y@.len() as int));
        i += 1;
    }
    if i == x.len() {
        i < y.len()
    } else if i == y.len() {
        false
    } else {
        (x[i] as u32) < (y[i] as u32)
    }
}

/// Insert `x` into a strictly sorted list unless it is already there.
fn insert_sorted(out: &mut Vec<String>, x: String)
    requires
        strictly_sorted(views(old(out)@)),
    ensures
        strictly_sorted(views(final(out)@)),
        views(final(out)@).to_set() == views(old(out)@).to_set().insert(x@),
{
    let mut p: usize = 0;
    while p < out.len() && lex_less(out[p].as_str(), x.as_str())
        invariant
            0 <= p <= out@.len(),
            forall|k: int| 0 <= k < p ==> lex_lt(out@[k]@, x@),
        decreases out@.len() - p,
    {
        p += 1;
    }
    let ghost before = views(out@);
    if p < out.len() && out[p] == x {
        proof {
            assert(before[p as int] == x@);
            assert(before.to_set().insert(x@) =~= before.to_set());
        }
        return;
    }
    proof {
        assert forall|k: int| 0 <= k < p implies lex_lt(before[k], x@) by {
            assert(before[k] == out@[k]@);
        }
        if p < before.len() {
            assert(before[p as int] == out@[p as int]@);
            lemma_lex_total(before[p as int], x@);
            assert(lex_lt(x@, before[p as int]));
        }
    }
    out.insert(p, x);
    proof {
        assert(views(out@) =~= before.insert(p as int, x@));
        lemma_insert_sorted(before, p as int, x@);
    }
}

proof fn lemma_insert_sorted(before: Seq<Seq<char>>, p: int, x: Seq<char>)
    requires
        0 <= p <= before.len(),
        strictly_sorted(before),
        forall|k: int| 0 <= k < p ==> lex_lt(before[k], x),
        p < before.len() ==> lex_lt(x, before[p]),
    ensures
        strictly_sorted(before.insert(p, x)),
        before.insert(p, x).to_set() == before.to_set().insert(x),
{
    let s = before.insert(p, x);
    before.insert_ensures(p, x);
    assert forall|i: int, j: int| 0 <= i < j < s.len() implies lex_lt(#[trigger] s[i], #[trigger] s[j]) by {
        if j < p {
            assert(s[i] == before[i] && s[j] == before[j]);
        } else if j == p {
            assert(s[i] == before[i]);
        } else if i < p {
            assert(s[i] == before[i] && s[j] == before[j - 1]);
            if j - 1 > p {
                assert(lex_lt(before[p], before[j - 1]));
                lemma_lex_trans(x, before[p], before[j - 1]);
            }
            lemma_lex_trans(before[i], x, before[j - 1]);
        } else if i == p {
            assert(s[j] == before[j - 1]);
            if j - 1 > p {
                assert(lex_lt(before[p], before[j - 1]));
                lemma_lex_trans(x, before[p], before[j - 1]);
            }
        } else {
            assert(s[i] == before[i - 1] && s[j] == before[j - 1]);
        }
    }
    assert forall|y: Seq<char>| #[trigger] s.to_set().contains(y) <==> before.to_set().insert(x).contains(y) by {
        if s.contains(y) {
            let k = choose|k: int| 0 <= k < s.len() && s[k] == y;
            if k < p {
                assert(before[k] == y);
            } else if k > p {
                assert(before[k - 1] == y);
            }
        }
        if before.contains(y) {
            let k = choose|k: int| 0 <= k < before.len() && before[k] == y;
            if k < p {
                assert(s[k] == y);
            } else {
                assert(s[k + 1] == y);
            }
        }
        if y == x {
            assert(s[p] == y);
        }
    }
    assert(s.to_set() =~= before.to_set().insert(x));
}

/// The set of names that are not empty.
pub open spec fn named(names: Seq<Seq<char>>) -> Set<Seq<char>> {
    Set::new(|n: Seq<char>| names.contains(n) && n.len() > 0)
}

proof fn lemma_named_push(prev: Seq<Seq<char>>, e: Seq<char>)
    ensures
        named(prev.push(e)) == if e.len() > 0 {
            named(prev).insert(e)
        } else {
            named(prev)
        },
{
    if e.len() > 0 {
        assert forall|n: Seq<char>| #[trigger] named(prev.push(e)).contains(n) <==> named(prev).insert(
            e,
        ).contains(n) by {
            vstd::seq_lib::lemma_seq_contains_after_push(prev, e, n);
        }
        assert(named(prev.push(e)) =~= named(prev).insert(e));
    } else {
        assert forall|n: Seq<char>| #[trigger] named(prev.push(e)).contains(n) <==> named(
            prev,
        ).contains(n) by {
            vstd::seq_lib::lemma_seq_contains_after_push(prev, e, n);
        }
        assert(named(prev.push(e)) =~= named(prev));
    }
}

/// Graphics adapter names from a query: empty ones dropped, sorted, each
/// once, joined with ` / `; `None` when no name remains.
pub fn gpu_models(names: &Vec<String>) -> (r: Option<String>)
    ensures
        ({
            let set = named(views(names@));
            match r {
                None => set.is_empty(),
                Some(s) => exists|sorted: Seq<Seq<char>>|
                    strictly_sorted(sorted) && sorted.to_set() == set && sorted.len() > 0 && s@
                        == join(sorted, " / "@),
            }
        }),
{
    let mut out: Vec<String> = Vec::new();
    let mut i: usize = 0;
    while i < names.len()
        invariant
            0 <= i <= names@.len(),
            strictly_sorted(views(out@)),
            views(out@).to_set() == named(views(names@.subrange(0, i as int))),
        decreases names@.len() - i,
    {
        let ghost prev = views(names@.subrange(0, i as int));
        let ghost next = views(names@.subrange(0, i + 1));
        proof {
            assert(next =~= prev.push(names@[i as int]@));
            lemma_named_push(prev, names@[i as int]@);
        }
        if names[i].unicode_len() > 0 {
            insert_sorted(&mut out, names[i].clone());
        }
        i += 1;
    }
    assert(names@.subrange(0, names@.len() as int) =~= names@);
    if out.len() == 0 {
        proof {
            assert(views(out@).to_set() =~= Set::<Seq<char>>::empty());
        }
        return None;
    }
    let mut joined = out[0].clone();
    let mut k: usize = 1;
    while k < out.len()
        invariant
            1 <= k <= out@.len(),
            joined@ == join(views(out@).subrange(0, k as int), " / "@),
        decreases out@.len() - k,
    {
        proof {
            reveal_strlit(" / ");
        }
        joined.append(" / ");
        joined.append(out[k].as_str());
        proof {
            let pre = views(out@).subrange(0, k + 1);
            assert(pre.drop_last() =~= views(out@).subrange(0, k as int));
        }
        k += 1;
    }
    assert(views(out@).subrange(0, out@.len() as int) =~= views(out@));
    Some(joined)
}

} // verus!
