//! Pure helpers of the control surface: scheduler day names, uninstall
//! command lines, registry path values and the fullscreen-window test.
use vstd::prelude::*;
use crate::text::{
    before_char, before_char_end, chars_of, eq_ignore_ascii_case, eq_ignore_ascii_case_of, has_infix,
    has_prefix, lower_of, lowercase, starts_with_str, str_contains, strip, strip_range, substring,
    trim_end_char, trim_end_char_of, trim_str, views,
};

verus! {

/// The scheduler's name for ISO weekday `value` (1 = Monday … 7 = Sunday).
pub open spec fn weekday_name(value: u8) -> Seq<char> {
    if value == 1 {
        "MON"@
    } else if value == 2 {
        "TUE"@
    } else if value == 3 {
        "WED"@
    } else if value == 4 {
        "THU"@
    } else if value == 5 {
        "FRI"@
    } else if value == 6 {
        "SAT"@
    } else {
        "SUN"@
    }
}

pub fn weekday_to_schtasks(value: u8) -> (r: Result<&'static str, String>)
    ensures
        1 <= value <= 7 ==> (r matches Ok(s) && s@ == weekday_name(value)),
        !(1 <= value <= 7) ==> (r matches Err(e) && e@ == "weekday must be between 1 and 7"@),
{
    proof {
        reveal_strlit("MON");
        reveal_strlit("TUE");
        reveal_strlit("WED");
        reveal_strlit("THU");
        reveal_strlit("FRI");
        reveal_strlit("SAT");
        reveal_strlit("SUN");
    }
    match value {
        1 => Ok("MON"),
        2 => Ok("TUE"),
        3 => Ok("WED"),
        4 => Ok("THU"),
        5 => Ok("FRI"),
        6 => Ok("SAT"),
        7 => Ok("SUN"),
        _ => Err(String::from_str("weekday must be between 1 and 7")),
    }
}

/// Splitter state: finished words, the word being read, inside quotes.
pub ghost struct SplitState {
    pub parts: Seq<Seq<char>>,
    pub current: Seq<char>,
    pub in_quotes: bool,
}

/// Feed one character: a quote toggles quoting and is dropped; a blank or
/// tab outside quotes ends the current word; anything else is kept.
pub open spec fn split_step(st: SplitState, ch: char) -> SplitState {
    if ch == '"' {
        SplitState { in_quotes: !st.in_quotes, ..st }
    } else if (ch == ' ' || ch == '\t') && !st.in_quotes {
        if st.current.len() > 0 {
            SplitState { parts: st.parts.push(st.current), current: Seq::empty(), in_quotes: st.in_quotes }
        } else {
            st
        }
    } else {
        SplitState { current: st.current.push(ch), ..st }
    }
}

pub open spec fn split_scan(s: Seq<char>) -> SplitState
    decreases s.len(),
{
    if s.len() == 0 {
        SplitState { parts: Seq::empty(), current: Seq::empty(), in_quotes: false }
    } else {
        split_step(split_scan(s.drop_last()), s.last())
    }
}

/// The words of a command line, quotes grouping words that hold blanks.
pub open spec fn command_words(s: Seq<char>) -> Seq<Seq<char>> {
    let st = split_scan(s);
    if st.current.len() > 0 {
        st.parts.push(st.current)
    } else {
        st.parts
    }
}

/// Split an uninstall command line into the program and its arguments.
pub fn split_uninstall_command(command: &str) -> (r: Vec<String>)
    ensures
        views(r@) == command_words(command@),
{
    let cs = chars_of(command);
    let mut parts: Vec<String> = Vec::new();
    let mut current = String::new();
    let mut in_quotes = false;
    let mut i: usize = 0;
    while i < cs.len()
        invariant
            cs@ == command@,
            0 <= i <= cs@.len(),
            ({
                let st = split_scan(cs@.subrange(0, i as int));
                views(parts@) == st.parts && current@ == st.current && in_quotes == st.in_quotes
            }),
        decreases cs@.len() - i,
    {
        proof {
            assert(cs@.subrange(0, i + 1).drop_last() =~= cs@.subrange(0, i as int));
        }
        let ch = cs[i];
        if ch == '"' {
            in_quotes = !in_quotes;
        } else if (ch == ' ' || ch == '\t') && !in_quotes {
            if current.unicode_len() > 0 {
                let ghost before = parts@;
                parts.push(current);
                current = String::new();
                proof {
                    assert(views(parts@) =~= views(before).push(parts@.last()@));
                }
            }
        } else {
            current.append(substring(command, i, i + 1).as_str());
            proof {
                assert(command@.subrange(i as int, i + 1) =~= seq![ch]);
            }
        }
        i += 1;
    }
    assert(cs@.subrange(0, cs@.len() as int) =~= cs@);
    if current.unicode_len() > 0 {
        let ghost before = parts@;
        parts.push(current);
        proof {
            assert(views(parts@) =~= views(before).push(parts@.last()@));
        }
    }
    parts
}

/// A registry path value such as `"C:\App\app.exe",0`: trimmed, unquoted,
/// cut at the first comma, and trimmed and unquoted again.
pub open spec fn normalized_path(v: Seq<char>) -> Seq<char> {
    strip(strip(before_char(strip(strip(v, false), true), ','), false), true)
}

pub fn normalize_registry_path(value: &str) -> (r: String)
    ensures
        r@ == normalized_path(value@),
{
    let cs = chars_of(value);
    let (a, b) = strip_range(&cs, 0, cs.len(), false);
    assert(cs@.subrange(0, cs@.len() as int) =~= cs@);
    let (c, d) = strip_range(&cs, a, b, true);
    let e = before_char_end(&cs, c, d, ',');
    let (f, g) = strip_range(&cs, c, e, false);
    let (h, k) = strip_range(&cs, f, g, true);
    substring(value, h, k)
}

/// The values of one entry under the uninstall registry key.
#[derive(Debug)]
pub struct UninstallEntry {
    pub uninstall_string: Option<String>,
    pub display_icon: Option<String>,
    pub install_location: Option<String>,
    pub display_name: Option<String>,
}

/// The entry's icon is the executable, or lies in the executable's directory.
pub open spec fn icon_matches(icon: Seq<char>, exe: Seq<char>, exe_dir: Seq<char>) -> bool {
    let icon = normalized_path(icon);
    eq_ignore_ascii_case(icon, exe) || (lower_of(exe_dir).len() > 0 && has_prefix(
        lower_of(icon),
        lower_of(exe_dir),
    ))
}

/// The executable lies under the entry's install location.
pub open spec fn location_matches(location: Seq<char>, exe: Seq<char>) -> bool {
    let dir = trim_end_char(lower_of(normalized_path(location)), '\\') + "\\"@;
    strip(dir, false).len() > 0 && has_prefix(lower_of(exe), dir)
}

/// The entry's display name carries the product's name.
pub open spec fn name_matches(name: Seq<char>) -> bool {
    has_infix(lower_of(name), "pulsecore"@) || has_infix(lower_of(name), "pulse core"@)
}

/// The entry uninstalls the running executable `exe`, installed in `exe_dir`.
pub open spec fn entry_matches(e: UninstallEntry, exe: Seq<char>, exe_dir: Seq<char>) -> bool {
    &&& e.uninstall_string.is_some()
    &&& {
        ||| (e.display_icon matches Some(i) && icon_matches(i@, exe, exe_dir))
        ||| (e.install_location matches Some(l) && location_matches(l@, exe))
        ||| (e.display_name matches Some(n) && name_matches(n@))
    }
}

/// The uninstall command of the first entry that matches.
pub open spec fn first_match(es: Seq<UninstallEntry>, exe: Seq<char>, exe_dir: Seq<char>) -> Option<Seq<char>>
    decreases es.len(),
{
    if es.len() == 0 {
        None
    } else if entry_matches(es[0], exe, exe_dir) {
        Some(es[0].uninstall_string.unwrap()@)
    } else {
        first_match(es.drop_first(), exe, exe_dir)
    }
}

fn icon_matches_of(icon: &str, exe: &str, exe_dir: &str) -> (r: bool)
    ensures
        r == icon_matches(icon@, exe@, exe_dir@),
{
    let icon = normalize_registry_path(icon);
    if eq_ignore_ascii_case_of(icon.as_str(), exe) {
        return true;
    }
    let dir_lower = lowercase(exe_dir);
    if dir_lower.unicode_len() == 0 {
        return false;
    }
    let icon_lower = lowercase(icon.as_str());
    starts_with_str(icon_lower.as_str(), dir_lower.as_str())
}

fn location_matches_of(location: &str, exe: &str) -> (r: bool)
    ensures
        r == location_matches(location@, exe@),
{
    proof {
        reveal_strlit("\\");
    }
    let loc = normalize_registry_path(location);
    let lower = lowercase(loc.as_str());
    let mut dir = trim_end_char_of(lower.as_str(), '\\');
    dir.append("\\");
    let trimmed = trim_str(dir.as_str());
    if trimmed.unicode_len() == 0 {
        return false;
    }
    let exe_lower = lowercase(exe);
    starts_with_str(exe_lower.as_str(), dir.as_str())
}

fn name_matches_of(name: &str) -> (r: bool)
    ensures
        r == name_matches(name@),
{
    proof {
        reveal_strlit("pulsecore");
        reveal_strlit("pulse core");
    }
    let n = lowercase(name);
    str_contains(n.as_str(), "pulsecore") || str_contains(n.as_str(), "pulse core")
}

pub fn uninstall_entry_matches(e: &UninstallEntry, exe: &str, exe_dir: &str) -> (r: bool)
    ensures
        r == entry_matches(*e, exe@, exe_dir@),
{
    if e.uninstall_string.is_none() {
        return false;
    }
    let by_icon = match &e.display_icon {
        Some(i) => icon_matches_of(i.as_str(), exe, exe_dir),
        None => false,
    };
    if by_icon {
        return true;
    }
    let by_location = match &e.install_location {
        Some(l) => location_matches_of(l.as_str(), exe),
        None => false,
    };
    if by_location {
        return true;
    }
    match &e.display_name {
        Some(n) => name_matches_of(n.as_str()),
        None => false,
    }
}

/// The uninstall command of the first registry entry that belongs to the
/// executable `exe` (installed in `exe_dir`): by its icon, its install
/// location, or its display name.
pub fn find_uninstall_string(entries: &Vec<UninstallEntry>, exe: &str, exe_dir: &str) -> (r: Option<String>)
    ensures
        match first_match(entries@, exe@, exe_dir@) {
            Some(u) => r matches Some(s) && s@ == u,
            None => r.is_none(),
        },
{
    let mut i: usize = 0;
    assert(entries@.subrange(0, entries@.len() as int) =~= entries@);
    while i < entries.len()
        invariant
            0 <= i <= entries@.len(),
            first_match(entries@, exe@, exe_dir@) == first_match(
                entries@.subrange(i as int, entries@.len() as int),
                exe@,
                exe_dir@,
            ),
        decreases entries@.len() - i,
    {
        let ghost rest = entries@.subrange(i as int, entries@.len() as int);
        assert(rest[0] == entries@[i as int]);
        if uninstall_entry_matches(&entries[i], exe, exe_dir) {
            return match &entries[i].uninstall_string {
                Some(u) => Some(u.clone()),
                None => None,
            };
        }
        assert(rest.drop_first() =~= entries@.subrange(i + 1, entries@.len() as int));
        i += 1;
    }
    None
}

/// A screen rectangle in pixels.
#[derive(Debug, Clone, Copy, PartialEq, Eq, Structural)]
pub struct Rect {
    pub left: i32,
    pub top: i32,
    pub right: i32,
    pub bottom: i32,
}

/// A window covers its monitor: both have positive size, the window spans
/// at least 98% of the monitor's width and of its height, and at least 95%
/// of its area.
pub open spec fn covers(win: Rect, mon: Rect) -> bool {
    let w = win.right - win.left;
    let h = win.bottom - win.top;
    let mw = mon.right - mon.left;
    let mh = mon.bottom - mon.top;
    w > 0 && h > 0 && mw > 0 && mh > 0 && 100 * w >= 98 * mw && 100 * h >= 98 * mh && 100 * (w * h)
        >= 95 * (mw * mh)
}

pub fn covers_monitor(win: Rect, mon: Rect) -> (r: bool)
    ensures
        r == covers(win, mon),
{
    let w = win.right as i64 - win.left as i64;
    let h = win.bottom as i64 - win.top as i64;
    let mw = mon.right as i64 - mon.left as i64;
    let mh = mon.bottom as i64 - mon.top as i64;
    if w <= 0 || h <= 0 || mw <= 0 || mh <= 0 {
        return false;
    }
    assert((w as int) * (h as int) <= 0x1_0000_0000 * 0x1_0000_0000) by (nonlinear_arith)
        requires 0 < w <= 0x1_0000_0000, 0 < h <= 0x1_0000_0000;
    assert((mw as int) * (mh as int) <= 0x1_0000_0000 * 0x1_0000_0000) by (nonlinear_arith)
        requires 0 < mw <= 0x1_0000_0000, 0 < mh <= 0x1_0000_0000;
    let area = (w as i128) * (h as i128);
    let marea = (mw as i128) * (mh as i128);
    100 * w as i128 >= 98 * mw as i128 && 100 * h as i128 >= 98 * mh as i128 && 100 * area >= 95
        * marea
}

} // verus!
