//! Parsing of the `HH:mm` times that repeat schedules take.
use vstd::prelude::*;
use crate::commands::weekday_to_schtasks;
use crate::text::{chars_of, digit_char, lower_of, lowercase, push_two_digits, strip, strip_range, trim_str};

verus! {

pub open spec fn is_digit(c: char) -> bool {
    48 <= c as u32 <= 57
}

pub open spec fn all_digits(s: Seq<char>) -> bool {
    forall|i: int| 0 <= i < s.len() ==> is_digit(#[trigger] s[i])
}

/// The number the decimal digits `s` spell.
pub open spec fn digits_value(s: Seq<char>) -> int
    decreases s.len(),
{
    if s.len() == 0 {
        0
    } else {
        digits_value(s.drop_last()) * 10 + (s.last() as u32 - 48)
    }
}

/// What the unsigned integer parsers of std (`u8::from_str`, `u64::from_str`)
/// accept: an optional `+`, then one or more decimal digits whose value is
/// at most `max`.
pub open spec fn parse_unsigned(s: Seq<char>, max: int) -> Option<int> {
    let body = if s.len() > 0 && s[0] == '+' { s.drop_first() } else { s };
    if body.len() == 0 || !all_digits(body) || digits_value(body) > max {
        None
    } else {
        Some(digits_value(body))
    }
}

pub open spec fn parse_u8(s: Seq<char>) -> Option<u8> {
    match parse_unsigned(s, 255) {
        Some(v) => Some(v as u8),
        None => None,
    }
}

pub open spec fn count_char(s: Seq<char>, c: char) -> nat
    decreases s.len(),
{
    if s.len() == 0 {
        0
    } else {
        count_char(s.drop_last(), c) + if s.last() == c { 1nat } else { 0nat }
    }
}

pub open spec fn two_digits(n: int) -> Seq<char> {
    seq![digit_char(n / 10), digit_char(n % 10)]
}

/// `HH:mm` checking: trimmed input, exactly one colon, both sides numbers
/// that fit a byte, hour at most 23 and minute at most 59; the result is
/// normalized to two digits each.
pub open spec fn hhmm(value: Seq<char>) -> Result<Seq<char>, Seq<char>> {
    let t = strip(value, false);
    if count_char(t, ':') != 1 {
        Err("time must be in HH:mm format"@)
    } else {
        let k = choose|k: int| 0 <= k < t.len() && t[k] == ':';
        match parse_u8(t.subrange(0, k)) {
            None => Err("invalid hour in time"@),
            Some(h) => match parse_u8(t.subrange(k + 1, t.len() as int)) {
                None => Err("invalid minute in time"@),
                Some(m) => if h > 23 || m > 59 {
                    Err("time out of range"@)
                } else {
                    Ok(two_digits(h as int) + ":"@ + two_digits(m as int))
                },
            },
        }
    }
}

proof fn lemma_digits_value_nonneg(s: Seq<char>)
    requires
        all_digits(s),
    ensures
        digits_value(s) >= 0,
    decreases s.len(),
{
    if s.len() > 0 {
        assert(all_digits(s.drop_last())) by {
            assert forall|i: int| 0 <= i < s.drop_last().len() implies is_digit(
                #[trigger] s.drop_last()[i],
            ) by {
                assert(s.drop_last()[i] == s[i]);
            }
        }
        lemma_digits_value_nonneg(s.drop_last());
        assert(is_digit(s[s.len() - 1]));
    }
}

/// An unsigned number no larger than `max` parsed from `s[from..to]`.
pub fn parse_unsigned_range(s: &Vec<char>, from: usize, to: usize, max: u64) -> (r: Option<u64>)
    requires
        from <= to <= s@.len(),
    ensures
        match parse_unsigned(s@.subrange(from as int, to as int), max as int) {
            Some(v) => r == Some(v as u64) && 0 <= v <= max,
            None => r.is_none(),
        },
{
    let ghost whole = s@.subrange(from as int, to as int);
    let mut start = from;
    if from < to && s[from] == '+' {
        start = from + 1;
    }
    let ghost body = s@.subrange(start as int, to as int);
    assert(body == if whole.len() > 0 && whole[0] == '+' { whole.drop_first() } else { whole }) by {
        if whole.len() > 0 && whole[0] == '+' {
            assert(body =~= whole.drop_first());
        } else {
            assert(body =~= whole);
        }
    }
    if start == to {
        return None;
    }
    let cap: u128 = max as u128 + 1;
    let mut v: u128 = 0;
    let mut i = start;
    while i < to
        invariant
            start <= i <= to <= s@.len(),
            body == s@.subrange(start as int, to as int),
            whole == s@.subrange(from as int, to as int),
            body == if whole.len() > 0 && whole[0] == '+' {
                whole.drop_first()
            } else {
                whole
            },
            all_digits(s@.subrange(start as int, i as int)),
            cap == max as int + 1,
            v as int == if digits_value(s@.subrange(start as int, i as int)) > max as int {
                cap as int
            } else {
                digits_value(s@.subrange(start as int, i as int))
            },
        decreases to - i,
    {
        let c = s[i];
        let u = c as u32;
        if u < 48 || u > 57 {
            proof {
                assert(body[i - start] == c);
                assert(!is_digit(body[i - start]));
                assert(!all_digits(body));
            }
            return None;
        }
        let ghost pre = s@.subrange(start as int, i as int);
        let ghost next = s@.subrange(start as int, i + 1);
        proof {
            assert(next.drop_last() =~= pre);
            assert(next.last() == c);
            assert(all_digits(next)) by {
                assert forall|j: int| 0 <= j < next.len() implies is_digit(#[trigger] next[j]) by {
                    if j < pre.len() {
                        assert(next[j] == pre[j]);
                    }
                }
            }
            lemma_digits_value_nonneg(pre);
        }
        v = if v > max as u128 {
            cap
        } else {
            let w = v * 10 + (u - 48) as u128;
            if w > max as u128 {
                cap
            } else {
                w
            }
        };
        i += 1;
    }
    assert(s@.subrange(start as int, to as int) =~= body);
    proof {
        lemma_digits_value_nonneg(body);
    }
    if v > max as u128 {
        None
    } else {
        Some(v as u64)
    }
}

fn parse_u8_range(s: &Vec<char>, from: usize, to: usize) -> (r: Option<u8>)
    requires
        from <= to <= s@.len(),
    ensures
        r == parse_u8(s@.subrange(from as int, to as int)),
{
    match parse_unsigned_range(s, from, to, 255) {
        Some(v) => Some(v as u8),
        None => None,
    }
}

proof fn lemma_count_one(t: Seq<char>, c: char, k: int)
    requires
        0 <= k < t.len(),
        t[k] == c,
        forall|j: int| 0 <= j < t.len() && j != k ==> t[j] != c,
    ensures
        count_char(t, c) == 1,
    decreases t.len(),
{
    if k == t.len() - 1 {
        lemma_count_zero(t.drop_last(), c);
    } else {
        assert forall|j: int| 0 <= j < t.drop_last().len() && j != k implies t.drop_last()[j] != c by {
            assert(t.drop_last()[j] == t[j]);
        }
        lemma_count_one(t.drop_last(), c, k);
    }
}

proof fn lemma_count_zero(t: Seq<char>, c: char)
    requires
        forall|j: int| 0 <= j < t.len() ==> t[j] != c,
    ensures
        count_char(t, c) == 0,
    decreases t.len(),
{
    if t.len() > 0 {
        assert forall|j: int| 0 <= j < t.drop_last().len() implies t.drop_last()[j] != c by {
            assert(t.drop_last()[j] == t[j]);
        }
        lemma_count_zero(t.drop_last(), c);
    }
}

/// Two distinct positions holding `c` make the count at least 2.
proof fn lemma_count_two(t: Seq<char>, c: char, a: int, b: int)
    requires
        0 <= a < b < t.len(),
        t[a] == c,
        t[b] == c,
    ensures
        count_char(t, c) >= 2,
    decreases t.len(),
{
    if b == t.len() - 1 {
        lemma_count_pos(t.drop_last(), c, a);
    } else {
        assert(t.drop_last()[a] == c && t.drop_last()[b] == c);
        lemma_count_two(t.drop_last(), c, a, b);
    }
}

proof fn lemma_count_pos(t: Seq<char>, c: char, a: int)
    requires
        0 <= a < t.len(),
        t[a] == c,
    ensures
        count_char(t, c) >= 1,
    decreases t.len(),
{
    if a < t.len() - 1 {
        assert(t.drop_last()[a] == c);
        lemma_count_pos(t.drop_last(), c, a);
    }
}

/// Check and normalize an `HH:mm` time.
pub fn parse_hhmm(value: &str) -> (r: Result<String, String>)
    ensures
        match (r, hhmm(value@)) {
            (Ok(o), Ok(e)) => o@ == e,
            (Err(o), Err(e)) => o@ == e,
            _ => false,
        },
{
    let cs = chars_of(value);
    let (a, b) = strip_range(&cs, 0, cs.len(), false);
    assert(cs@.subrange(0, cs@.len() as int) =~= cs@);
    let ghost t = cs@.subrange(a as int, b as int);
    let mut colons: usize = 0;
    let mut first: usize = b;
    let mut i = a;
    while i < b
        invariant
            a <= i <= b <= cs@.len(),
            t == cs@.subrange(a as int, b as int),
            colons <= i - a,
            colons == 0 ==> first == b && forall|j: int| a <= j < i ==> cs@[j] != ':',
            colons >= 1 ==> a <= first < i && cs@[first as int] == ':' && forall|j: int|
                a <= j < first ==> cs@[j] != ':',
            colons == 1 ==> forall|j: int| a <= j < i && j != first ==> cs@[j] != ':',
            colons >= 2 ==> exists|j: int| first < j < i && cs@[j] == ':',
        decreases b - i,
    {
        if cs[i] == ':' {
            if colons == 0 {
                first = i;
            }
            colons = colons + 1;
        }
        i += 1;
    }
    proof {
        reveal_strlit("time must be in HH:mm format");
        reveal_strlit("invalid hour in time");
        reveal_strlit("invalid minute in time");
        reveal_strlit("time out of range");
        reveal_strlit(":");
    }
    if colons != 1 {
        proof {
            if colons == 0 {
                assert forall|j: int| 0 <= j < t.len() implies t[j] != ':' by {
                    assert(t[j] == cs@[a + j]);
                }
                lemma_count_zero(t, ':');
            } else {
                let j = choose|j: int| first < j < b && cs@[j] == ':';
                assert(t[first - a] == ':' && t[j - a] == ':');
                lemma_count_two(t, ':', first - a, j - a);
            }
        }
        return Err(String::from_str("time must be in HH:mm format"));
    }
    let ghost k = first - a;
    proof {
        assert(t[k] == ':');
        assert forall|j: int| 0 <= j < t.len() && j != k implies t[j] != ':' by {
            assert(t[j] == cs@[a + j]);
        }
        lemma_count_one(t, ':', k);
        let kk = choose|kk: int| 0 <= kk < t.len() && t[kk] == ':';
        assert(kk == k);
        assert(t.subrange(0, k) =~= cs@.subrange(a as int, first as int));
        assert(t.subrange(k + 1, t.len() as int) =~= cs@.subrange(first + 1, b as int));
    }
    let hour = match parse_u8_range(&cs, a, first) {
        Some(h) => h,
        None => {
            return Err(String::from_str("invalid hour in time"));
        },
    };
    let minute = match parse_u8_range(&cs, first + 1, b) {
        Some(m) => m,
        None => {
            return Err(String::from_str("invalid minute in time"));
        },
    };
    if hour > 23 || minute > 59 {
        return Err(String::from_str("time out of range"));
    }
    let mut out = String::new();
    push_two_digits(&mut out, hour);
    out.append(":");
    push_two_digits(&mut out, minute);
    proof {
        assert(out@ =~= two_digits(hour as int) + ":"@ + two_digits(minute as int));
    }
    Ok(out)
}

/// Longest countdown the OS shutdown command takes, in seconds.
pub const SHUTDOWN_MAX_SECONDS: u64 = 315360000;

/// A request to schedule a shutdown; instants are milliseconds since the Unix epoch.
#[derive(Debug)]
pub struct ScheduleShutdownRequest {
    pub mode: String,
    pub delay_seconds: Option<u64>,
    pub execute_at_ms: Option<i64>,
    pub time: Option<String>,
    pub weekday: Option<u8>,
    pub day_of_month: Option<u8>,
}

/// A scheduled shutdown as it is stored and shown.
#[derive(Debug)]
pub struct ShutdownPlan {
    pub mode: String,
    pub created_at_ms: i64,
    pub execute_at_ms: Option<i64>,
    pub countdown_seconds: Option<u64>,
    pub time: Option<String>,
    pub weekday: Option<u8>,
    pub day_of_month: Option<u8>,
}

/// The countdown the OS is asked for, or why it refuses it.
pub open spec fn countdown_check(seconds: u64) -> Result<u64, Seq<char>> {
    if seconds > SHUTDOWN_MAX_SECONDS {
        Err("countdown is too large (max 315360000 seconds)"@)
    } else {
        Ok(seconds)
    }
}

/// The outcome of validating `req` at `now_ms` with its mode already
/// normalized to `mode` (trimmed, lower case): the plan's fields, or the
/// message of the first check that fails.
pub open spec fn plan_fields(
    mode: Seq<char>,
    req: ScheduleShutdownRequest,
    now_ms: i64,
) -> Result<(Option<i64>, Option<u64>, Option<Seq<char>>), Seq<char>> {
    if mode == "countdown"@ {
        match req.delay_seconds {
            None => Err("delaySeconds is required for countdown mode"@),
            Some(s) => if s == 0 {
                Err("countdown must be greater than 0 seconds"@)
            } else {
                match countdown_check(s) {
                    Err(e) => Err(e),
                    Ok(_) => Ok((Some(sat_i64(now_ms as int + s as int * 1000)), Some(s), None)),
                }
            },
        }
    } else if mode == "once"@ {
        match req.execute_at_ms {
            None => Err("executeAt is required for once mode"@),
            Some(t) => if t <= now_ms {
                Err("executeAt must be in the future"@)
            } else {
                let secs = (t as int - now_ms as int) / 1000;
                let secs1 = if secs < 1 { 1 } else { secs };
                match countdown_check(secs1 as u64) {
                    Err(e) => Err(e),
                    Ok(_) => Ok((Some(t), Some(secs1 as u64), None)),
                }
            },
        }
    } else if mode == "daily"@ || mode == "weekly"@ || mode == "monthly"@ {
        match req.time {
            None => Err("time is required for repeat mode"@),
            Some(t) => match hhmm(t@) {
                Err(e) => Err(e),
                Ok(norm) => if mode == "weekly"@ && req.weekday.is_none() {
                    Err("weekday is required for weekly repeat"@)
                } else if mode == "weekly"@ && !(1 <= req.weekday.unwrap() <= 7) {
                    Err("weekday must be between 1 and 7"@)
                } else if mode == "monthly"@ && req.day_of_month.is_none() {
                    Err("dayOfMonth is required for monthly repeat"@)
                } else if mode == "monthly"@ && !(1 <= req.day_of_month.unwrap() <= 31) {
                    Err("dayOfMonth must be between 1 and 31"@)
                } else {
                    Ok((None, None, Some(norm)))
                },
            },
        }
    } else {
        Err("unsupported schedule mode"@)
    }
}

pub open spec fn sat_i64(v: int) -> i64 {
    if v > i64::MAX as int {
        i64::MAX
    } else {
        v as i64
    }
}

/// The mode of a request: trimmed, then lower-cased.
pub open spec fn request_mode(req: ScheduleShutdownRequest) -> Seq<char> {
    lower_of(strip(req.mode@, false))
}

/// Validate a shutdown request at `now_ms` and build the plan to store.
/// Countdowns must be positive and within the OS limit; a one-off time must
/// lie in the future; repeats need a valid `HH:mm` time, a weekday for
/// weekly and a day of the month for monthly ones.
pub fn plan_shutdown(req: &ScheduleShutdownRequest, now_ms: i64) -> (r: Result<ShutdownPlan, String>)
    ensures
        match (r, plan_fields(request_mode(*req), *req, now_ms)) {
            (Ok(p), Ok((at, secs, time))) => {
                &&& p.mode@ == request_mode(*req)
                &&& p.created_at_ms == now_ms
                &&& p.execute_at_ms == at
                &&& p.countdown_seconds == secs
                &&& match (p.time, time) {
                    (Some(a), Some(b)) => a@ == b,
                    (None, None) => true,
                    _ => false,
                }
                &&& (time.is_some() ==> p.weekday == req.weekday && p.day_of_month == req.day_of_month)
                &&& (time.is_none() ==> p.weekday.is_none() && p.day_of_month.is_none())
            },
            (Err(e), Err(m)) => e@ == m,
            _ => false,
        },
{
    proof {
        reveal_strlit("countdown");
        reveal_strlit("once");
        reveal_strlit("daily");
        reveal_strlit("weekly");
        reveal_strlit("monthly");
        reveal_strlit("delaySeconds is required for countdown mode");
        reveal_strlit("countdown must be greater than 0 seconds");
        reveal_strlit("countdown is too large (max 315360000 seconds)");
        reveal_strlit("executeAt is required for once mode");
        reveal_strlit("executeAt must be in the future");
        reveal_strlit("time is required for repeat mode");
        reveal_strlit("weekday is required for weekly repeat");
        reveal_strlit("weekday must be between 1 and 7");
        reveal_strlit("dayOfMonth is required for monthly repeat");
        reveal_strlit("dayOfMonth must be between 1 and 31");
        reveal_strlit("unsupported schedule mode");
    }
    let trimmed = trim_str(req.mode.as_str());
    let mode = lowercase(trimmed.as_str());
    let is_countdown = mode == String::from_str("countdown");
    let is_once = mode == String::from_str("once");
    let is_daily = mode == String::from_str("daily");
    let is_weekly = mode == String::from_str("weekly");
    let is_monthly = mode == String::from_str("monthly");
    if is_countdown {
        let seconds = match req.delay_seconds {
            None => {
                return Err(String::from_str("delaySeconds is required for countdown mode"));
            },
            Some(s) => s,
        };
        if seconds == 0 {
            return Err(String::from_str("countdown must be greater than 0 seconds"));
        }
        if seconds > SHUTDOWN_MAX_SECONDS {
            return Err(String::from_str("countdown is too large (max 315360000 seconds)"));
        }
        let sum = now_ms as i128 + (seconds as i128) * 1000;
        let at: i64 = if sum > i64::MAX as i128 { i64::MAX } else { sum as i64 };
        Ok(ShutdownPlan {
            mode,
            created_at_ms: now_ms,
            execute_at_ms: Some(at),
            countdown_seconds: Some(seconds),
            time: None,
            weekday: None,
            day_of_month: None,
        })
    } else if is_once {
        let at = match req.execute_at_ms {
            None => {
                return Err(String::from_str("executeAt is required for once mode"));
            },
            Some(t) => t,
        };
        if at <= now_ms {
            return Err(String::from_str("executeAt must be in the future"));
        }
        let diff = (at as i128 - now_ms as i128) / 1000;
        let secs: u64 = if diff < 1 { 1 } else if diff > u64::MAX as i128 { u64::MAX } else { diff as u64 };
        if secs > SHUTDOWN_MAX_SECONDS {
            return Err(String::from_str("countdown is too large (max 315360000 seconds)"));
        }
        Ok(ShutdownPlan {
            mode,
            created_at_ms: now_ms,
            execute_at_ms: Some(at),
            countdown_seconds: Some(secs),
            time: None,
            weekday: None,
            day_of_month: None,
        })
    } else if is_daily || is_weekly || is_monthly {
        let time = match &req.time {
            None => {
                return Err(String::from_str("time is required for repeat mode"));
            },
            Some(t) => t,
        };
        let normalized = match parse_hhmm(time.as_str()) {
            Ok(n) => n,
            Err(e) => {
                return Err(e);
            },
        };
        if is_weekly {
            match req.weekday {
                None => {
                    return Err(String::from_str("weekday is required for weekly repeat"));
                },
                Some(w) => {
                    match weekday_to_schtasks(w) {
                        Ok(_) => {},
                        Err(e) => {
                            return Err(e);
                        },
                    }
                },
            }
        }
        if is_monthly {
            match req.day_of_month {
                None => {
                    return Err(String::from_str("dayOfMonth is required for monthly repeat"));
                },
                Some(d) => {
                    if d < 1 || d > 31 {
                        return Err(String::from_str("dayOfMonth must be between 1 and 31"));
                    }
                },
            }
        }
        Ok(ShutdownPlan {
            mode,
            created_at_ms: now_ms,
            execute_at_ms: None,
            countdown_seconds: None,
            time: Some(normalized),
            weekday: req.weekday,
            day_of_month: req.day_of_month,
        })
    } else {
        Err(String::from_str("unsupported schedule mode"))
    }
}

/// A one-off plan whose moment has passed.
pub open spec fn is_stale(plan: ShutdownPlan, now_ms: i64) -> bool {
    (plan.mode@ == "countdown"@ || plan.mode@ == "once"@) && match plan.execute_at_ms {
        Some(t) => t <= now_ms,
        None => false,
    }
}

/// A stored plan as it is shown at `now_ms`: a stale one-off plan is gone.
pub fn normalize_shutdown_plan(plan: ShutdownPlan, now_ms: i64) -> (r: Option<ShutdownPlan>)
    ensures
        is_stale(plan, now_ms) ==> r.is_none(),
        !is_stale(plan, now_ms) ==> r == Some(plan),
{
    proof {
        reveal_strlit("countdown");
        reveal_strlit("once");
    }
    let one_off = plan.mode == String::from_str("countdown") || plan.mode == String::from_str("once");
    if one_off {
        if let Some(t) = plan.execute_at_ms {
            if t <= now_ms {
                return None;
            }
        }
    }
    Some(plan)
}

} // verus!
