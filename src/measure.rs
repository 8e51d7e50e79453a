//! Unit conversions and ratios in integer arithmetic.
use vstd::prelude::*;

verus! {

/// One hundred percent, in basis points (hundredths of a percent).
pub const FULL_BP: u64 = 10000;

/// Bytes in one MiB.
pub const BYTES_PER_MIB: u64 = 1048576;

/// `part / whole` as basis points, floored, clamped to `[0, FULL_BP]`, and 0
/// when `whole` is 0.
pub open spec fn ratio_bp(part: int, whole: int) -> int {
    if whole <= 0 {
        0
    } else if part >= whole {
        FULL_BP as int
    } else if part <= 0 {
        0
    } else {
        part * (FULL_BP as int) / whole
    }
}

/// Clamp a reading to `[0, FULL_BP]`.
pub open spec fn clamp_bp(v: int) -> int {
    if v > FULL_BP as int {
        FULL_BP as int
    } else {
        v
    }
}

/// Counter increase between two cumulative readings; a counter that went
/// backwards (reset or wrap) counts as no increase.
pub open spec fn counter_delta(prev: int, now: int) -> int {
    if now >= prev {
        now - prev
    } else {
        0
    }
}

/// Bytes per second for `delta` bytes over `elapsed_ms`, the elapsed time
/// floored at one millisecond and the result saturated at `u64::MAX`.
pub open spec fn per_second(delta: int, elapsed_ms: int) -> int {
    let el = if elapsed_ms < 1 {
        1
    } else {
        elapsed_ms
    };
    let r = delta * 1000 / el;
    if r > u64::MAX as int {
        u64::MAX as int
    } else {
        r
    }
}

/// A ratio in basis points never leaves `[0, FULL_BP]`.
pub proof fn lemma_ratio_bp_bounds(part: int, whole: int)
    ensures
        0 <= ratio_bp(part, whole) <= FULL_BP as int,
{
    if whole > 0 && 0 < part < whole {
        assert(part * 10000 / whole <= 10000) by (nonlinear_arith)
            requires 0 < part < whole;
        assert(part * 10000 / whole >= 0) by (nonlinear_arith)
            requires 0 < part, 0 < whole;
    }
}

/// `a + b`, saturated at `u64::MAX`.
pub open spec fn sat_add(a: int, b: int) -> int {
    if a + b > u64::MAX as int {
        u64::MAX as int
    } else {
        a + b
    }
}

pub fn ratio_bp_of(part: u64, whole: u64) -> (r: u64)
    ensures
        r as int == ratio_bp(part as int, whole as int),
        r <= FULL_BP,
{
    if whole == 0 {
        0
    } else if part >= whole {
        FULL_BP
    } else {
        let p = part as u128;
        let w = whole as u128;
        assert((p as int) * 10000 / (w as int) <= 10000) by (nonlinear_arith)
            requires p < w, w > 0;
        ((p * 10000) / w) as u64
    }
}

pub fn clamp_bp_of(v: u64) -> (r: u64)
    ensures
        r as int == clamp_bp(v as int),
        r <= FULL_BP,
{
    if v > FULL_BP {
        FULL_BP
    } else {
        v
    }
}

pub fn counter_delta_of(prev: u64, now: u64) -> (r: u64)
    ensures
        r as int == counter_delta(prev as int, now as int),
{
    if now >= prev {
        now - prev
    } else {
        0
    }
}

/// Whole MiB in `bytes`, rounded down.
pub fn bytes_to_mib(bytes: u64) -> (r: u64)
    ensures
        r as int == bytes as int / BYTES_PER_MIB as int,
{
    bytes / BYTES_PER_MIB
}

pub fn per_second_of(delta: u64, elapsed_ms: u64) -> (r: u64)
    ensures
        r as int == per_second(delta as int, elapsed_ms as int),
{
    let el: u64 = if elapsed_ms < 1 {
        1
    } else {
        elapsed_ms
    };
    let d = delta as u128;
    assert((d as int) * 1000 <= u64::MAX as int * 1000) by (nonlinear_arith)
        requires d <= u64::MAX;
    let r = d * 1000 / (el as u128);
    if r > u64::MAX as u128 {
        u64::MAX
    } else {
        r as u64
    }
}

} // verus!
