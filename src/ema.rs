//! Exponential moving average in integer arithmetic.
//!
//! A step blends the previous value and the raw sample with weight
//! `num / den` on the raw sample, and rounds the blend towards the raw
//! sample. Rounding that way lets a constant input be reached exactly
//! instead of stalling a few units short of it.
use vstd::prelude::*;

verus! {

/// `ceil(a / b)` for `a >= 0`, `b > 0`.
pub open spec fn ceil_div(a: int, b: int) -> int {
    (a + b - 1) / b
}

/// One smoothing step: `num/den · raw + (1 − num/den) · prev`, rounded towards `raw`.
pub open spec fn ema_next(prev: int, raw: int, num: int, den: int) -> int {
    if raw >= prev {
        prev + ceil_div((raw - prev) * num, den)
    } else {
        prev - ceil_div((prev - raw) * num, den)
    }
}

/// The smoothed value after feeding the constant `v` `k` times from `s`.
pub open spec fn ema_iterate(s: int, v: int, num: int, den: int, k: nat) -> int
    decreases k,
{
    if k == 0 {
        s
    } else {
        ema_next(ema_iterate(s, v, num, den, (k - 1) as nat), v, num, den)
    }
}

/// `b` to the power `k`.
pub open spec fn power(b: int, k: nat) -> int
    decreases k,
{
    if k == 0 {
        1
    } else {
        b * power(b, (k - 1) as nat)
    }
}

pub open spec fn abs(x: int) -> int {
    if x < 0 {
        -x
    } else {
        x
    }
}

/// Smoothing state: `value` is `None` until the first sample, which passes through unchanged.
pub struct Ema {
    pub weight_num: u64,
    pub weight_den: u64,
    pub value: Option<u64>,
}

impl Ema {
    pub open spec fn wf(&self) -> bool {
        0 < self.weight_num <= self.weight_den <= 1000
    }

    /// What `update(raw)` yields from this state.
    pub open spec fn next_value(&self, raw: int) -> int {
        match self.value {
            None => raw,
            Some(p) => ema_next(p as int, raw, self.weight_num as int, self.weight_den as int),
        }
    }

    pub fn new(weight_num: u64, weight_den: u64) -> (r: Ema)
        requires
            0 < weight_num <= weight_den <= 1000,
        ensures
            r.wf(),
            r.weight_num == weight_num,
            r.weight_den == weight_den,
            r.value.is_none(),
    {
        Ema { weight_num, weight_den, value: None }
    }

    /// Feed one raw sample and return the smoothed value.
    pub fn update(&mut self, raw: u64) -> (r: u64)
        requires
            old(self).wf(),
        ensures
            final(self).wf(),
            r as int == old(self).next_value(raw as int),
            final(self).value == Some(r),
            final(self).weight_num == old(self).weight_num,
            final(self).weight_den == old(self).weight_den,
            match old(self).value {
                Some(p) => (p <= raw ==> p <= r <= raw) && (raw <= p ==> raw <= r <= p),
                None => r == raw,
            },
    {
        let r = match self.value {
            None => raw,
            Some(prev) => {
                let num = self.weight_num as u128;
                let den = self.weight_den as u128;
                if raw >= prev {
                    let d = (raw - prev) as u128;
                    proof {
                        lemma_ceil_step(d as int, num as int, den as int);
                        assert((d as int) * (num as int) <= (u64::MAX as int) * 1000)
                            by (nonlinear_arith)
                            requires d <= u64::MAX, num <= 1000;
                    }
                    let step = (d * num + den - 1) / den;
                    (prev as u128 + step) as u64
                } else {
                    let d = (prev - raw) as u128;
                    proof {
                        lemma_ceil_step(d as int, num as int, den as int);
                        assert((d as int) * (num as int) <= (u64::MAX as int) * 1000)
                            by (nonlinear_arith)
                            requires d <= u64::MAX, num <= 1000;
                    }
                    let step = (d * num + den - 1) / den;
                    (prev as u128 - step) as u64
                }
            },
        };
        self.value = Some(r);
        r
    }
}

/// The rounded step never overshoots the distance `d`, and removes at least
/// the fraction `num/den` of it.
pub proof fn lemma_ceil_step(d: int, num: int, den: int)
    requires
        d >= 0,
        0 < num <= den,
    ensures
        0 <= ceil_div(d * num, den) <= d,
        ceil_div(d * num, den) * den >= d * num,
{
    let c = ceil_div(d * num, den);
    assert(d * num <= d * den) by (nonlinear_arith)
        requires d >= 0, num <= den;
    assert(d * num >= 0) by (nonlinear_arith)
        requires d >= 0, num > 0;
    assert((d * num + den - 1) / den <= d) by (nonlinear_arith)
        requires d * num <= d * den, den > 0, d >= 0;
    assert((d * num + den - 1) / den >= 0) by (nonlinear_arith)
        requires d * num >= 0, den > 0;
    assert(((d * num + den - 1) / den) * den >= d * num) by (nonlinear_arith)
        requires d * num >= 0, den > 0;
}

/// One step keeps the error's sign and shrinks it by the factor `(den − num)/den` or more.
pub proof fn lemma_ema_step_contracts(s: int, v: int, num: int, den: int)
    requires
        0 < num <= den,
    ensures
        den * abs(ema_next(s, v, num, den) - v) <= (den - num) * abs(s - v),
        s <= v ==> s <= ema_next(s, v, num, den) <= v,
        v <= s ==> v <= ema_next(s, v, num, den) <= s,
{
    if v >= s {
        let d = v - s;
        lemma_ceil_step(d, num, den);
        let c = ceil_div(d * num, den);
        assert(den * (d - c) <= (den - num) * d) by (nonlinear_arith)
            requires c * den >= d * num;
    } else {
        let d = s - v;
        lemma_ceil_step(d, num, den);
        let c = ceil_div(d * num, den);
        assert(den * (d - c) <= (den - num) * d) by (nonlinear_arith)
            requires c * den >= d * num;
    }
}

/// Feeding a constant `v` for `k` samples shrinks the distance to `v`
/// geometrically: `den^k · |e_k| ≤ (den − num)^k · |e_0|`.
pub proof fn lemma_ema_geometric(s: int, v: int, num: int, den: int, k: nat)
    requires
        0 < num <= den,
    ensures
        power(den, k) * abs(ema_iterate(s, v, num, den, k) - v) <= power(den - num, k) * abs(s - v),
    decreases k,
{
    if k > 0 {
        let km1 = (k - 1) as nat;
        lemma_ema_geometric(s, v, num, den, km1);
        let prev = ema_iterate(s, v, num, den, km1);
        lemma_ema_step_contracts(prev, v, num, den);
        let a = abs(ema_iterate(s, v, num, den, k) - v);
        let b = abs(prev - v);
        let pd = power(den, km1);
        let pn = power(den - num, km1);
        lemma_power_nonneg(den, km1);
        lemma_power_nonneg(den - num, km1);
        assert(pd * (den * a) <= pd * ((den - num) * b)) by (nonlinear_arith)
            requires den * a <= (den - num) * b, pd >= 0;
        assert((den - num) * (pd * b) <= (den - num) * (pn * abs(s - v))) by (nonlinear_arith)
            requires pd * b <= pn * abs(s - v), den - num >= 0;
        assert(power(den, k) * a == pd * (den * a)) by (nonlinear_arith)
            requires power(den, k) == den * pd;
        assert(power(den - num, k) * abs(s - v) == (den - num) * (pn * abs(s - v)))
            by (nonlinear_arith)
            requires power(den - num, k) == (den - num) * pn;
        assert(pd * ((den - num) * b) == (den - num) * (pd * b)) by (nonlinear_arith);
    }
}

pub proof fn lemma_power_nonneg(b: int, k: nat)
    requires
        b >= 0,
    ensures
        power(b, k) >= 0,
    decreases k,
{
    if k > 0 {
        lemma_power_nonneg(b, (k - 1) as nat);
        assert(b * power(b, (k - 1) as nat) >= 0) by (nonlinear_arith)
            requires b >= 0, power(b, (k - 1) as nat) >= 0;
    }
}

/// Once the smoothed value equals a constant input it stays there.
pub proof fn lemma_ema_fixed_point(v: int, num: int, den: int)
    requires
        0 < num <= den,
    ensures
        ema_next(v, v, num, den) == v,
{
    assert(ceil_div(0 * num, den) == 0) by (nonlinear_arith)
        requires den > 0;
}

/// With the CPU weight (0.3 on the raw sample), feeding a constant
/// percentage `v` for 26 samples brings any starting percentage `s` exactly
/// to `v`, hence within every tolerance of it.
pub proof fn lemma_cpu_ema_reaches_constant(s: int, v: int)
    requires
        0 <= s <= 10000,
        0 <= v <= 10000,
    ensures
        ema_iterate(s, v, 3, 10, 26) == v,
{
    lemma_ema_geometric(s, v, 3, 10, 26);
    reveal_with_fuel(power, 34);
    assert(power(10, 26) == 100000000000000000000000000);
    assert(power(7, 26) == 9387480337647754305649);
    let e = abs(ema_iterate(s, v, 3, 10, 26) - v);
    assert(e == 0) by (nonlinear_arith)
        requires
            100000000000000000000000000 * e <= 9387480337647754305649 * abs(s - v),
            abs(s - v) <= 10000,
            e >= 0;
}

/// With the application-CPU weight (0.25 on the raw sample), 33 samples of a
/// constant percentage `v` bring any starting percentage exactly to `v`.
pub proof fn lemma_app_ema_reaches_constant(s: int, v: int)
    requires
        0 <= s <= 10000,
        0 <= v <= 10000,
    ensures
        ema_iterate(s, v, 1, 4, 33) == v,
{
    lemma_ema_geometric(s, v, 1, 4, 33);
    reveal_with_fuel(power, 34);
    assert(power(4, 33) == 73786976294838206464);
    assert(power(3, 33) == 5559060566555523);
    let e = abs(ema_iterate(s, v, 1, 4, 33) - v);
    assert(e == 0) by (nonlinear_arith)
        requires
            73786976294838206464 * e <= 5559060566555523 * abs(s - v),
            abs(s - v) <= 10000,
            e >= 0;
}

} // verus!
