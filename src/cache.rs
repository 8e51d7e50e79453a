//! Sampling cache entry: a value with the time it was taken and a time-to-live.
use vstd::prelude::*;
use crate::measure::counter_delta;

verus! {

/// Milliseconds from `then` to `now` on a monotonic clock; 0 if `now` is earlier.
pub open spec fn elapsed_ms(then: u64, now: u64) -> int {
    counter_delta(then as int, now as int)
}

pub fn elapsed_ms_of(then: u64, now: u64) -> (r: u64)
    ensures
        r as int == elapsed_ms(then, now),
{
    if now >= then {
        now - then
    } else {
        0
    }
}

pub struct CacheEntry<T> {
    pub value: T,
    /// When `value` was sampled; `None` until the first sample.
    pub last_refresh_ms: Option<u64>,
    pub ttl_ms: u64,
}

impl<T> CacheEntry<T> {
    /// The value is stale at `now`: never sampled, or at least `ttl_ms` old.
    pub open spec fn due(&self, now: u64) -> bool {
        match self.last_refresh_ms {
            None => true,
            Some(t) => elapsed_ms(t, now) >= self.ttl_ms,
        }
    }

    pub fn new(value: T, ttl_ms: u64) -> (r: CacheEntry<T>)
        ensures
            r.value == value,
            r.last_refresh_ms.is_none(),
            r.ttl_ms == ttl_ms,
    {
        CacheEntry { value, last_refresh_ms: None, ttl_ms }
    }

    pub fn is_due(&self, now: u64) -> (r: bool)
        ensures
            r == self.due(now),
    {
        match self.last_refresh_ms {
            None => true,
            Some(t) => elapsed_ms_of(t, now) >= self.ttl_ms,
        }
    }

    /// Store a fresh sample taken at `now`.
    pub fn refresh(&mut self, value: T, now: u64)
        ensures
            final(self).value == value,
            final(self).last_refresh_ms == Some(now),
            final(self).ttl_ms == old(self).ttl_ms,
    {
        self.value = value;
        self.last_refresh_ms = Some(now);
    }
}

} // verus!
