//! A strict minimum-spacing gate for outbound calls: one slot holding when
//! the previous call ended, no burst allowance. Times are milliseconds on a
//! monotonic clock; the caller sleeps for the wait this gate names.

use vstd::prelude::*;

verus! {

#[derive(Debug, Clone, Copy, PartialEq, Eq)]
pub struct RateLimiter {
    pub min_interval_ms: u64,
    /// When the previous call ended; `None` before the first call.
    pub last_call_end_ms: Option<u64>,
}

pub open spec fn wait_spec(limiter: RateLimiter, now_ms: u64) -> nat {
    match limiter.last_call_end_ms {
        None => 0,
        Some(end) => if end + limiter.min_interval_ms > now_ms {
            (end + limiter.min_interval_ms - now_ms) as nat
        } else {
            0
        },
    }
}

impl RateLimiter {
    pub fn new(min_interval_ms: u64) -> (r: RateLimiter)
        ensures
            r.min_interval_ms == min_interval_ms,
            r.last_call_end_ms.is_none(),
    {
        RateLimiter { min_interval_ms, last_call_end_ms: None }
    }

    /// How long a call that wants to start at `now_ms` must wait: until the
    /// minimum interval has passed since the previous call ended. Held at
    /// the largest `u64`.
    pub fn wait_before(&self, now_ms: u64) -> (r: u64)
        ensures
            r as nat == if wait_spec(*self, now_ms) > u64::MAX {
                u64::MAX as nat
            } else {
                wait_spec(*self, now_ms)
            },
    {
        match self.last_call_end_ms {
            None => 0,
            Some(end) => {
                if now_ms >= end {
                    let elapsed = now_ms - end;
                    if elapsed < self.min_interval_ms {
                        self.min_interval_ms - elapsed
                    } else {
                        0
                    }
                } else {
                    let ahead = end - now_ms;
                    if ahead > u64::MAX - self.min_interval_ms {
                        u64::MAX
                    } else {
                        ahead + self.min_interval_ms
                    }
                }
            },
        }
    }

    /// Notes that a call ended at `end_ms`.
    pub fn record_call_end(&mut self, end_ms: u64)
        ensures
            final(self).min_interval_ms == old(self).min_interval_ms,
            final(self).last_call_end_ms == Some(end_ms),
    {
        self.last_call_end_ms = Some(end_ms);
    }
}

/// Two consecutive calls through one gate start at least the minimum
/// interval apart: a call that started at `prev_start` and ended at
/// `prev_end`, then a next one that arrives at `now` and waits for
/// `wait_spec`, with the clock never decreasing.
pub proof fn lemma_spacing(limiter: RateLimiter, prev_start: u64, prev_end: u64, now: u64)
    requires
        limiter.last_call_end_ms == Some(prev_end),
        prev_start <= prev_end <= now,
    ensures
        wait_spec(limiter, now) <= limiter.min_interval_ms,
        now + wait_spec(limiter, now) >= prev_start + limiter.min_interval_ms,
{
}

} // verus!
