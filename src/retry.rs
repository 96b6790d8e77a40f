//! Bounded retry with exponential backoff. The caller runs the operation and
//! sleeps; `RetryPolicy` decides, after each failure, whether there is
//! another attempt and how long to wait before it.

use vstd::prelude::*;

verus! {

pub open spec fn two_to(k: nat) -> nat
    decreases k,
{
    if k == 0 {
        1
    } else {
        2 * two_to((k - 1) as nat)
    }
}

/// `v`, or the largest `u64` where `v` does not fit.
pub open spec fn clip(v: nat) -> u64 {
    if v > u64::MAX {
        u64::MAX
    } else {
        v as u64
    }
}

#[derive(Debug, Clone, Copy, PartialEq, Eq)]
pub struct RetryPolicy {
    /// How many times the operation is tried in all; at least once.
    pub max_attempts: u32,
    pub base_delay_ms: u64,
}

/// What follows a failed attempt.
#[derive(Debug, Clone, Copy, PartialEq, Eq, Structural)]
pub enum RetryStep {
    /// Wait this many milliseconds, then try again.
    RetryAfter(u64),
    /// No attempt is left: the operation failed for good.
    Exhausted,
}

impl RetryPolicy {
    /// The wait before attempt `n`, counted from 1: none before the first,
    /// then the base delay, doubling with each further attempt
    /// (`base_delay * 2^(n-2)`), held at the largest `u64`.
    pub open spec fn delay_spec(self, n: nat) -> u64 {
        if n < 2 {
            0
        } else {
            clip((self.base_delay_ms * two_to((n - 2) as nat)) as nat)
        }
    }

    /// After `made` attempts that all failed.
    pub open spec fn step_spec(self, made: nat) -> RetryStep {
        if made >= self.max_attempts {
            RetryStep::Exhausted
        } else {
            RetryStep::RetryAfter(self.delay_spec(made + 1))
        }
    }

    pub fn new(max_attempts: u32, base_delay_ms: u64) -> (r: RetryPolicy)
        ensures
            r.max_attempts == max_attempts,
            r.base_delay_ms == base_delay_ms,
    {
        RetryPolicy { max_attempts, base_delay_ms }
    }

    pub fn delay_before(&self, n: u32) -> (r: u64)
        requires
            n >= 1,
        ensures
            r == self.delay_spec(n as nat),
    {
        if n < 2 {
            return 0;
        }
        let mut d: u64 = self.base_delay_ms;
        let mut k: u32 = 2;
        assert(two_to(0) == 1);
        assert(self.base_delay_ms * two_to(0) == self.base_delay_ms);
        while k < n
            invariant
                2 <= k <= n,
                d == clip((self.base_delay_ms * two_to((k - 2) as nat)) as nat),
            decreases n - k,
        {
            let ghost exact: nat = (self.base_delay_ms * two_to((k - 2) as nat)) as nat;
            assert(two_to((k - 1) as nat) == 2 * two_to((k - 2) as nat));
            assert(self.base_delay_ms * two_to((k - 1) as nat) == 2 * exact) by (nonlinear_arith)
                requires
                    two_to((k - 1) as nat) == 2 * two_to((k - 2) as nat),
                    exact == self.base_delay_ms * two_to((k - 2) as nat),
            ;
            if d > u64::MAX / 2 {
                d = u64::MAX;
            } else {
                d = d * 2;
            }
            k = k + 1;
        }
        d
    }

    /// Decides what follows when the operation has failed `made` times in a
    /// row.
    pub fn after_failure(&self, made: u32) -> (r: RetryStep)
        ensures
            r == self.step_spec(made as nat),
    {
        if made >= self.max_attempts {
            RetryStep::Exhausted
        } else {
            RetryStep::RetryAfter(self.delay_before(made + 1))
        }
    }
}

/// The number of attempts made on an operation that always fails, counting
/// from `made` attempts already behind.
pub open spec fn attempts_when_failing(p: RetryPolicy, made: nat) -> nat
    decreases p.max_attempts - made,
{
    if made >= p.max_attempts {
        made
    } else {
        attempts_when_failing(p, made + 1)
    }
}

/// The waits taken on an operation that always fails, from `made` attempts
/// already behind until the policy gives up.
pub open spec fn waits_when_failing(p: RetryPolicy, made: nat) -> Seq<u64>
    decreases p.max_attempts - made,
{
    match p.step_spec(made) {
        RetryStep::Exhausted => Seq::empty(),
        RetryStep::RetryAfter(d) => seq![d] + waits_when_failing(p, made + 1),
    }
}

/// An operation that always fails is tried `max_attempts` times (once where
/// that is zero); the waits come before the second attempt on, the first
/// being the base delay and each further one twice the one before it; and
/// the policy then gives up.
pub proof fn lemma_failing_operation(p: RetryPolicy)
    ensures
        attempts_when_failing(p, 1) == if p.max_attempts == 0 { 1 } else { p.max_attempts as nat },
        waits_when_failing(p, 1).len() + 1 == attempts_when_failing(p, 1),
        forall|i: int|
            0 <= i < waits_when_failing(p, 1).len() ==> #[trigger] waits_when_failing(p, 1)[i]
                == p.delay_spec((i + 2) as nat),
        p.step_spec(attempts_when_failing(p, 1)) == RetryStep::Exhausted,
{
    lemma_failing_from(p, 1);
}

proof fn lemma_failing_from(p: RetryPolicy, made: nat)
    requires
        made >= 1,
    ensures
        attempts_when_failing(p, made) == if made >= p.max_attempts { made } else { p.max_attempts as nat },
        waits_when_failing(p, made).len() + made == attempts_when_failing(p, made),
        forall|i: int|
            0 <= i < waits_when_failing(p, made).len() ==> #[trigger] waits_when_failing(p, made)[i]
                == p.delay_spec((made + i + 1) as nat),
        p.step_spec(attempts_when_failing(p, made)) == RetryStep::Exhausted,
    decreases p.max_attempts - made,
{
    if made < p.max_attempts {
        lemma_failing_from(p, made + 1);
        let w = waits_when_failing(p, made);
        let rest = waits_when_failing(p, made + 1);
        assert(w == seq![p.delay_spec(made + 1)] + rest);
        assert forall|i: int| 0 <= i < w.len() implies #[trigger] w[i] == p.delay_spec(
            (made + i + 1) as nat,
        ) by {
            if i > 0 {
                assert(w[i] == rest[i - 1]);
            }
        }
    }
}

/// With three attempts allowed, an operation that always fails is tried
/// exactly three times, with waits of the base delay and then twice it
/// (none before the first attempt), and the policy then gives up.
pub proof fn lemma_three_attempts(p: RetryPolicy)
    requires
        p.max_attempts == 3,
    ensures
        attempts_when_failing(p, 1) == 3,
        waits_when_failing(p, 1) == seq![p.base_delay_ms, clip((2 * p.base_delay_ms) as nat)],
        p.step_spec(3) == RetryStep::Exhausted,
{
    lemma_failing_operation(p);
    let w = waits_when_failing(p, 1);
    assert(two_to(0) == 1);
    assert(two_to(1) == 2);
    assert(two_to(2) == 4);
    assert(w.len() == 2);
    assert(w[0] == p.delay_spec(2));
    assert(w[1] == p.delay_spec(3));
    assert(p.base_delay_ms * two_to(0) == p.base_delay_ms);
    assert(p.base_delay_ms * two_to(1) == 2 * p.base_delay_ms);
    assert(w =~= seq![p.base_delay_ms, clip((2 * p.base_delay_ms) as nat)]);
}

} // verus!
