use vstd::prelude::*;
use crate::error::ClientError;

verus! {

/// How failed attempts are retried: a bounded number of attempts, an
/// exponential backoff with jitter, and endpoints taken in turn.
#[derive(Clone, Copy, Debug, PartialEq, Eq, Structural)]
pub struct RetryPolicy {
    /// Attempts allowed in all, the first included.
    pub max_attempts: u32,
    /// Delay before the second attempt, in milliseconds.
    pub base_backoff_ms: u64,
    /// No delay is longer than this, in milliseconds.
    pub max_backoff_ms: u64,
}

pub const DEFAULT_MAX_ATTEMPTS: u32 = 3;

pub const DEFAULT_BASE_BACKOFF_MS: u64 = 100;

pub const DEFAULT_MAX_BACKOFF_MS: u64 = 5000;

/// The delay before attempt `k + 2`, before jitter: the base doubled `k`
/// times, never above the cap.
pub open spec fn capped_backoff(base: u64, cap: u64, k: nat) -> nat
    decreases k,
{
    if k == 0 {
        if base <= cap {
            base as nat
        } else {
            cap as nat
        }
    } else {
        let d = 2 * capped_backoff(base, cap, (k - 1) as nat);
        if d <= cap {
            d
        } else {
            cap as nat
        }
    }
}

/// The delay after `attempt_count` failed attempts: the upper half of the
/// capped delay, placed within that half by `jitter`.
pub open spec fn backoff_spec(base: u64, cap: u64, attempt_count: u32, jitter: u64) -> nat {
    let d = capped_backoff(base, cap, if attempt_count == 0 { 0 } else { (attempt_count - 1) as nat });
    (d - d / 2 + (jitter as nat) % (d / 2 + 1)) as nat
}

proof fn lemma_capped_le(base: u64, cap: u64, k: nat)
    ensures
        capped_backoff(base, cap, k) <= cap,
    decreases k,
{
    if k > 0 {
        lemma_capped_le(base, cap, (k - 1) as nat);
    }
}

impl RetryPolicy {
    /// Three attempts, 100 ms before the second, never more than 5 s.
    pub open spec fn default_spec() -> RetryPolicy {
        RetryPolicy {
            max_attempts: DEFAULT_MAX_ATTEMPTS,
            base_backoff_ms: DEFAULT_BASE_BACKOFF_MS,
            max_backoff_ms: DEFAULT_MAX_BACKOFF_MS,
        }
    }

    pub fn new(max_attempts: u32, base_backoff_ms: u64, max_backoff_ms: u64) -> (r: RetryPolicy)
        ensures
            r == (RetryPolicy { max_attempts, base_backoff_ms, max_backoff_ms }),
    {
        RetryPolicy { max_attempts, base_backoff_ms, max_backoff_ms }
    }

    /// Whether another attempt follows `attempt_count` attempts that ended in
    /// `last_error`: only a transient fault is retried, and only while
    /// attempts remain.
    pub fn should_retry(&self, attempt_count: u32, last_error: &ClientError) -> (r: bool)
        ensures
            r == (attempt_count < self.max_attempts && last_error.is_transient()),
    {
        attempt_count < self.max_attempts && last_error.transient()
    }

    /// The endpoint tried after `previous`, in turn among `count` endpoints.
    pub fn next_endpoint(previous: usize, count: usize) -> (r: usize)
        requires
            previous < count,
        ensures
            r == (previous + 1) % (count as int),
            r < count,
    {
        if previous + 1 == count {
            proof {
                vstd::arithmetic::div_mod::lemma_mod_self_0(count as int);
            }
            0
        } else {
            proof {
                vstd::arithmetic::div_mod::lemma_small_mod((previous + 1) as nat, count as nat);
            }
            previous + 1
        }
    }

    /// The delay, in milliseconds, before the attempt that follows
    /// `attempt_count` failed ones.
    pub fn backoff(&self, attempt_count: u32, jitter: u64) -> (r: u64)
        ensures
            r == backoff_spec(self.base_backoff_ms, self.max_backoff_ms, attempt_count, jitter),
            r <= self.max_backoff_ms,
    {
        let cap = self.max_backoff_ms;
        let mut d: u64 = if self.base_backoff_ms <= cap {
            self.base_backoff_ms
        } else {
            cap
        };
        let k: u32 = if attempt_count == 0 {
            0
        } else {
            attempt_count - 1
        };
        let mut i: u32 = 0;
        while i < k
            invariant
                i <= k,
                d == capped_backoff(self.base_backoff_ms, cap, i as nat),
            decreases k - i,
        {
            proof {
                lemma_capped_le(self.base_backoff_ms, cap, i as nat);
            }
            d = if d > cap / 2 {
                cap
            } else {
                d * 2
            };
            i = i + 1;
        }
        let half = d / 2;
        d - half + jitter % (half + 1)
    }
}

impl Default for RetryPolicy {
    fn default() -> (r: RetryPolicy)
        ensures
            r == RetryPolicy::default_spec(),
    {
        RetryPolicy {
            max_attempts: DEFAULT_MAX_ATTEMPTS,
            base_backoff_ms: DEFAULT_BASE_BACKOFF_MS,
            max_backoff_ms: DEFAULT_MAX_BACKOFF_MS,
        }
    }
}

} // verus!
