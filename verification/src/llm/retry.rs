//! Retry policy for model calls: which failures are transient, how long to
//! back off before each retry, and when to give up.
use vstd::prelude::*;
use vstd::arithmetic::power2::{lemma2_to64_rest, lemma_pow2_strictly_increases, lemma_pow2_unfold, pow2};

use crate::text::{contains, contains_str, lowercase, lowercase_chars};

verus! {

/// Default number of retries after the first attempt.
pub const DEFAULT_MAX_RETRIES: u32 = 3;

/// Default delay before the first retry, in milliseconds.
pub const DEFAULT_BASE_DELAY_MS: u64 = 1000;

/// Longest delay between attempts, in milliseconds.
pub const DEFAULT_MAX_DELAY_MS: u64 = 30_000;

/// Phrases of transient failures (rate limits, server errors, network trouble).
pub open spec fn transient_markers() -> Seq<Seq<char>> {
    seq![
        "rate limit"@,
        "429"@,
        "500"@,
        "502"@,
        "503"@,
        "server error"@,
        "http error"@,
        "timeout"@,
        "connection"@,
        "temporarily unavailable"@,
    ]
}

/// An error with this message is worth retrying: its lowercased text names a
/// transient failure.
pub open spec fn retryable(message: Seq<char>) -> bool {
    exists|i: int| 0 <= i < transient_markers().len() && contains(lowercase(message), #[trigger] transient_markers()[i])
}

/// How calls are retried.
#[derive(Debug, Clone, Copy, PartialEq, Eq, Structural)]
pub struct RetryPolicy {
    pub max_retries: u32,
    pub base_delay_ms: u64,
    pub max_delay_ms: u64,
}

/// The back-off before retry number `attempt` (from zero): the base delay
/// doubled `attempt` times (saturating), plus a jitter of `137 * attempt`
/// modulo half that, capped at the longest delay.
pub open spec fn backoff(base_delay: int, max_delay: int, attempt: int) -> int {
    let full: int = base_delay * pow2(attempt as nat);
    let base = if full > u64::MAX {
        u64::MAX as int
    } else {
        full
    };
    let range: int = base / 4;
    let jitter: int = if range > 0 {
        (attempt * 137) % (range * 2)
    } else {
        0
    };
    if base + jitter <= max_delay {
        base + jitter
    } else {
        max_delay
    }
}

/// Computing the back-off stays within `u64` (the sum of base and jitter
/// does not overflow).
pub open spec fn backoff_fits(base_delay: int, attempt: int) -> bool {
    let full: int = base_delay * pow2(attempt as nat);
    let base = if full > u64::MAX {
        u64::MAX as int
    } else {
        full
    };
    let range: int = base / 4;
    let jitter: int = if range > 0 {
        (attempt * 137) % (range * 2)
    } else {
        0
    };
    attempt < 64 && base + jitter <= u64::MAX
}

/// What to do after a failed attempt.
#[derive(Debug, Clone, Copy, PartialEq, Eq, Structural)]
pub enum RetryStep {
    /// Wait this many milliseconds, then try again.
    RetryAfter(u64),
    /// Give up and report the error.
    GiveUp,
}

fn two_to_the(n: u32) -> (r: u64)
    requires
        n < 64,
    ensures
        r == pow2(n as nat),
{
    let mut r: u64 = 1;
    let mut i: u32 = 0;
    proof {
        lemma2_to64_rest();
        assert(pow2(0) == 1) by {
            vstd::arithmetic::power2::lemma2_to64();
        }
    }
    while i < n
        invariant
            i <= n < 64,
            r == pow2(i as nat),
            pow2(63) == 0x8000000000000000,
        decreases n - i,
    {
        proof {
            lemma_pow2_unfold((i + 1) as nat);
            if i < 63 {
                lemma_pow2_strictly_increases(i as nat, 63);
            }
        }
        r = r * 2;
        i = i + 1;
    }
    r
}

impl RetryPolicy {
    /// The default policy: 3 retries, 1 s base delay, 30 s longest delay.
    pub fn new() -> (r: Self)
        ensures
            r.max_retries == 3,
            r.base_delay_ms == 1000,
            r.max_delay_ms == 30_000,
    {
        RetryPolicy {
            max_retries: DEFAULT_MAX_RETRIES,
            base_delay_ms: DEFAULT_BASE_DELAY_MS,
            max_delay_ms: DEFAULT_MAX_DELAY_MS,
        }
    }

    /// A policy with the given retries and base delay (30 s longest delay).
    pub fn with_config(max_retries: u32, base_delay_ms: u64) -> (r: Self)
        ensures
            r.max_retries == max_retries,
            r.base_delay_ms == base_delay_ms,
            r.max_delay_ms == 30_000,
    {
        RetryPolicy { max_retries, base_delay_ms, max_delay_ms: DEFAULT_MAX_DELAY_MS }
    }

    /// Whether an error with this message is transient.
    pub fn is_retryable(message: &str) -> (b: bool)
        ensures
            b == retryable(message@),
    {
        let m = lowercase_chars(message);
        let phrases: [&str; 10] = [
            "rate limit",
            "429",
            "500",
            "502",
            "503",
            "server error",
            "http error",
            "timeout",
            "connection",
            "temporarily unavailable",
        ];
        let mut k: usize = 0;
        proof {
            assert(transient_markers() =~= seq![
                phrases@[0]@,
                phrases@[1]@,
                phrases@[2]@,
                phrases@[3]@,
                phrases@[4]@,
                phrases@[5]@,
                phrases@[6]@,
                phrases@[7]@,
                phrases@[8]@,
                phrases@[9]@,
            ]);
        }
        while k < 10
            invariant
                k <= 10,
                m@ == lowercase(message@),
                phrases@.len() == 10,
                forall|i: int| 0 <= i < 10 ==> transient_markers()[i] == (#[trigger] phrases@[i])@,
                forall|i: int| 0 <= i < k ==> !contains(m@, #[trigger] transient_markers()[i]),
            decreases 10 - k,
        {
            if contains_str(&m, phrases[k]) {
                proof {
                    assert(transient_markers()[k as int] == phrases@[k as int]@);
                }
                return true;
            }
            k = k + 1;
        }
        false
    }

    /// The back-off before retry number `attempt`.
    pub fn delay_ms(&self, attempt: u32) -> (r: u64)
        requires
            backoff_fits(self.base_delay_ms as int, attempt as int),
        ensures
            r == backoff(self.base_delay_ms as int, self.max_delay_ms as int, attempt as int),
    {
        let p = two_to_the(attempt);
        let base: u64 = match self.base_delay_ms.checked_mul(p) {
            Some(v) => v,
            None => u64::MAX,
        };
        let range = base / 4;
        let jitter = if range > 0 {
            (attempt as u64 * 137) % (range * 2)
        } else {
            0
        };
        let total = base + jitter;
        if total <= self.max_delay_ms {
            total
        } else {
            self.max_delay_ms
        }
    }

    /// After attempt number `attempt` (from zero) failed with `message`:
    /// retry after the back-off while retries remain and the failure is
    /// transient; else give up.
    pub fn after_failure(&self, attempt: u32, message: &str) -> (r: RetryStep)
        requires
            attempt < self.max_retries ==> backoff_fits(self.base_delay_ms as int, attempt as int),
        ensures
            r == if attempt < self.max_retries && retryable(message@) {
                RetryStep::RetryAfter(
                    backoff(self.base_delay_ms as int, self.max_delay_ms as int, attempt as int) as u64,
                )
            } else {
                RetryStep::GiveUp
            },
    {
        if attempt < self.max_retries && Self::is_retryable(message) {
            RetryStep::RetryAfter(self.delay_ms(attempt))
        } else {
            RetryStep::GiveUp
        }
    }
}

} // verus!
