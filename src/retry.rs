//! The retry policy of the send path: exponential backoff from the error's own
//! base delay, capped, and never a retry of a non-retryable error.

use crate::error::{retryable, Error};
use vstd::prelude::*;

verus! {

/// The longest delay between two attempts, in milliseconds.
pub const MAX_BACKOFF_MS: u64 = 30000;

/// The base delay of the send path's backoff: the largest base delay that a
/// retryable error names.
pub const RETRY_BASE_MS: u64 = 200;

/// `2` to the power `n`.
pub open spec fn pow2(n: nat) -> nat
    decreases n,
{
    if n == 0 {
        1
    } else {
        2 * pow2((n - 1) as nat)
    }
}

/// The delay before retry number `attempt + 1`: `base * 2^attempt`, capped.
pub open spec fn backoff(base: u64, attempt: u32) -> u64 {
    if base * pow2(attempt as nat) >= MAX_BACKOFF_MS {
        MAX_BACKOFF_MS
    } else {
        (base * pow2(attempt as nat)) as u64
    }
}

proof fn lemma_pow2_monotonic(a: nat, b: nat)
    requires
        a <= b,
    ensures
        pow2(a) <= pow2(b),
        pow2(a) >= 1,
    decreases b,
{
    if b > a {
        lemma_pow2_monotonic(a, (b - 1) as nat);
    } else if a > 0 {
        lemma_pow2_monotonic((a - 1) as nat, (a - 1) as nat);
    }
}

/// The capped exponential delay before retry number `attempt + 1`.
pub fn backoff_delay(base: u64, attempt: u32) -> (r: u64)
    ensures
        r == backoff(base, attempt),
{
    let mut d: u64 = base;
    let mut i: u32 = 0;
    if base >= MAX_BACKOFF_MS {
        proof {
            lemma_pow2_monotonic(0, attempt as nat);
            assert(base * pow2(attempt as nat) >= base) by (nonlinear_arith)
                requires
                    pow2(attempt as nat) >= 1,
            ;
        }
        return MAX_BACKOFF_MS;
    }
    assert(pow2(0) == 1);
    while i < attempt
        invariant
            i <= attempt,
            d < MAX_BACKOFF_MS,
            d == base * pow2(i as nat),
        decreases attempt - i,
    {
        proof {
            assert(pow2((i + 1) as nat) == 2 * pow2(i as nat));
            assert(base * pow2((i + 1) as nat) == 2 * d) by (nonlinear_arith)
                requires
                    d == base * pow2(i as nat),
                    pow2((i + 1) as nat) == 2 * pow2(i as nat),
            ;
        }
        if d >= MAX_BACKOFF_MS / 2 {
            proof {
                lemma_pow2_monotonic((i + 1) as nat, attempt as nat);
                assert(base * pow2(attempt as nat) >= base * pow2((i + 1) as nat)) by (
                nonlinear_arith)
                    requires
                        pow2(attempt as nat) >= pow2((i + 1) as nat),
                ;
            }
            return MAX_BACKOFF_MS;
        }
        d = d * 2;
        i = i + 1;
    }
    d
}

/// Backoff delays never shrink from one attempt to the next.
pub proof fn lemma_backoff_monotonic(base: u64, a: u32, b: u32)
    requires
        a <= b,
    ensures
        backoff(base, a) <= backoff(base, b),
{
    lemma_pow2_monotonic(a as nat, b as nat);
    assert(base * pow2(a as nat) <= base * pow2(b as nat)) by (nonlinear_arith)
        requires
            pow2(a as nat) <= pow2(b as nat),
    ;
}

/// What the send path does after a failed attempt.
#[derive(Debug, Clone, Copy, PartialEq, Eq, Structural)]
pub enum RetryDecision {
    /// Wait this long, then try again.
    Retry { delay_ms: u64 },
    /// Report the error.
    GiveUp,
}

/// The retry decision after attempt number `attempt` (from 0) of at most
/// `max_attempts` failed with `err`. The delay depends on the attempt alone,
/// so the delays of one send never shrink, whatever errors it meets.
pub open spec fn retry_spec(err: &Error, attempt: u32, max_attempts: u32) -> RetryDecision {
    if !retryable(err) || attempt as int + 1 >= max_attempts as int {
        RetryDecision::GiveUp
    } else {
        RetryDecision::Retry { delay_ms: backoff(RETRY_BASE_MS, attempt) }
    }
}

/// Decides whether to try again after attempt number `attempt` failed with
/// `err`: only a retryable error is retried, and only while attempts remain.
pub fn retry_decision(err: &Error, attempt: u32, max_attempts: u32) -> (r: RetryDecision)
    ensures
        r == retry_spec(err, attempt, max_attempts),
{
    if !err.is_retryable() || attempt as u64 + 1 >= max_attempts as u64 {
        RetryDecision::GiveUp
    } else {
        RetryDecision::Retry { delay_ms: backoff_delay(RETRY_BASE_MS, attempt) }
    }
}

/// A non-retryable error is never retried; a retryable one is retried only
/// while fewer than `max_attempts` attempts were made, so at most
/// `max_attempts - 1` times; and the delays never shrink from one attempt to
/// a later one, whichever errors the two attempts met.
pub proof fn lemma_retry_policy(e1: &Error, e2: &Error, a: u32, b: u32, max_attempts: u32)
    requires
        a <= b,
    ensures
        !retryable(e1) ==> retry_spec(e1, a, max_attempts) == RetryDecision::GiveUp,
        retry_spec(e1, a, max_attempts) is Retry ==> a + 1 < max_attempts,
        (retry_spec(e2, b, max_attempts) is Retry && retryable(e1)) ==> retry_spec(
            e1,
            a,
            max_attempts,
        ) is Retry,
        (retry_spec(e1, a, max_attempts) is Retry && retry_spec(e2, b, max_attempts) is Retry)
            ==> retry_spec(e1, a, max_attempts)->delay_ms <= retry_spec(
            e2,
            b,
            max_attempts,
        )->delay_ms,
{
    lemma_backoff_monotonic(RETRY_BASE_MS, a, b);
}

} // verus!
