//! Error classification and the retry policy: which failures may be retried,
//! and the exponential backoff before each retry.

use vstd::prelude::*;

use crate::error::BojError;

verus! {

/// Two to the given power.
pub open spec fn pow2(n: nat) -> nat
    decreases n,
{
    if n == 0 {
        1
    } else {
        2 * pow2((n - 1) as nat)
    }
}

/// Retry eligibility: a transport failure is always retryable; a server
/// failure only with status 500 or 503; validation and decode failures
/// never, since a retry would see the same defect.
pub open spec fn spec_should_retry(error: BojError) -> bool {
    match error {
        BojError::TransportError(_) => true,
        BojError::ApiError { status, .. } => status == 500 || status == 503,
        BojError::ValidationError(_) => false,
        BojError::DecodeError(_) => false,
    }
}

/// Whether one failure may be retried; see [`spec_should_retry`].
pub fn should_retry(error: &BojError) -> (r: bool)
    ensures
        r == spec_should_retry(*error),
{
    match error {
        BojError::TransportError(_) => true,
        BojError::ApiError { status, .. } => *status == 500 || *status == 503,
        BojError::ValidationError(_) | BojError::DecodeError(_) => false,
    }
}

/// The backoff before retry `retry_index` (0-indexed): the initial backoff
/// doubled per retry, saturating at the largest representable delay.
pub open spec fn spec_delay(initial_backoff_ms: u64, retry_index: u32) -> u64 {
    if initial_backoff_ms * pow2(retry_index as nat) > u64::MAX {
        u64::MAX
    } else {
        (initial_backoff_ms * pow2(retry_index as nat)) as u64
    }
}

/// Retry policy: how many retries to attempt and the initial backoff.
#[derive(Debug, Clone, Copy, PartialEq, Eq, Structural)]
pub struct RetryPolicy {
    /// Number of retries after the first attempt.
    pub max_retries: u32,
    /// Backoff before the first retry, in milliseconds.
    pub initial_backoff_ms: u64,
}

impl RetryPolicy {
    /// The backoff before the given retry, in milliseconds; see
    /// [`spec_delay`].
    pub fn delay_for_attempt(self, retry_index: u32) -> (r: u64)
        ensures
            r == spec_delay(self.initial_backoff_ms, retry_index),
    {
        let mut m: u64 = 1;
        for k in 0..retry_index
            invariant
                pow2(k as nat) <= u64::MAX ==> m == pow2(k as nat),
                pow2(k as nat) > u64::MAX ==> m == u64::MAX,
                m >= 1,
        {
            if m > u64::MAX / 2 {
                proof {
                    if pow2(k as nat) <= u64::MAX {
                        assert(pow2((k + 1) as nat) == 2 * pow2(k as nat));
                        assert(2 * pow2(k as nat) > u64::MAX);
                    } else {
                        assert(pow2((k + 1) as nat) == 2 * pow2(k as nat));
                    }
                }
                m = u64::MAX;
            } else {
                proof {
                    assert(pow2(k as nat) <= u64::MAX / 2);
                    assert(pow2((k + 1) as nat) == 2 * pow2(k as nat));
                }
                m = m * 2;
            }
        }
        let initial = self.initial_backoff_ms;
        if initial == 0 {
            return 0;
        }
        if initial > u64::MAX / m {
            proof {
                lemma_mul_div_gt(initial, m);
                if pow2(retry_index as nat) > u64::MAX {
                    assert(initial * pow2(retry_index as nat) >= pow2(retry_index as nat))
                        by (nonlinear_arith)
                        requires
                            initial >= 1,
                    ;
                } else {
                    assert(m == pow2(retry_index as nat));
                }
            }
            u64::MAX
        } else {
            proof {
                lemma_mul_div_le(initial, m);
                if pow2(retry_index as nat) > u64::MAX {
                    assert(m == u64::MAX);
                    assert(initial == 1);
                    assert(initial * pow2(retry_index as nat) == pow2(retry_index as nat))
                        by (nonlinear_arith)
                        requires
                            initial == 1,
                    ;
                } else {
                    assert(m == pow2(retry_index as nat));
                }
            }
            initial * m
        }
    }
}

/// `a > MAX / b` implies the product overflows.
proof fn lemma_mul_div_gt(a: u64, b: u64)
    requires
        b >= 1,
        a > (u64::MAX as nat) / (b as nat),
    ensures
        a * b > u64::MAX,
{
    let q = (u64::MAX as nat) / (b as nat);
    assert(q * b + (u64::MAX as nat) % (b as nat) == u64::MAX) by (nonlinear_arith)
        requires
            b >= 1,
            q == (u64::MAX as nat) / (b as nat),
    ;
    assert(a * b >= (q + 1) * b) by (nonlinear_arith)
        requires
            a >= q + 1,
            b >= 1,
    ;
    assert((q + 1) * b == q * b + b) by (nonlinear_arith);
    assert((u64::MAX as nat) % (b as nat) < b as nat) by (nonlinear_arith)
        requires
            b >= 1,
    ;
}

/// `a <= MAX / b` implies the product fits.
proof fn lemma_mul_div_le(a: u64, b: u64)
    requires
        b >= 1,
        a <= (u64::MAX as nat) / (b as nat),
    ensures
        a * b <= u64::MAX,
{
    let q = (u64::MAX as nat) / (b as nat);
    assert(q * b <= u64::MAX) by (nonlinear_arith)
        requires
            b >= 1,
            q == (u64::MAX as nat) / (b as nat),
    ;
    assert(a * b <= q * b) by (nonlinear_arith)
        requires
            a <= q,
            b >= 1,
    ;
}

/// One retry decision: after attempt `retry_index` failed with `error`,
/// retry after the returned backoff, or give up. A caller loops: perform the
/// attempt; on failure ask this function; sleep and repeat when it allows a
/// retry; surface the error when it does not.
pub fn retry_step(policy: RetryPolicy, retry_index: u32, error: &BojError) -> (r: Option<u64>)
    ensures
        match r {
            Some(delay) => retry_index < policy.max_retries && spec_should_retry(*error)
                && delay == spec_delay(policy.initial_backoff_ms, retry_index),
            None => retry_index >= policy.max_retries || !spec_should_retry(*error),
        },
{
    if retry_index >= policy.max_retries || !should_retry(error) {
        None
    } else {
        Some(policy.delay_for_attempt(retry_index))
    }
}

} // verus!
