//! The retry orchestrator's decisions: a bounded number of attempts, a
//! per-attempt timeout, and a backoff delay that grows with the attempt
//! and stretches for rate-limited failures. The caller performs the
//! remote call and the sleep; this module decides what to do next.

use vstd::prelude::*;
use vstd::string::StringExecFns;

use crate::text::{contains_seq_ci, contains_sub_ci};

verus! {

/// Attempts made against the backend before giving up.
pub const MAX_RETRIES: usize = 3;

/// Bound on each backend request, in milliseconds.
pub const REQUEST_TIMEOUT_MS: u64 = 30000;

/// The backoff before the next attempt: one second per attempt already
/// made when the failure text speaks of rate limiting, else 300 ms per
/// attempt.
pub open spec fn spec_backoff_ms(failure: Seq<char>, attempt: int) -> int {
    (if contains_seq_ci(failure, "rate limit"@) {
        1000int
    } else {
        300int
    }) * (attempt + 1)
}

/// Compute the backoff delay after a failed attempt.
pub fn compute_backoff_delay(failure_text: &str, attempt: usize) -> (ms: u64)
    requires
        attempt < MAX_RETRIES,
    ensures
        ms == spec_backoff_ms(failure_text@, attempt as int),
{
    let base: u64 = if contains_sub_ci(failure_text, "rate limit") {
        1000
    } else {
        300
    };
    base * (attempt as u64 + 1)
}

/// What the orchestrator does after a failed attempt: sleep and try
/// again, or stop at once on the final attempt.
#[derive(Debug, Clone, PartialEq, Eq)]
pub enum RetryDecision {
    RetryAfterMs(u64),
    GiveUp,
}

/// Decide whether a failed attempt is retried. Only transport-level
/// failures reach this point: a received-but-unparsable reply is
/// terminal and never retried.
pub fn retry_decision(attempt: usize, failure_text: &str) -> (r: RetryDecision)
    requires
        attempt < MAX_RETRIES,
    ensures
        attempt + 1 == MAX_RETRIES ==> r == RetryDecision::GiveUp,
        attempt + 1 < MAX_RETRIES ==> r == RetryDecision::RetryAfterMs(
            spec_backoff_ms(failure_text@, attempt as int) as u64,
        ),
{
    if attempt + 1 == MAX_RETRIES {
        RetryDecision::GiveUp
    } else {
        RetryDecision::RetryAfterMs(compute_backoff_delay(failure_text, attempt))
    }
}

/// The synthetic failure text recorded when an attempt exceeds its
/// timeout; it is treated exactly like a remote error.
pub fn timeout_failure_text() -> (r: String)
    ensures
        r@ == "Request timed out"@,
{
    String::from_str("Request timed out")
}

} // verus!
