//! Exponential backoff between retry attempts.
use std::time::Duration;

use pravega_client_retry::retry_policy::RetryWithBackoff;
use vstd::arithmetic::power::{lemma0_pow, lemma_pow0, lemma_pow_positive, pow};
use vstd::prelude::*;

verus! {

/// Initial delay of the default policy, in milliseconds.
pub const DEFAULT_INITIAL_DELAY_MS: u64 = 0;

/// Growth factor of the default policy.
pub const DEFAULT_BACKOFF_COEFFICIENT: u32 = 2;

/// Longest delay of the default policy, in milliseconds.
pub const DEFAULT_MAX_DELAY_MS: u64 = 0;

/// Retries that the default policy allows: the doubling schedule with no
/// ceiling ends where the power of two no longer fits in a `u32`.
pub const DEFAULT_MAX_ATTEMPT: usize = 32;

/// How long to wait before each retry, and how many retries to allow.
///
/// The delay before retry number `i` (counting from zero) is
/// `initial_delay_ms * backoff_coefficient^i`, capped at `max_delay_ms`.
/// `max_attempt` bounds the number of retries; `None` leaves it unbounded.
#[derive(Clone, Copy, Debug, PartialEq, Eq)]
pub struct BackoffPolicy {
    pub initial_delay_ms: u64,
    pub backoff_coefficient: u32,
    pub max_delay_ms: u64,
    pub max_attempt: Option<usize>,
}

impl BackoffPolicy {
    /// Delay before retry number `attempt`, in milliseconds.
    ///
    /// Where the power of the coefficient does not fit in a `u32` the delay
    /// is the ceiling.
    pub open spec fn delay_spec(self, attempt: nat) -> nat {
        let c = pow(self.backoff_coefficient as int, attempt);
        if c > u32::MAX {
            self.max_delay_ms as nat
        } else if self.initial_delay_ms * c < self.max_delay_ms {
            (self.initial_delay_ms * c) as nat
        } else {
            self.max_delay_ms as nat
        }
    }

    /// No retry number `attempt` is allowed. Besides the configured bound, the
    /// count of tries (retries and the first try) stops where a `usize` ends.
    pub open spec fn exhausted_spec(self, attempt: nat) -> bool {
        ||| attempt + 1 >= usize::MAX
        ||| (self.max_attempt.is_some() && attempt >= self.max_attempt.unwrap())
    }

    /// The default policy: retry at once, up to 32 times. This is the schedule
    /// of the table client's default backoff with coefficient 2, whose delays
    /// are all zero and which ends after 32 of them.
    pub open spec fn default_spec() -> BackoffPolicy {
        BackoffPolicy {
            initial_delay_ms: DEFAULT_INITIAL_DELAY_MS,
            backoff_coefficient: DEFAULT_BACKOFF_COEFFICIENT,
            max_delay_ms: DEFAULT_MAX_DELAY_MS,
            max_attempt: Some(DEFAULT_MAX_ATTEMPT),
        }
    }

    /// The default policy.
    pub fn default_policy() -> (r: BackoffPolicy)
        ensures
            r == BackoffPolicy::default_spec(),
    {
        BackoffPolicy {
            initial_delay_ms: DEFAULT_INITIAL_DELAY_MS,
            backoff_coefficient: DEFAULT_BACKOFF_COEFFICIENT,
            max_delay_ms: DEFAULT_MAX_DELAY_MS,
            max_attempt: Some(DEFAULT_MAX_ATTEMPT),
        }
    }

    /// Whether retry number `attempt` is not allowed.
    pub fn is_exhausted(&self, attempt: usize) -> (r: bool)
        ensures
            r == self.exhausted_spec(attempt as nat),
    {
        if attempt >= usize::MAX - 1 {
            return true;
        }
        match self.max_attempt {
            Some(m) => attempt >= m,
            None => false,
        }
    }

    /// Delay before retry number `attempt`, in milliseconds.
    pub fn next_delay(&self, attempt: usize) -> (r: u64)
        requires
            attempt < usize::MAX,
        ensures
            r == self.delay_spec(attempt as nat),
    {
        proof {
            lemma_delay_within_ceiling(*self, attempt as nat);
        }
        match schedule_delay(self.initial_delay_ms, self.backoff_coefficient, self.max_delay_ms, attempt) {
            Some(d) => d,
            None => self.max_delay_ms,
        }
    }
}

/// No delay is longer than the ceiling.
pub proof fn lemma_delay_within_ceiling(p: BackoffPolicy, attempt: nat)
    ensures
        p.delay_spec(attempt) <= p.max_delay_ms,
{
    let c = pow(p.backoff_coefficient as int, attempt);
    if p.backoff_coefficient > 0 {
        lemma_pow_positive(p.backoff_coefficient as int, attempt);
    } else if attempt > 0 {
        lemma0_pow(attempt);
    } else {
        lemma_pow0(0);
    }
    assert(c >= 0);
    assert(p.initial_delay_ms * c >= 0) by (nonlinear_arith)
        requires
            c >= 0,
    ;
}

/// Relies on `RetryWithBackoff` of pravega_client_retry, with no attempt bound
/// and no expiration time: its `attempt`-th delay (from zero) is the initial
/// delay times the coefficient to the power `attempt`, the ceiling where that
/// power overflows a `u32`, and never more than the ceiling. With a ceiling
/// set the schedule never ends.
#[verifier::external_body]
fn schedule_delay(initial_delay_ms: u64, backoff_coefficient: u32, max_delay_ms: u64, attempt: usize) -> (r: Option<u64>)
    requires
        attempt < usize::MAX,
    ensures
        r == Some((BackoffPolicy {
            initial_delay_ms,
            backoff_coefficient,
            max_delay_ms,
            max_attempt: None,
        }).delay_spec(attempt as nat) as u64),
{
    RetryWithBackoff::default_setting()
        .initial_delay(Duration::from_millis(initial_delay_ms))
        .backoff_coefficient(backoff_coefficient)
        .max_delay(Duration::from_millis(max_delay_ms))
        .nth(attempt)
        .map(|d| d.as_millis() as u64)
}

} // verus!
