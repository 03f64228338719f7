//! Decisions of a retry loop: after each outcome of an operation, whether to
//! return, to wait and try again, or to give up.
use crate::backoff::BackoffPolicy;
use vstd::prelude::*;

verus! {

/// What one try of an operation came to.
#[derive(Debug, PartialEq, Eq)]
pub enum Outcome<T, E> {
    /// The operation is done, with this value.
    Success(T),
    /// The operation failed and may be tried again.
    Retry(E),
    /// The operation failed for good.
    Fail(E),
}

/// Why a retried operation did not succeed: the cause that the last try
/// reported, and how many tries were made.
#[derive(Debug, PartialEq, Eq)]
pub struct RetryError<E> {
    pub error: E,
    pub tries: usize,
}

/// What to do after an outcome.
#[derive(Debug, PartialEq, Eq)]
pub enum Decision<T, E> {
    /// Return this value.
    Done(T),
    /// Wait this many milliseconds, then try again.
    Wait { delay_ms: u64 },
    /// Stop and report this failure.
    GiveUp(RetryError<E>),
}

/// The progress of one retried operation: its policy and the number of
/// retries already granted.
#[derive(Clone, Copy, Debug, PartialEq, Eq)]
pub struct RetryState {
    pub policy: BackoffPolicy,
    pub retries: usize,
}

impl RetryState {
    /// The count of tries still fits in a `usize`.
    pub open spec fn wf(self) -> bool {
        self.retries < usize::MAX
    }

    /// The next state and the decision after `outcome`.
    ///
    /// A success is returned; a terminal failure is reported at once; a
    /// retryable failure is retried after the policy's next delay, unless the
    /// policy is exhausted, in which case that failure is reported.
    pub open spec fn decide_spec<T, E>(self, outcome: Outcome<T, E>) -> (RetryState, Decision<T, E>) {
        match outcome {
            Outcome::Success(t) => (self, Decision::Done(t)),
            Outcome::Fail(e) => (self, Decision::GiveUp(RetryError { error: e, tries: (self.retries + 1) as usize })),
            Outcome::Retry(e) => if self.policy.exhausted_spec(self.retries as nat) {
                (self, Decision::GiveUp(RetryError { error: e, tries: (self.retries + 1) as usize }))
            } else {
                (
                    RetryState { retries: (self.retries + 1) as usize, ..self },
                    Decision::Wait { delay_ms: self.policy.delay_spec(self.retries as nat) as u64 },
                )
            },
        }
    }

    /// A fresh state: no retry granted yet.
    pub fn new(policy: BackoffPolicy) -> (r: RetryState)
        ensures
            r.policy == policy,
            r.retries == 0,
            r.wf(),
    {
        RetryState { policy, retries: 0 }
    }

    /// Decides what follows `outcome`.
    pub fn decide<T, E>(&mut self, outcome: Outcome<T, E>) -> (r: Decision<T, E>)
        requires
            old(self).wf(),
        ensures
            (*final(self), r) == old(self).decide_spec(outcome),
            final(self).wf(),
    {
        match outcome {
            Outcome::Success(t) => Decision::Done(t),
            Outcome::Fail(e) => Decision::GiveUp(RetryError { error: e, tries: self.retries + 1 }),
            Outcome::Retry(e) => {
                if self.policy.is_exhausted(self.retries) {
                    Decision::GiveUp(RetryError { error: e, tries: self.retries + 1 })
                } else {
                    let delay_ms = self.policy.next_delay(self.retries);
                    self.retries = self.retries + 1;
                    Decision::Wait { delay_ms }
                }
            },
        }
    }
}

} // verus!
