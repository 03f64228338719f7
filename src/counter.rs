//! Counters kept as single entries of a versioned key-value table.
//!
//! Each operation is a session. Whoever drives the table starts by reading
//! the counter's key, hands each result of a read or of a conditional write to
//! the session, and performs the action that comes back, until it is
//! `Action::Finish`.
use crate::backoff::BackoffPolicy;
use crate::retry::{Decision, Outcome, RetryError, RetryState};
use vstd::prelude::*;

verus! {

/// Why a counter operation failed.
#[derive(Debug, PartialEq, Eq)]
pub enum CounterError<E> {
    /// The key holds no counter: initialize it first.
    KeyDoesNotExist,
    /// The new value does not fit in an `i64`; nothing was written.
    Overflow,
    /// The table kept failing until the retry policy gave up; this is the last
    /// cause it reported.
    Store(RetryError<E>),
}

/// What the driver of the table does next.
#[derive(Debug, PartialEq, Eq)]
pub enum Action<R, E> {
    /// Wait this many milliseconds, then read the key: its value and version.
    Read { delay_ms: u64 },
    /// Write `value` to the key, on condition that its version is still
    /// `version`.
    Commit { value: i64, version: i64 },
    /// The operation is over, with this result.
    Finish(Result<R, CounterError<E>>),
}

/// The action that follows a retry decision on a failed read or write.
pub open spec fn after_failure<R, E>(d: Decision<R, E>) -> Action<R, E> {
    match d {
        Decision::Done(r) => Action::Finish(Ok(r)),
        Decision::Wait { delay_ms } => Action::Read { delay_ms },
        Decision::GiveUp(e) => Action::Finish(Err(CounterError::Store(e))),
    }
}

/// A read of a counter's current value.
#[derive(Clone, Copy, Debug, PartialEq, Eq)]
pub struct ValueQuery {
    pub retry: RetryState,
}

impl ValueQuery {
    pub open spec fn wf(self) -> bool {
        self.retry.wf()
    }

    /// The next session and action after a read of the key: a value is
    /// returned, an absent key fails at once, a failed read is retried.
    pub open spec fn on_read_spec<E>(self, read: Result<Option<(i64, i64)>, E>) -> (ValueQuery, Action<i64, E>) {
        match read {
            Ok(Some((value, _version))) => (self, Action::Finish(Ok(value))),
            Ok(None) => (self, Action::Finish(Err(CounterError::KeyDoesNotExist))),
            Err(e) => {
                let (retry, d) = self.retry.decide_spec(Outcome::<i64, E>::Retry(e));
                (ValueQuery { retry }, after_failure(d))
            },
        }
    }

    /// Takes the result of a read of the key, as (value, version) where the
    /// key is present.
    pub fn on_read<E>(&mut self, read: Result<Option<(i64, i64)>, E>) -> (r: Action<i64, E>)
        requires
            old(self).wf(),
        ensures
            (*final(self), r) == old(self).on_read_spec(read),
            final(self).wf(),
    {
        match read {
            Ok(Some((value, _version))) => Action::Finish(Ok(value)),
            Ok(None) => Action::Finish(Err(CounterError::KeyDoesNotExist)),
            Err(e) => failure_action(self.retry.decide(Outcome::<i64, E>::Retry(e))),
        }
    }
}

/// A change of a counter by a signed amount, by read, add and conditional
/// write, the whole cycle again after each failed read or write.
#[derive(Clone, Copy, Debug, PartialEq, Eq)]
pub struct CounterUpdate {
    pub delta: i128,
    pub retry: RetryState,
}

impl CounterUpdate {
    pub open spec fn wf(self) -> bool {
        &&& self.retry.wf()
        &&& i64::MIN <= -self.delta <= i64::MAX + 1
    }

    /// The next session and action after a read of the key: a present value
    /// is changed by `delta` and written back on condition of the version
    /// read; an absent key fails at once; a failed read is retried.
    pub open spec fn on_read_spec<E>(self, read: Result<Option<(i64, i64)>, E>) -> (CounterUpdate, Action<(), E>) {
        match read {
            Ok(Some((value, version))) => {
                let new_value = value + self.delta;
                if i64::MIN <= new_value <= i64::MAX {
                    (self, Action::Commit { value: new_value as i64, version })
                } else {
                    (self, Action::Finish(Err(CounterError::Overflow)))
                }
            },
            Ok(None) => (self, Action::Finish(Err(CounterError::KeyDoesNotExist))),
            Err(e) => {
                let (retry, d) = self.retry.decide_spec(Outcome::<(), E>::Retry(e));
                (CounterUpdate { retry, ..self }, after_failure(d))
            },
        }
    }

    /// The next session and action after a conditional write: done where it
    /// was accepted, else (a version conflict, or the table failed) the cycle
    /// is retried from the read.
    pub open spec fn on_commit_spec<E>(self, written: Result<i64, E>) -> (CounterUpdate, Action<(), E>) {
        match written {
            Ok(_version) => (self, Action::Finish(Ok(()))),
            Err(e) => {
                let (retry, d) = self.retry.decide_spec(Outcome::<(), E>::Retry(e));
                (CounterUpdate { retry, ..self }, after_failure(d))
            },
        }
    }

    /// Takes the result of a read of the key, as (value, version) where the
    /// key is present.
    pub fn on_read<E>(&mut self, read: Result<Option<(i64, i64)>, E>) -> (r: Action<(), E>)
        requires
            old(self).wf(),
        ensures
            (*final(self), r) == old(self).on_read_spec(read),
            final(self).wf(),
    {
        match read {
            Ok(Some((value, version))) => {
                let new_value = value as i128 + self.delta;
                if i64::MIN as i128 <= new_value && new_value <= i64::MAX as i128 {
                    Action::Commit { value: new_value as i64, version }
                } else {
                    Action::Finish(Err(CounterError::Overflow))
                }
            },
            Ok(None) => Action::Finish(Err(CounterError::KeyDoesNotExist)),
            Err(e) => failure_action(self.retry.decide(Outcome::<(), E>::Retry(e))),
        }
    }

    /// Takes the result of the conditional write: the key's new version, or
    /// why the write was refused.
    pub fn on_commit<E>(&mut self, written: Result<i64, E>) -> (r: Action<(), E>)
        requires
            old(self).wf(),
        ensures
            (*final(self), r) == old(self).on_commit_spec(written),
            final(self).wf(),
    {
        match written {
            Ok(_version) => Action::Finish(Ok(())),
            Err(e) => failure_action(self.retry.decide(Outcome::<(), E>::Retry(e))),
        }
    }
}

/// The action that follows a retry decision on a failed read or write.
fn failure_action<R, E>(d: Decision<R, E>) -> (r: Action<R, E>)
    ensures
        r == after_failure(d),
{
    match d {
        Decision::Done(r) => Action::Finish(Ok(r)),
        Decision::Wait { delay_ms } => Action::Read { delay_ms },
        Decision::GiveUp(e) => Action::Finish(Err(CounterError::Store(e))),
    }
}


/// A key-value table of counters: each key maps to one counter.
///
/// `table` is the handle of the versioned table and `runtime_handle` that of
/// the runtime that performs its calls. The library keeps them for the driver
/// of the sessions and never calls them itself.
pub struct CountersTable<T, H> {
    pub table: T,
    pub runtime_handle: H,
    pub retry_policy: BackoffPolicy,
}

/// The session that reads a counter under `policy`.
pub open spec fn query_session(policy: BackoffPolicy) -> ValueQuery {
    ValueQuery { retry: RetryState { policy, retries: 0 } }
}

/// The session that changes a counter by `delta` under `policy`.
pub open spec fn update_session(policy: BackoffPolicy, delta: int) -> CounterUpdate {
    CounterUpdate { delta: delta as i128, retry: RetryState { policy, retries: 0 } }
}

impl<T, H> CountersTable<T, H> {
    /// A table of counters over these handles, under the default retry policy.
    pub fn new(table: T, runtime_handle: H) -> (r: Self)
        ensures
            r.table == table,
            r.runtime_handle == runtime_handle,
            r.retry_policy == BackoffPolicy::default_spec(),
    {
        CountersTable { table, runtime_handle, retry_policy: BackoffPolicy::default_policy() }
    }

    /// The same table under another retry policy.
    pub fn with_retry_policy(self, retry_policy: BackoffPolicy) -> (r: Self)
        ensures
            r.table == self.table,
            r.runtime_handle == self.runtime_handle,
            r.retry_policy == retry_policy,
    {
        CountersTable { retry_policy, ..self }
    }

    /// The policy that a table of counters starts with.
    pub fn get_default_retry_policy(&self) -> (r: BackoffPolicy)
        ensures
            r == BackoffPolicy::default_spec(),
    {
        BackoffPolicy::default_policy()
    }

    /// Starts a read of a counter's value. The first action is a read of the
    /// key, at once.
    pub fn get_value(&self) -> (r: ValueQuery)
        ensures
            r == query_session(self.retry_policy),
            r.wf(),
    {
        ValueQuery { retry: RetryState::new(self.retry_policy) }
    }

    /// Starts adding `increment_value` to a counter. The first action is a
    /// read of the key, at once.
    pub fn increment(&self, increment_value: i64) -> (r: CounterUpdate)
        ensures
            r == update_session(self.retry_policy, increment_value as int),
            r.wf(),
    {
        CounterUpdate { delta: increment_value as i128, retry: RetryState::new(self.retry_policy) }
    }

    /// Starts subtracting `decrement_value` from a counter. The first action
    /// is a read of the key, at once.
    pub fn decrement(&self, decrement_value: i64) -> (r: CounterUpdate)
        ensures
            r == update_session(self.retry_policy, -(decrement_value as int)),
            r.wf(),
    {
        CounterUpdate { delta: -(decrement_value as i128), retry: RetryState::new(self.retry_policy) }
    }
}

} // verus!
