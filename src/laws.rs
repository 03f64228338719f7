//! What holds of the counter sessions against a table that enforces versions.
use crate::backoff::BackoffPolicy;
use crate::counter::{query_session, update_session, Action, CounterError, CounterUpdate, ValueQuery};
use crate::retry::RetryError;
use vstd::prelude::*;

verus! {

/// The version that a table gives an entry after a write over `version`:
/// any other would do, as long as it differs.
pub open spec fn next_version(version: i64) -> i64 {
    if version == i64::MAX {
        i64::MIN
    } else {
        (version + 1) as i64
    }
}

/// The entry, as (value, version), after an unconditional write of `value`
/// over `entry`.
pub open spec fn write_unconditionally(entry: Option<(i64, i64)>, value: i64) -> (i64, i64) {
    match entry {
        Some((_, version)) => (value, next_version(version)),
        None => (value, 0),
    }
}

/// The entry after a conditional write of `value` over `entry`, accepted only
/// where the entry still has `version`.
pub open spec fn write_conditionally(entry: (i64, i64), value: i64, version: i64) -> Result<(i64, i64), ()> {
    if entry.1 == version {
        Ok((value, next_version(version)))
    } else {
        Err(())
    }
}

/// The entry after a whole update session runs alone against a table that
/// enforces versions: the read sees `entry`, and the action that follows is
/// performed on it.
pub open spec fn run_alone(entry: (i64, i64), u: CounterUpdate) -> (i64, i64) {
    match u.on_read_spec::<()>(Ok(Some(entry))).1 {
        Action::Commit { value, version } => match write_conditionally(entry, value, version) {
            Ok(written) => written,
            Err(_) => entry,
        },
        _ => entry,
    }
}

/// The entry after increments by each of `deltas` in turn, each session
/// running alone.
pub open spec fn run_increments(entry: (i64, i64), policy: BackoffPolicy, deltas: Seq<i64>) -> (i64, i64)
    decreases deltas.len(),
{
    if deltas.len() == 0 {
        entry
    } else {
        let before = run_increments(entry, policy, deltas.drop_last());
        run_alone(before, update_session(policy, deltas.last() as int))
    }
}

/// The sum of `deltas`.
pub open spec fn total(deltas: Seq<i64>) -> int
    decreases deltas.len(),
{
    if deltas.len() == 0 {
        0
    } else {
        total(deltas.drop_last()) + deltas.last()
    }
}

/// Increments that run one after another lose no update: the counter ends at
/// its first value plus the sum of the deltas, provided that no running total
/// leaves the range of an `i64`.
pub proof fn lemma_sequential_increments(entry: (i64, i64), policy: BackoffPolicy, deltas: Seq<i64>)
    requires
        forall|i: int| 0 <= i <= deltas.len() ==> i64::MIN <= entry.0 + #[trigger] total(deltas.take(i)) <= i64::MAX,
    ensures
        run_increments(entry, policy, deltas).0 == entry.0 + total(deltas),
    decreases deltas.len(),
{
    if deltas.len() > 0 {
        let prefix = deltas.drop_last();
        assert forall|i: int| 0 <= i <= prefix.len() implies i64::MIN <= entry.0 + #[trigger] total(prefix.take(i)) <= i64::MAX by {
            assert(prefix.take(i) =~= deltas.take(i));
        }
        lemma_sequential_increments(entry, policy, prefix);
        assert(deltas.take(deltas.len() as int) =~= deltas);
    }
}

/// Several update sessions on one key, interleaved: the table's entry, each
/// session, the conditional write that each has pending, which have finished,
/// and which of those finished by a write that the table accepted.
pub struct Interleaving {
    pub entry: (i64, i64),
    pub sessions: Seq<CounterUpdate>,
    pub pending: Seq<Option<(i64, i64)>>,
    pub finished: Seq<bool>,
    pub committed: Seq<bool>,
}

/// The sessions before any of them has moved.
pub open spec fn interleaving_start(entry: (i64, i64), sessions: Seq<CounterUpdate>) -> Interleaving {
    Interleaving {
        entry,
        sessions,
        pending: Seq::new(sessions.len(), |i: int| None),
        finished: Seq::new(sessions.len(), |i: int| false),
        committed: Seq::new(sessions.len(), |i: int| false),
    }
}

/// Session `i` moves once: it reads the entry where it has no write pending,
/// else the table takes or refuses its conditional write. A finished
/// session does not move.
pub open spec fn interleaving_step(r: Interleaving, i: int) -> Interleaving {
    if !(0 <= i < r.sessions.len()) || r.finished[i] {
        r
    } else {
        match r.pending[i] {
            None => {
                let (s, a) = r.sessions[i].on_read_spec::<()>(Ok(Some(r.entry)));
                match a {
                    Action::Commit { value, version } => Interleaving {
                        sessions: r.sessions.update(i, s),
                        pending: r.pending.update(i, Some((value, version))),
                        ..r
                    },
                    _ => Interleaving { sessions: r.sessions.update(i, s), finished: r.finished.update(i, true), ..r },
                }
            },
            Some((value, version)) => match write_conditionally(r.entry, value, version) {
                Ok(written) => Interleaving {
                    entry: written,
                    sessions: r.sessions.update(i, r.sessions[i].on_commit_spec::<()>(Ok(written.1)).0),
                    pending: r.pending.update(i, None),
                    finished: r.finished.update(i, true),
                    committed: r.committed.update(i, true),
                },
                Err(_) => {
                    let (s, a) = r.sessions[i].on_commit_spec::<()>(Err(()));
                    Interleaving {
                        sessions: r.sessions.update(i, s),
                        pending: r.pending.update(i, None),
                        finished: r.finished.update(i, a is Finish),
                        ..r
                    }
                },
            },
        }
    }
}

/// The sessions after each of `schedule` moves in turn.
pub open spec fn interleave(r: Interleaving, schedule: Seq<int>) -> Interleaving
    decreases schedule.len(),
{
    if schedule.len() == 0 {
        r
    } else {
        interleave(interleaving_step(r, schedule[0]), schedule.drop_first())
    }
}

/// The deltas of the sessions.
pub open spec fn deltas_of(sessions: Seq<CounterUpdate>) -> Seq<int> {
    Seq::new(sessions.len(), |i: int| sessions[i].delta as int)
}

/// The sum of the deltas marked in `marked`.
pub open spec fn marked_total(deltas: Seq<int>, marked: Seq<bool>) -> int
    decreases deltas.len(),
{
    if deltas.len() == 0 {
        0
    } else {
        marked_total(deltas.drop_last(), marked.drop_last()) + if marked.last() {
            deltas.last()
        } else {
            0
        }
    }
}

proof fn lemma_mark_adds(deltas: Seq<int>, marked: Seq<bool>, i: int)
    requires
        deltas.len() == marked.len(),
        0 <= i < marked.len(),
        !marked[i],
    ensures
        marked_total(deltas, marked.update(i, true)) == marked_total(deltas, marked) + deltas[i],
    decreases deltas.len(),
{
    let m = marked.update(i, true);
    if i == marked.len() - 1 {
        assert(m.drop_last() =~= marked.drop_last());
    } else {
        assert(m.drop_last() =~= marked.drop_last().update(i, true));
        lemma_mark_adds(deltas.drop_last(), marked.drop_last(), i);
    }
}

proof fn lemma_all_marked(deltas: Seq<int>, marked: Seq<bool>)
    requires
        deltas.len() == marked.len(),
        forall|i: int| 0 <= i < marked.len() ==> marked[i],
    ensures
        marked_total(deltas, marked) == marked_total(deltas, Seq::new(deltas.len(), |i: int| true)),
    decreases deltas.len(),
{
    let all = Seq::new(deltas.len(), |i: int| true);
    if deltas.len() > 0 {
        assert(all.drop_last() =~= Seq::new(deltas.drop_last().len(), |i: int| true));
        lemma_all_marked(deltas.drop_last(), marked.drop_last());
    }
}

/// What holds at every point of an interleaving: the entry is the first value
/// plus the deltas of the accepted writes, and a pending write carries the
/// entry's value plus its delta where the entry still has the version read.
pub open spec fn interleaving_inv(r: Interleaving, deltas: Seq<int>, first: i64) -> bool {
    &&& r.sessions.len() == deltas.len()
    &&& r.pending.len() == deltas.len()
    &&& r.finished.len() == deltas.len()
    &&& r.committed.len() == deltas.len()
    &&& forall|i: int| 0 <= i < deltas.len() ==> (#[trigger] r.sessions[i]).wf() && r.sessions[i].delta == deltas[i]
    &&& forall|i: int| 0 <= i < deltas.len() && #[trigger] r.committed[i] ==> r.finished[i]
    &&& forall|i: int|
        0 <= i < deltas.len() && (#[trigger] r.pending[i]).is_some() ==> {
            &&& !r.finished[i]
            &&& r.pending[i].unwrap().1 <= r.entry.1
            &&& r.pending[i].unwrap().1 == r.entry.1 ==> r.pending[i].unwrap().0 == r.entry.0 + deltas[i]
        }
    &&& r.entry.0 == first + marked_total(deltas, r.committed)
}

proof fn lemma_step_keeps_inv(r: Interleaving, deltas: Seq<int>, first: i64, i: int)
    requires
        interleaving_inv(r, deltas, first),
        r.entry.1 < i64::MAX,
    ensures
        interleaving_inv(interleaving_step(r, i), deltas, first),
        r.entry.1 <= interleaving_step(r, i).entry.1 <= r.entry.1 + 1,
{
    let n = interleaving_step(r, i);
    if 0 <= i < r.sessions.len() && !r.finished[i] {
        match r.pending[i] {
            None => {
                assert forall|j: int| 0 <= j < deltas.len() && (#[trigger] n.pending[j]).is_some() implies {
                    &&& !n.finished[j]
                    &&& n.pending[j].unwrap().1 <= n.entry.1
                    &&& n.pending[j].unwrap().1 == n.entry.1 ==> n.pending[j].unwrap().0 == n.entry.0 + deltas[j]
                } by {
                    if j != i {
                        assert(r.pending[j].is_some());
                    }
                }
            },
            Some((value, version)) => {
                assert(r.sessions[i].wf());
                if r.entry.1 == version {
                    assert(!r.committed[i]);
                    lemma_mark_adds(deltas, r.committed, i);
                    assert forall|j: int| 0 <= j < deltas.len() && (#[trigger] n.pending[j]).is_some() implies {
                        &&& !n.finished[j]
                        &&& n.pending[j].unwrap().1 <= n.entry.1
                        &&& n.pending[j].unwrap().1 == n.entry.1 ==> n.pending[j].unwrap().0 == n.entry.0 + deltas[j]
                    } by {
                        assert(r.pending[j].is_some());
                    }
                } else {
                    assert forall|j: int| 0 <= j < deltas.len() && (#[trigger] n.pending[j]).is_some() implies {
                        &&& !n.finished[j]
                        &&& n.pending[j].unwrap().1 <= n.entry.1
                        &&& n.pending[j].unwrap().1 == n.entry.1 ==> n.pending[j].unwrap().0 == n.entry.0 + deltas[j]
                    } by {
                        assert(r.pending[j].is_some());
                    }
                }
            },
        }
    }
}

proof fn lemma_interleave_keeps_inv(r: Interleaving, deltas: Seq<int>, first: i64, schedule: Seq<int>)
    requires
        interleaving_inv(r, deltas, first),
        r.entry.1 + schedule.len() < i64::MAX,
    ensures
        interleaving_inv(interleave(r, schedule), deltas, first),
    decreases schedule.len(),
{
    if schedule.len() > 0 {
        lemma_step_keeps_inv(r, deltas, first, schedule[0]);
        lemma_interleave_keeps_inv(interleaving_step(r, schedule[0]), deltas, first, schedule.drop_first());
    }
}

/// Update sessions on one key, interleaved in any order against a table that
/// enforces versions and that nobody else writes, lose no update and apply
/// none twice: the counter holds its first value plus the deltas of exactly
/// the sessions whose write the table accepted, and a session finishes with
/// success only by such a write. Where all have finished with success, the
/// counter holds its first value plus the sum of all the deltas.
///
/// The versions that the table gives must not wrap around in the run.
pub proof fn lemma_interleaved_increments(entry: (i64, i64), sessions: Seq<CounterUpdate>, schedule: Seq<int>)
    requires
        forall|i: int| 0 <= i < sessions.len() ==> (#[trigger] sessions[i]).wf(),
        entry.1 + schedule.len() < i64::MAX,
    ensures
        interleave(interleaving_start(entry, sessions), schedule).entry.0
            == entry.0 + marked_total(deltas_of(sessions), interleave(interleaving_start(entry, sessions), schedule).committed),
        forall|i: int| 0 <= i < sessions.len() && #[trigger] interleave(interleaving_start(entry, sessions), schedule).committed[i]
            ==> interleave(interleaving_start(entry, sessions), schedule).finished[i],
        (forall|i: int| 0 <= i < sessions.len() ==> #[trigger] interleave(interleaving_start(entry, sessions), schedule).committed[i])
            ==> interleave(interleaving_start(entry, sessions), schedule).entry.0
                == entry.0 + marked_total(deltas_of(sessions), Seq::new(sessions.len(), |i: int| true)),
{
    let d = deltas_of(sessions);
    let s = interleaving_start(entry, sessions);
    assert(marked_total(d, s.committed) == 0) by {
        lemma_none_marked(d, s.committed);
    }
    lemma_interleave_keeps_inv(s, d, entry.0, schedule);
    let r = interleave(s, schedule);
    if forall|i: int| 0 <= i < sessions.len() ==> #[trigger] r.committed[i] {
        lemma_all_marked(d, r.committed);
    }
}

proof fn lemma_none_marked(deltas: Seq<int>, marked: Seq<bool>)
    requires
        deltas.len() == marked.len(),
        forall|i: int| 0 <= i < marked.len() ==> !marked[i],
    ensures
        marked_total(deltas, marked) == 0,
    decreases deltas.len(),
{
    if deltas.len() > 0 {
        lemma_none_marked(deltas.drop_last(), marked.drop_last());
    }
}

/// Whatever other writers did between the read and the conditional write, a
/// write that the table accepts moves the counter by exactly the session's
/// delta: the table accepts it only where the version read is still current,
/// and a version names one value.
pub proof fn lemma_accepted_commit_adds_delta(u: CounterUpdate, read: (i64, i64), current: (i64, i64))
    requires
        u.wf(),
        current.1 == read.1 ==> current.0 == read.0,
    ensures
        match u.on_read_spec::<()>(Ok(Some(read))).1 {
            Action::Commit { value, version } => match write_conditionally(current, value, version) {
                Ok(written) => written.0 == current.0 + u.delta,
                Err(_) => current.1 != read.1,
            },
            _ => true,
        },
{
}

/// A key that was never written holds no counter: reading it fails at once.
pub proof fn lemma_absent_key_fails<E>(policy: BackoffPolicy)
    ensures
        query_session(policy).on_read_spec::<E>(Ok(None)).1 == Action::<i64, E>::Finish(Err(CounterError::KeyDoesNotExist)),
{
}

/// A read right after the counter was set to `value` returns `value`, whatever
/// the key held before.
pub proof fn lemma_init_then_get<E>(policy: BackoffPolicy, prior: Option<(i64, i64)>, value: i64)
    ensures
        query_session(policy).on_read_spec::<E>(Ok(Some(write_unconditionally(prior, value)))).1
            == Action::<i64, E>::Finish(Ok(value)),
{
}

/// Decrementing by `d` is incrementing by `-d`, wherever `-d` is an `i64`.
pub proof fn lemma_decrement_is_negated_increment(policy: BackoffPolicy, d: i64)
    requires
        d != i64::MIN,
    ensures
        update_session(policy, -(d as int)) == update_session(policy, (-d) as i64 as int),
{
}

/// One cycle of an update session: a read that sees `read`, and where a
/// conditional write follows, the table's `answer` to it.
pub open spec fn cycle<E>(u: CounterUpdate, read: (i64, i64), answer: Result<i64, E>) -> (CounterUpdate, Action<(), E>) {
    let (after_read, action) = u.on_read_spec::<E>(Ok(Some(read)));
    match action {
        Action::Commit { .. } => after_read.on_commit_spec(answer),
        _ => (after_read, action),
    }
}

/// The session after `k` cycles in which cycle `j` read `reads[j]` and the
/// table refused its conditional write with `causes[j]`.
pub open spec fn after_conflicts<E>(u: CounterUpdate, reads: Seq<(i64, i64)>, causes: Seq<E>, k: nat) -> CounterUpdate
    decreases k,
{
    if k == 0 {
        u
    } else {
        let j = (k - 1) as nat;
        cycle(after_conflicts(u, reads, causes, j), reads[j as int], Err(causes[j as int])).0
    }
}

/// Every read of `reads` leaves room for the delta.
pub open spec fn reads_fit(u: CounterUpdate, reads: Seq<(i64, i64)>) -> bool {
    forall|j: int| 0 <= j < reads.len() ==> i64::MIN <= #[trigger] reads[j].0 + u.delta <= i64::MAX
}

/// Each refused write that the policy allows to retry grants one retry and
/// changes nothing else.
proof fn lemma_conflicts_count<E>(u: CounterUpdate, reads: Seq<(i64, i64)>, causes: Seq<E>, k: nat)
    requires
        u.wf(),
        k <= reads.len(),
        k <= causes.len(),
        reads_fit(u, reads),
        forall|j: nat| j < k ==> !u.retry.policy.exhausted_spec(#[trigger] (u.retry.retries + j) as nat),
    ensures
        after_conflicts(u, reads, causes, k).delta == u.delta,
        after_conflicts(u, reads, causes, k).retry.policy == u.retry.policy,
        after_conflicts(u, reads, causes, k).retry.retries == u.retry.retries + k,
        after_conflicts(u, reads, causes, k).wf(),
    decreases k,
{
    if k > 0 {
        let j = (k - 1) as nat;
        lemma_conflicts_count(u, reads, causes, j);
        assert(!u.retry.policy.exhausted_spec((u.retry.retries + j) as nat));
        assert(i64::MIN <= reads[j as int].0 + u.delta <= i64::MAX);
    }
}

/// Where the table refuses the first `k` conditional writes and accepts the
/// next, and the policy allows `k` retries, the update takes exactly `k + 1`
/// cycles: each of the first `k` ends in another read, and the next one ends
/// the update with success.
pub proof fn lemma_conflicts_then_commit<E>(u: CounterUpdate, reads: Seq<(i64, i64)>, causes: Seq<E>, k: nat, version: i64)
    requires
        u.wf(),
        reads.len() == k + 1,
        causes.len() == k,
        reads_fit(u, reads),
        forall|j: nat| j < k ==> !u.retry.policy.exhausted_spec(#[trigger] (u.retry.retries + j) as nat),
    ensures
        forall|j: nat| j < k ==> #[trigger] cycle(after_conflicts(u, reads, causes, j), reads[j as int], Err(causes[j as int])).1 is Read,
        cycle::<E>(after_conflicts(u, reads, causes, k), reads[k as int], Ok(version)).1 == Action::<(), E>::Finish(Ok(())),
{
    assert forall|j: nat| j < k implies #[trigger] cycle(after_conflicts(u, reads, causes, j), reads[j as int], Err(causes[j as int])).1 is Read by {
        lemma_conflicts_count(u, reads, causes, j);
        assert(!u.retry.policy.exhausted_spec((u.retry.retries + j) as nat));
        assert(i64::MIN <= reads[j as int].0 + u.delta <= i64::MAX);
    }
    lemma_conflicts_count(u, reads, causes, k);
    assert(i64::MIN <= reads[k as int].0 + u.delta <= i64::MAX);
}

/// Where the table refuses every conditional write and the policy allows `m`
/// retries, the update fails in cycle `m + 1`, not before, with the cause of
/// the last refusal, as it came, and `m + 1` tries.
pub proof fn lemma_conflicts_exhaust<E>(policy: BackoffPolicy, m: usize, delta: i64, reads: Seq<(i64, i64)>, causes: Seq<E>)
    requires
        policy.max_attempt == Some(m),
        m + 1 < usize::MAX,
        reads.len() == m + 1,
        causes.len() == m + 1,
        reads_fit(update_session(policy, delta as int), reads),
    ensures
        forall|j: nat| j < m ==> #[trigger] cycle(after_conflicts(update_session(policy, delta as int), reads, causes, j), reads[j as int], Err(causes[j as int])).1 is Read,
        cycle(after_conflicts(update_session(policy, delta as int), reads, causes, m as nat), reads[m as int], Err(causes[m as int])).1
            == Action::<(), E>::Finish(Err(CounterError::Store(RetryError { error: causes[m as int], tries: (m + 1) as usize }))),
{
    let u = update_session(policy, delta as int);
    assert forall|j: nat| j < m implies !u.retry.policy.exhausted_spec(#[trigger] (u.retry.retries + j) as nat) by {}
    assert forall|j: nat| j < m implies #[trigger] cycle(after_conflicts(u, reads, causes, j), reads[j as int], Err(causes[j as int])).1 is Read by {
        lemma_conflicts_count(u, reads, causes, j);
        assert(!u.retry.policy.exhausted_spec((u.retry.retries + j) as nat));
        assert(i64::MIN <= reads[j as int].0 + u.delta <= i64::MAX);
    }
    lemma_conflicts_count(u, reads, causes, m as nat);
    assert(i64::MIN <= reads[m as int].0 + u.delta <= i64::MAX);
}

} // verus!
