use counters_table::backoff::BackoffPolicy;
use counters_table::counter::{Action, CounterError, CounterUpdate, CountersTable, ValueQuery};
use counters_table::retry::{Decision, Outcome, RetryError, RetryState};

/// A synchronous table of one key that enforces versions, and that may refuse
/// a number of conditional writes first.
struct StubTable {
    entry: Option<(i64, i64)>,
    refusals_left: usize,
    reads: usize,
    commits: usize,
}

impl StubTable {
    fn empty() -> StubTable {
        StubTable { entry: None, refusals_left: 0, reads: 0, commits: 0 }
    }

    fn init(&mut self, value: i64) {
        let version = match self.entry {
            Some((_, v)) => v + 1,
            None => 0,
        };
        self.entry = Some((value, version));
    }

    fn read(&mut self) -> Result<Option<(i64, i64)>, String> {
        self.reads += 1;
        Ok(self.entry)
    }

    fn commit(&mut self, value: i64, version: i64) -> Result<i64, String> {
        self.commits += 1;
        if self.refusals_left > 0 {
            self.refusals_left -= 1;
            return Err(format!("version mismatch {}", self.commits));
        }
        match self.entry {
            Some((_, current)) if current == version => {
                self.entry = Some((value, current + 1));
                Ok(current + 1)
            }
            _ => Err(format!("version mismatch {}", self.commits)),
        }
    }
}

fn fast_policy(max_attempt: Option<usize>) -> BackoffPolicy {
    BackoffPolicy { initial_delay_ms: 0, backoff_coefficient: 2, max_delay_ms: 0, max_attempt }
}

fn counters() -> CountersTable<(), ()> {
    CountersTable::new((), ()).with_retry_policy(fast_policy(Some(10)))
}

fn drive_update(table: &mut StubTable, mut update: CounterUpdate) -> Result<(), CounterError<String>> {
    let mut action = update.on_read(table.read());
    loop {
        action = match action {
            Action::Read { .. } => update.on_read(table.read()),
            Action::Commit { value, version } => update.on_commit(table.commit(value, version)),
            Action::Finish(r) => return r,
        };
    }
}

fn drive_query(table: &mut StubTable, mut query: ValueQuery) -> Result<i64, CounterError<String>> {
    let mut action = query.on_read(table.read());
    loop {
        action = match action {
            Action::Read { .. } => query.on_read(table.read()),
            Action::Commit { .. } => panic!("a read never writes"),
            Action::Finish(r) => return r,
        };
    }
}

#[test]
fn init_increment_then_get() {
    let c = counters();
    let mut t = StubTable::empty();
    t.init(0);
    assert_eq!(drive_update(&mut t, c.increment(5)), Ok(()));
    assert_eq!(drive_query(&mut t, c.get_value()), Ok(5));
}

#[test]
fn increment_missing_key_fails() {
    let c = counters();
    let mut t = StubTable::empty();
    assert_eq!(drive_update(&mut t, c.increment(1)), Err(CounterError::KeyDoesNotExist));
    assert_eq!(t.commits, 0);
    assert_eq!(t.entry, None);
}

#[test]
fn get_missing_key_fails() {
    let c = counters();
    let mut t = StubTable::empty();
    assert_eq!(drive_query(&mut t, c.get_value()), Err(CounterError::KeyDoesNotExist));
    assert_eq!(t.reads, 1);
}

#[test]
fn two_interleaved_increments() {
    let c = counters();
    let mut t = StubTable::empty();
    t.init(10);
    let mut a = c.increment(1);
    let mut b = c.increment(1);
    let ra = a.on_read(t.read());
    let rb = b.on_read(t.read());
    let (va, vera) = match ra {
        Action::Commit { value, version } => (value, version),
        _ => panic!("expected a commit"),
    };
    let (vb, verb) = match rb {
        Action::Commit { value, version } => (value, version),
        _ => panic!("expected a commit"),
    };
    assert_eq!(a.on_commit(t.commit(va, vera)), Action::Finish(Ok(())));
    let conflict = b.on_commit(t.commit(vb, verb));
    assert!(matches!(conflict, Action::Read { .. }));
    assert_eq!(b.retry.retries, 1);
    let again = b.on_read(t.read());
    let (v2, ver2) = match again {
        Action::Commit { value, version } => (value, version),
        _ => panic!("expected a commit"),
    };
    assert_eq!(b.on_commit(t.commit(v2, ver2)), Action::Finish(Ok(())));
    assert_eq!(a.retry.retries, 0);
    assert_eq!(drive_query(&mut t, c.get_value()), Ok(12));
}

#[test]
fn init_decrement_then_get() {
    let c = counters();
    let mut t = StubTable::empty();
    t.init(100);
    assert_eq!(drive_update(&mut t, c.decrement(30)), Ok(()));
    assert_eq!(drive_query(&mut t, c.get_value()), Ok(70));
}

#[test]
fn sequential_increments_sum() {
    let c = counters();
    let mut t = StubTable::empty();
    t.init(7);
    let deltas: Vec<i64> = vec![3, -10, 25, 0, 1];
    for d in &deltas {
        assert_eq!(drive_update(&mut t, c.increment(*d)), Ok(()));
    }
    assert_eq!(drive_query(&mut t, c.get_value()), Ok(7 + 3 - 10 + 25 + 0 + 1));
}

#[test]
fn init_overwrites_prior_value() {
    let c = counters();
    let mut t = StubTable::empty();
    t.init(41);
    assert_eq!(drive_update(&mut t, c.increment(9)), Ok(()));
    t.init(-3);
    assert_eq!(drive_query(&mut t, c.get_value()), Ok(-3));
}

#[test]
fn decrement_equals_negated_increment() {
    let c = counters();
    assert_eq!(c.decrement(30), c.increment(-30));
    assert_eq!(c.decrement(-5), c.increment(5));
    let mut t1 = StubTable::empty();
    let mut t2 = StubTable::empty();
    t1.init(4);
    t2.init(4);
    assert_eq!(drive_update(&mut t1, c.decrement(12)), Ok(()));
    assert_eq!(drive_update(&mut t2, c.increment(-12)), Ok(()));
    assert_eq!(t1.entry, t2.entry);
}

#[test]
fn decrement_by_min_adds_beyond_i64() {
    let c = counters();
    let mut t = StubTable::empty();
    t.init(-1);
    assert_eq!(drive_update(&mut t, c.decrement(i64::MIN)), Ok(()));
    assert_eq!(drive_query(&mut t, c.get_value()), Ok(i64::MAX));
}

#[test]
fn overflow_is_refused() {
    let c = counters();
    let mut t = StubTable::empty();
    t.init(i64::MAX);
    assert_eq!(drive_update(&mut t, c.increment(1)), Err(CounterError::Overflow));
    assert_eq!(t.entry.map(|e| e.0), Some(i64::MAX));
    assert_eq!(t.commits, 0);
}

#[test]
fn conflicts_then_commit() {
    let c = counters();
    let mut t = StubTable::empty();
    t.init(1);
    t.refusals_left = 3;
    assert_eq!(drive_update(&mut t, c.increment(2)), Ok(()));
    assert_eq!(t.reads, 4);
    assert_eq!(t.commits, 4);
    assert_eq!(t.entry.map(|e| e.0), Some(3));
}

#[test]
fn conflicts_exhaust_the_policy() {
    let c = CountersTable::new((), ()).with_retry_policy(fast_policy(Some(4)));
    let mut t = StubTable::empty();
    t.init(1);
    t.refusals_left = usize::MAX;
    let r = drive_update(&mut t, c.increment(2));
    assert_eq!(r, Err(CounterError::Store(RetryError { error: "version mismatch 5".to_string(), tries: 5 })));
    assert_eq!(t.reads, 5);
    assert_eq!(t.commits, 5);
    assert_eq!(t.entry.map(|e| e.0), Some(1));
}

#[test]
fn failed_reads_are_retried() {
    let mut q = counters().get_value();
    assert!(matches!(q.on_read(Err("down".to_string())), Action::Read { .. }));
    assert!(matches!(q.on_read(Err("down".to_string())), Action::Read { .. }));
    assert_eq!(q.on_read::<String>(Ok(Some((8, 2)))), Action::Finish(Ok(8)));
    assert_eq!(q.retry.retries, 2);
}

#[test]
fn default_policy_values() {
    let c = CountersTable::new(1u8, 2u8);
    let p = c.get_default_retry_policy();
    assert_eq!(p, BackoffPolicy::default_policy());
    assert_eq!(p.initial_delay_ms, 0);
    assert_eq!(p.backoff_coefficient, 2);
    assert_eq!(p.max_delay_ms, 0);
    assert_eq!(p.max_attempt, Some(32));
    assert_eq!(c.retry_policy, p);
    assert_eq!(c.table, 1);
    assert_eq!(c.runtime_handle, 2);
}

#[test]
fn default_policy_retries_at_once_32_times() {
    let p = BackoffPolicy::default_policy();
    let delays: Vec<u64> = (0..32).map(|i| p.next_delay(i)).collect();
    assert_eq!(delays, vec![0; 32]);
    assert!(!p.is_exhausted(31));
    assert!(p.is_exhausted(32));
}

#[test]
fn default_policy_gives_up_on_the_33rd_refusal() {
    let c = CountersTable::new((), ());
    let mut t = StubTable::empty();
    t.init(5);
    t.refusals_left = usize::MAX;
    let r = drive_update(&mut t, c.increment(1));
    assert_eq!(r, Err(CounterError::Store(RetryError { error: "version mismatch 33".to_string(), tries: 33 })));
    assert_eq!(t.commits, 33);
    assert_eq!(t.entry.map(|e| e.0), Some(5));
}

#[test]
fn backoff_delays_double_then_cap() {
    let p = BackoffPolicy { initial_delay_ms: 1, backoff_coefficient: 2, max_delay_ms: 10000, max_attempt: None };
    let delays: Vec<u64> = (0..16).map(|i| p.next_delay(i)).collect();
    assert_eq!(
        delays,
        vec![1, 2, 4, 8, 16, 32, 64, 128, 256, 512, 1024, 2048, 4096, 8192, 10000, 10000]
    );
}

#[test]
fn backoff_delay_with_other_settings() {
    let p = BackoffPolicy { initial_delay_ms: 10, backoff_coefficient: 10, max_delay_ms: 1_000_000, max_attempt: None };
    assert_eq!(p.next_delay(0), 10);
    assert_eq!(p.next_delay(2), 1000);
    assert_eq!(p.next_delay(5), 1_000_000);
    let q = BackoffPolicy { initial_delay_ms: 20, backoff_coefficient: 3, max_delay_ms: 10, max_attempt: None };
    assert_eq!(q.next_delay(0), 10);
}

#[test]
fn backoff_coefficient_power_overflow_gives_ceiling() {
    let p = BackoffPolicy { initial_delay_ms: 0, backoff_coefficient: 2, max_delay_ms: 77, max_attempt: None };
    assert_eq!(p.next_delay(31), 0);
    assert_eq!(p.next_delay(32), 77);
}

#[test]
fn exhaustion_follows_max_attempt() {
    let p = fast_policy(Some(3));
    assert!(!p.is_exhausted(0));
    assert!(!p.is_exhausted(2));
    assert!(p.is_exhausted(3));
    let unbounded = fast_policy(None);
    assert!(!unbounded.is_exhausted(1_000_000));
    assert!(unbounded.is_exhausted(usize::MAX - 1));
}

#[test]
fn retry_decisions() {
    let mut s = RetryState::new(BackoffPolicy { initial_delay_ms: 5, backoff_coefficient: 3, max_delay_ms: 100, max_attempt: Some(2) });
    assert_eq!(s.decide::<u8, &str>(Outcome::Retry("a")), Decision::Wait { delay_ms: 5 });
    assert_eq!(s.decide::<u8, &str>(Outcome::Retry("b")), Decision::Wait { delay_ms: 15 });
    assert_eq!(s.decide::<u8, &str>(Outcome::Retry("c")), Decision::GiveUp(RetryError { error: "c", tries: 3 }));
    assert_eq!(s.decide::<u8, &str>(Outcome::Success(4)), Decision::Done(4));
    let mut f = RetryState::new(fast_policy(None));
    assert_eq!(f.decide::<u8, &str>(Outcome::Fail("x")), Decision::GiveUp(RetryError { error: "x", tries: 1 }));
    assert_eq!(f.retries, 0);
}
