//! The persistent task queue: its rows, how they are leased, recovered and
//! written back, and what becomes of an attempt.
//!
//! A [`PersistentTaskQueue`] is the content of the task table. The program
//! around it loads the rows in a transaction, applies one operation and writes
//! the rows back. Times are milliseconds since the Unix epoch.
use crate::json::{json_error, json_field, JsonField};
use crate::text::{decimal, same, signed_decimal};
use vstd::prelude::*;

verus! {

/// A task is retried this often before it is given up.
pub const MAX_RETRIES: u32 = 2;

/// Attempts for a write that ends a row's life.
pub const TERMINAL_WRITE_ATTEMPTS: u32 = 3;

/// How long a lease lasts without a heartbeat.
pub const LOCK_TTL_MS: i64 = 120000;

/// A scaled delay is capped here.
pub const MAX_SCALED_DELAY_MS: u64 = 300000;

/// How long a worker waits after a lease that failed.
pub const LEASE_FAILURE_BACKOFF_MS: u64 = 1000;

// ---- delays ----

/// Two to the power of `n`.
pub open spec fn power_of_two(n: nat) -> nat
    decreases n,
{
    if n == 0 {
        1
    } else {
        2 * power_of_two((n - 1) as nat)
    }
}

/// The wait between two attempts at a terminal write: 100 ms, doubled each time,
/// four times at most.
pub open spec fn write_backoff(attempt: u32) -> int {
    100 * (power_of_two(
        if attempt < 4 {
            attempt as nat
        } else {
            4
        },
    ) as int)
}

pub fn terminal_write_backoff(attempt: u32) -> (r: u64)
    ensures
        r == write_backoff(attempt),
{
    reveal_with_fuel(power_of_two, 5);
    if attempt == 0 {
        100
    } else if attempt == 1 {
        200
    } else if attempt == 2 {
        400
    } else if attempt == 3 {
        800
    } else {
        1600
    }
}

/// A base delay doubled for each retry already done, capped at 300 s, but never
/// below the base: a delay that the server asked for is not shortened.
pub open spec fn scaled_delay(base: int, attempts: int) -> int {
    let grown = if attempts <= 0 {
        base
    } else {
        base * power_of_two(attempts as nat)
    };
    let capped = if grown < MAX_SCALED_DELAY_MS {
        grown
    } else {
        MAX_SCALED_DELAY_MS as int
    };
    if capped < base {
        base
    } else {
        capped
    }
}

proof fn lemma_power_positive(n: nat)
    ensures
        power_of_two(n) >= 1,
    decreases n,
{
    if n > 0 {
        lemma_power_positive((n - 1) as nat);
    }
}

proof fn lemma_power_grows(a: nat, b: nat)
    requires
        a <= b,
    ensures
        power_of_two(a) <= power_of_two(b),
    decreases b,
{
    if a < b {
        lemma_power_grows(a, (b - 1) as nat);
        lemma_power_positive((b - 1) as nat);
    }
}

pub fn scaled_retry_delay(base: u64, attempts: i32) -> (r: u64)
    ensures
        r == scaled_delay(base as int, attempts as int),
{
    if attempts <= 0 || base == 0 || base >= MAX_SCALED_DELAY_MS {
        proof {
            if attempts > 0 {
                lemma_power_positive(attempts as nat);
                assert(base * power_of_two(attempts as nat) >= base) by (nonlinear_arith)
                    requires
                        power_of_two(attempts as nat) >= 1,
                ;
                assert(0 * power_of_two(attempts as nat) == 0);
            }
        }
        return base;
    }
    let mut grown: u64 = base;
    let mut done: i32 = 0;
    proof {
        assert(power_of_two(0) == 1);
        assert(base * 1 == base);
    }
    while done < attempts && grown < MAX_SCALED_DELAY_MS
        invariant
            0 <= done <= attempts,
            0 < base < MAX_SCALED_DELAY_MS,
            grown == base * power_of_two(done as nat),
            grown < 2 * MAX_SCALED_DELAY_MS,
        decreases attempts - done,
    {
        proof {
            let p = power_of_two(done as nat);
            assert(base * (2 * p) == 2 * (base * p)) by (nonlinear_arith);
        }
        grown = grown * 2;
        done = done + 1;
    }
    proof {
        lemma_power_grows(done as nat, attempts as nat);
        lemma_power_positive(done as nat);
        let p = power_of_two(done as nat);
        let q = power_of_two(attempts as nat);
        assert(base * p <= base * q) by (nonlinear_arith)
            requires
                p <= q,
        ;
        assert(base * p >= base) by (nonlinear_arith)
            requires
                p >= 1,
        ;
    }
    if grown < MAX_SCALED_DELAY_MS {
        grown
    } else {
        MAX_SCALED_DELAY_MS
    }
}

/// A scaled delay is at least the one asked for, and exceeds the cap only where
/// the one asked for does.
pub proof fn law_scaled_delay_is_never_shortened(base: nat, attempts: int)
    ensures
        scaled_delay(base as int, attempts) >= base,
        scaled_delay(base as int, attempts) <= (if base < MAX_SCALED_DELAY_MS {
            MAX_SCALED_DELAY_MS as int
        } else {
            base as int
        }),
{
}

// ---- rows ----

#[derive(Clone, Copy, Debug, PartialEq, Eq, Structural)]
pub enum TaskStatus {
    /// Waits to be leased.
    Pending,
    /// A worker holds it.
    InProgress,
    /// It ran, but its row could not be deleted.
    Done,
}

/// One row of the task table.
#[derive(Debug)]
pub struct TaskRow {
    pub id: String,
    pub payload: String,
    /// The row is not due before this time.
    pub run_after: i64,
    /// Retries already done.
    pub attempts: i32,
    pub status: TaskStatus,
    /// The lease lasts until this time.
    pub locked_until: i64,
    /// Drawn anew for each lease; write-backs have to name it.
    pub lease_token: Option<String>,
    pub created_at: i64,
}

/// [`TaskRow`] over mathematical values.
#[verifier::ext_equal]
pub struct RowView {
    pub id: Seq<char>,
    pub payload: Seq<char>,
    pub run_after: int,
    pub attempts: int,
    pub status: TaskStatus,
    pub locked_until: int,
    pub lease_token: Option<Seq<char>>,
    pub created_at: int,
}

impl View for TaskRow {
    type V = RowView;

    open spec fn view(&self) -> RowView {
        RowView {
            id: self.id@,
            payload: self.payload@,
            run_after: self.run_after as int,
            attempts: self.attempts as int,
            status: self.status,
            locked_until: self.locked_until as int,
            lease_token: crate::json::text_option(self.lease_token),
            created_at: self.created_at as int,
        }
    }
}

/// The content of the task table.
#[derive(Debug)]
pub struct PersistentTaskQueue {
    pub rows: Vec<TaskRow>,
}

impl View for PersistentTaskQueue {
    type V = Seq<RowView>;

    open spec fn view(&self) -> Seq<RowView> {
        self.rows@.map_values(|r: TaskRow| r@)
    }
}

/// What a worker gets to know of the row it leased.
#[derive(Debug)]
pub struct LeasedRow {
    pub id: String,
    pub payload: String,
    pub attempts: i32,
}

/// No two rows share an id.
pub open spec fn unique_ids(s: Seq<RowView>) -> bool {
    forall|i: int, j: int| 0 <= i < j < s.len() ==> s[i].id != s[j].id
}

/// A row that a worker may take now.
pub open spec fn leasable(r: RowView, now: int) -> bool {
    r.status is Pending && r.run_after <= now && r.locked_until <= now
}

/// The oldest due row; of two that are due since the same time, the first.
pub open spec fn is_next(s: Seq<RowView>, now: int, i: int) -> bool {
    &&& 0 <= i < s.len()
    &&& leasable(s[i], now)
    &&& forall|j: int|
        0 <= j < s.len() && leasable(#[trigger] s[j], now) ==> s[i].run_after <= s[j].run_after && (
        j < i ==> s[i].run_after < s[j].run_after)
}

pub open spec fn leased(r: RowView, now: int, token: Seq<char>) -> RowView {
    RowView {
        status: TaskStatus::InProgress,
        locked_until: now + LOCK_TTL_MS,
        lease_token: Some(token),
        ..r
    }
}

/// A row whose lease ran out is pending again.
pub open spec fn recovered(r: RowView, now: int) -> RowView {
    if r.status is InProgress && r.locked_until < now {
        RowView { status: TaskStatus::Pending, locked_until: 0, ..r }
    } else {
        r
    }
}

/// The row that a worker may write: it has this id and was leased with this
/// token last.
pub open spec fn held_by(r: RowView, id: Seq<char>, token: Seq<char>) -> bool {
    r.id == id && r.lease_token == Some(token)
}

pub open spec fn refreshed(r: RowView, id: Seq<char>, token: Seq<char>, now: int) -> RowView {
    if held_by(r, id, token) && r.status is InProgress {
        RowView { locked_until: now + LOCK_TTL_MS, ..r }
    } else {
        r
    }
}

pub open spec fn rescheduled(
    r: RowView,
    id: Seq<char>,
    token: Seq<char>,
    payload: Seq<char>,
    run_after: int,
    attempts: int,
) -> RowView {
    if held_by(r, id, token) {
        RowView { payload, run_after, attempts, status: TaskStatus::Pending, locked_until: 0, ..r }
    } else {
        r
    }
}

/// A row that ran but could not be deleted.
pub open spec fn finished(r: RowView, id: Seq<char>, token: Seq<char>) -> RowView {
    if held_by(r, id, token) {
        RowView { status: TaskStatus::Done, locked_until: 0, ..r }
    } else {
        r
    }
}

/// A token that may be missing, seen as characters.
pub open spec fn token_view(token: Option<&str>) -> Option<Seq<char>> {
    match token {
        Some(t) => Some(t@),
        None => None,
    }
}

/// The rows with an id, or those of them that were leased with a token last.
pub open spec fn selected(r: RowView, id: Seq<char>, token: Option<Seq<char>>) -> bool {
    match token {
        Some(t) => held_by(r, id, t),
        None => r.id == id,
    }
}

/// The row that a new task gets.
pub open spec fn fresh_row(id: Seq<char>, payload: Seq<char>, run_after: int, now: int) -> RowView {
    RowView {
        id,
        payload,
        run_after,
        attempts: 0,
        status: TaskStatus::Pending,
        locked_until: 0,
        lease_token: None,
        created_at: now,
    }
}

/// A table with a row added; one of the same id gives way.
pub open spec fn enqueued(s: Seq<RowView>, row: RowView) -> Seq<RowView> {
    s.filter(|r: RowView| r.id != row.id).push(row)
}

/// How many rows are pending.
pub open spec fn pending_count(s: Seq<RowView>) -> nat
    decreases s.len(),
{
    if s.len() == 0 {
        0
    } else {
        pending_count(s.drop_last()) + if s.last().status is Pending {
            1nat
        } else {
            0nat
        }
    }
}

/// `t` is the earliest time at which a pending row is due.
pub open spec fn is_earliest(s: Seq<RowView>, t: int) -> bool {
    &&& exists|i: int|
        0 <= i < s.len() && (#[trigger] s[i]).status is Pending && s[i].run_after == t
    &&& forall|i: int|
        0 <= i < s.len() && (#[trigger] s[i]).status is Pending ==> t <= s[i].run_after
}

pub open spec fn repaired(r: RowView, id: Seq<char>, payload: Seq<char>) -> RowView {
    if r.id == id {
        RowView { payload, ..r }
    } else {
        r
    }
}

proof fn lemma_none_pending(s: Seq<RowView>)
    requires
        forall|i: int| 0 <= i < s.len() ==> !((#[trigger] s[i]).status is Pending),
    ensures
        pending_count(s) == 0,
    decreases s.len(),
{
    if s.len() > 0 {
        assert(forall|i: int| 0 <= i < s.drop_last().len() ==> s.drop_last()[i] == s[i]);
        lemma_none_pending(s.drop_last());
    }
}

fn is_held(row: &TaskRow, id: &str, token: &str) -> (r: bool)
    ensures
        r == held_by(row@, id@, token@),
{
    match &row.lease_token {
        Some(t) => same(row.id.as_str(), id) && same(t.as_str(), token),
        None => false,
    }
}

impl PersistentTaskQueue {
    /// An empty table.
    pub fn new() -> (r: PersistentTaskQueue)
        ensures
            r@ == Seq::<RowView>::empty(),
    {
        let r = PersistentTaskQueue { rows: Vec::new() };
        assert(r@ =~= Seq::<RowView>::empty());
        r
    }

    /// Returns expired leases to the pending rows.
    pub fn recover_update(&mut self, now: i64)
        ensures
            final(self)@ == old(self)@.map_values(|r: RowView| recovered(r, now as int)),
    {
        let ghost before = self@;
        let mut i: usize = 0;
        while i < self.rows.len()
            invariant
                i <= self.rows@.len(),
                self@.len() == before.len(),
                forall|j: int| 0 <= j < i ==> self@[j] == recovered(before[j], now as int),
                forall|j: int| i <= j < before.len() ==> self@[j] == before[j],
            decreases self.rows@.len() - i,
        {
            if self.rows[i].status == TaskStatus::InProgress && self.rows[i].locked_until < now {
                self.rows[i].status = TaskStatus::Pending;
                self.rows[i].locked_until = 0;
            }
            i = i + 1;
        }
        proof {
            assert(self@ =~= before.map_values(|r: RowView| recovered(r, now as int)));
        }
    }

    /// Drops the rows that have this id and, where a token is given, were leased
    /// with it last.
    fn drop_rows(&mut self, id: &str, token: Option<&str>)
        ensures
            final(self)@ == old(self)@.filter(
                |r: RowView| !selected(r, id@, token_view(token)),
            ),
    {
        let ghost before = self@;
        let ghost keep = |r: RowView| !selected(r, id@, token_view(token));
        let mut i: usize = 0;
        let ghost mut seen: int = 0;
        proof {
            assert(before.take(0) =~= Seq::<RowView>::empty());
            assert(before.take(0).filter(keep) =~= Seq::<RowView>::empty()) by {
                reveal(Seq::filter);
            }
            assert(self@ =~= before.take(0).filter(keep) + before.skip(0));
        }
        while i < self.rows.len()
            invariant
                keep == (|r: RowView| !selected(r, id@, token_view(token))),
                0 <= seen <= before.len(),
                i == before.take(seen).filter(keep).len(),
                self@ == before.take(seen).filter(keep) + before.skip(seen),
                self@.len() == self.rows@.len(),
                i <= self.rows@.len(),
            decreases before.len() - seen,
        {
            let ghost kept = before.take(seen).filter(keep);
            proof {
                assert(before.skip(seen).len() > 0);
                assert(self@[i as int] == before[seen]);
                assert(self@[i as int] == self.rows@[i as int]@);
                assert(before.take(seen + 1).drop_last() =~= before.take(seen));
                assert(before.take(seen + 1).last() == before[seen]);
                reveal(Seq::filter);
                assert(before.take(seen + 1).filter(keep) == if keep(before[seen]) {
                    kept.push(before[seen])
                } else {
                    kept
                });
            }
            let matches_token = match token {
                Some(token) => is_held(&self.rows[i], id, token),
                None => same(self.rows[i].id.as_str(), id),
            };
            if matches_token {
                let ghost all = self.rows@;
                self.rows.remove(i);
                proof {
                    let whole = kept + before.skip(seen);
                    assert(forall|j: int| 0 <= j < all.len() ==> whole[j] == all[j]@);
                    seen = seen + 1;
                    assert(self.rows@ =~= all.remove(i as int));
                    assert forall|j: int| 0 <= j < self@.len() implies self@[j] == (kept
                        + before.skip(seen))[j] by {
                        if j < i {
                            assert(whole[j] == all[j]@);
                        } else {
                            assert(whole[j + 1] == all[j + 1]@);
                        }
                    }
                    assert(self@ =~= kept + before.skip(seen));
                }
            } else {
                proof {
                    seen = seen + 1;
                    assert(kept.push(before[seen - 1]) + before.skip(seen) =~= kept
                        + before.skip(seen - 1));
                }
                i = i + 1;
            }
        }
        proof {
            assert(seen == before.len()) by {
                assert(self@.len() == i);
                assert(before.skip(seen).len() == 0);
            }
            assert(before.take(seen) =~= before);
            assert(self@ =~= before.filter(keep));
        }
    }

    /// Persists a task that is due at `run_after`. A row of the same id is
    /// replaced.
    pub fn enqueue(&mut self, id: String, payload: String, run_after: i64, now: i64)
        ensures
            final(self)@ == enqueued(
                old(self)@,
                fresh_row(id@, payload@, run_after as int, now as int),
            ),
    {
        self.drop_rows(id.as_str(), None);
        let ghost kept = self@;
        proof {
            let by_id = |r: RowView| !selected(r, id@, None);
            let other = |r: RowView| r.id != id@;
            assert(by_id =~= other);
        }
        let row = TaskRow {
            id,
            payload,
            run_after,
            attempts: 0,
            status: TaskStatus::Pending,
            locked_until: 0,
            lease_token: None,
            created_at: now,
        };
        let ghost added = row@;
        self.rows.push(row);
        proof {
            assert(self@ =~= kept.push(added));
        }
    }

    /// Leases the oldest due row: it is in progress under `token` until the lock
    /// runs out.
    pub fn lease_next(&mut self, now: i64, token: &str) -> (r: Option<LeasedRow>)
        requires
            now + LOCK_TTL_MS <= i64::MAX,
        ensures
            match r {
                Some(row) => exists|i: int| #[trigger]
                    is_next(old(self)@, now as int, i) && final(self)@ == old(self)@.update(
                        i,
                        leased(old(self)@[i], now as int, token@),
                    ) && row.id@ == old(self)@[i].id && row.payload@ == old(self)@[i].payload
                        && row.attempts == old(self)@[i].attempts,
                None => final(self)@ == old(self)@ && forall|i: int|
                    0 <= i < old(self)@.len() ==> !leasable(#[trigger] old(self)@[i], now as int),
            },
    {
        let ghost before = self@;
        let mut best: Option<usize> = None;
        let mut i: usize = 0;
        while i < self.rows.len()
            invariant
                i <= self.rows@.len(),
                self@ == before,
                self@.len() == self.rows@.len(),
                match best {
                    Some(b) => b < i && is_next(before.take(i as int), now as int, b as int),
                    None => forall|j: int|
                        0 <= j < i ==> !leasable(#[trigger] before[j], now as int),
                },
            decreases self.rows@.len() - i,
        {
            let ghost done = before.take(i as int);
            let ghost next = before.take(i + 1);
            assert(self@[i as int] == self.rows@[i as int]@);
            assert(forall|j: int| 0 <= j < i ==> next[j] == done[j]);
            assert(next[i as int] == before[i as int]);
            let due = self.rows[i].status == TaskStatus::Pending && self.rows[i].run_after <= now
                && self.rows[i].locked_until <= now;
            assert(due == leasable(before[i as int], now as int));
            if due {
                match best {
                    Some(b) => {
                        assert(self@[b as int] == self.rows@[b as int]@);
                        assert(done[b as int] == before[b as int]);
                        if self.rows[i].run_after < self.rows[b].run_after {
                            best = Some(i);
                            assert(is_next(next, now as int, i as int));
                        } else {
                            assert(is_next(next, now as int, b as int));
                        }
                    },
                    None => {
                        assert(forall|j: int| 0 <= j < i ==> next[j] == before[j]);
                        best = Some(i);
                        assert(is_next(next, now as int, i as int));
                    },
                }
            } else {
                proof {
                    if best is Some {
                        assert(is_next(next, now as int, best->0 as int));
                    }
                }
            }
            i = i + 1;
        }
        match best {
            Some(b) => {
                proof {
                    assert(before.take(i as int) =~= before);
                    assert(self@[b as int] == self.rows@[b as int]@);
                }
                self.rows[b].status = TaskStatus::InProgress;
                self.rows[b].locked_until = now + LOCK_TTL_MS;
                self.rows[b].lease_token = Some(token.to_owned());
                proof {
                    assert(self@ =~= before.update(
                        b as int,
                        leased(before[b as int], now as int, token@),
                    ));
                }
                Some(
                    LeasedRow {
                        id: self.rows[b].id.clone(),
                        payload: self.rows[b].payload.clone(),
                        attempts: self.rows[b].attempts,
                    },
                )
            },
            None => None,
        }
    }

    /// Keeps a lease alive. Whoever lost it changes nothing.
    pub fn heartbeat(&mut self, id: &str, token: &str, now: i64)
        requires
            now + LOCK_TTL_MS <= i64::MAX,
        ensures
            final(self)@ == old(self)@.map_values(
                |r: RowView| refreshed(r, id@, token@, now as int),
            ),
    {
        let ghost before = self@;
        let mut i: usize = 0;
        while i < self.rows.len()
            invariant
                now + LOCK_TTL_MS <= i64::MAX,
                i <= self.rows@.len(),
                self@.len() == before.len(),
                forall|j: int|
                    0 <= j < i ==> self@[j] == refreshed(before[j], id@, token@, now as int),
                forall|j: int| i <= j < before.len() ==> self@[j] == before[j],
            decreases self.rows@.len() - i,
        {
            if is_held(&self.rows[i], id, token) && self.rows[i].status
                == TaskStatus::InProgress {
                self.rows[i].locked_until = now + LOCK_TTL_MS;
            }
            i = i + 1;
        }
        proof {
            assert(self@ =~= before.map_values(
                |r: RowView| refreshed(r, id@, token@, now as int),
            ));
        }
    }

    /// Deletes a finished row. Whoever lost its lease deletes nothing.
    pub fn delete_row(&mut self, id: &str, token: &str)
        ensures
            final(self)@ == old(self)@.filter(|r: RowView| !held_by(r, id@, token@)),
    {
        self.drop_rows(id, Some(token));
        proof {
            let a = |r: RowView| !selected(r, id@, Some(token@));
            let b = |r: RowView| !held_by(r, id@, token@);
            assert(a =~= b);
        }
    }

    /// Writes an attempt's state back and makes the row pending again. Whoever
    /// lost its lease changes nothing.
    pub fn reschedule(
        &mut self,
        id: &str,
        token: &str,
        payload: &str,
        run_after: i64,
        attempts: i32,
    )
        ensures
            final(self)@ == old(self)@.map_values(
                |r: RowView|
                    rescheduled(r, id@, token@, payload@, run_after as int, attempts as int),
            ),
    {
        let ghost before = self@;
        let mut i: usize = 0;
        while i < self.rows.len()
            invariant
                i <= self.rows@.len(),
                self@.len() == before.len(),
                forall|j: int|
                    0 <= j < i ==> self@[j] == rescheduled(
                        before[j],
                        id@,
                        token@,
                        payload@,
                        run_after as int,
                        attempts as int,
                    ),
                forall|j: int| i <= j < before.len() ==> self@[j] == before[j],
            decreases self.rows@.len() - i,
        {
            let ghost was = self@;
            assert(self@[i as int] == self.rows@[i as int]@);
            if is_held(&self.rows[i], id, token) {
                self.rows[i].payload = payload.to_owned();
                self.rows[i].run_after = run_after;
                self.rows[i].attempts = attempts;
                self.rows[i].status = TaskStatus::Pending;
                self.rows[i].locked_until = 0;
            }
            proof {
                assert(self@[i as int] == self.rows@[i as int]@);
                assert(self@ =~= was.update(
                    i as int,
                    rescheduled(
                        was[i as int],
                        id@,
                        token@,
                        payload@,
                        run_after as int,
                        attempts as int,
                    ),
                ));
            }
            i = i + 1;
        }
        proof {
            assert(self@ =~= before.map_values(
                |r: RowView|
                    rescheduled(r, id@, token@, payload@, run_after as int, attempts as int),
            ));
        }
    }

    /// The last resort for a row that would not be deleted. Whoever lost its lease
    /// marks nothing.
    pub fn mark_done(&mut self, id: &str, token: &str)
        ensures
            final(self)@ == old(self)@.map_values(|r: RowView| finished(r, id@, token@)),
    {
        let ghost before = self@;
        let mut i: usize = 0;
        while i < self.rows.len()
            invariant
                i <= self.rows@.len(),
                self@.len() == before.len(),
                forall|j: int| 0 <= j < i ==> self@[j] == finished(before[j], id@, token@),
                forall|j: int| i <= j < before.len() ==> self@[j] == before[j],
            decreases self.rows@.len() - i,
        {
            if is_held(&self.rows[i], id, token) {
                self.rows[i].status = TaskStatus::Done;
                self.rows[i].locked_until = 0;
            }
            i = i + 1;
        }
        proof {
            assert(self@ =~= before.map_values(|r: RowView| finished(r, id@, token@)));
        }
    }

    /// How many rows wait, and since when the oldest of them is or will be due.
    pub fn pending_backlog(&self) -> (r: Option<(u64, i64)>)
        ensures
            match r {
                Some(backlog) => backlog.0 == pending_count(self@) && is_earliest(
                    self@,
                    backlog.1 as int,
                ),
                None => pending_count(self@) == 0,
            },
    {
        match self.earliest_run_after() {
            Some(oldest) => {
                let mut count: u64 = 0;
                let mut i: usize = 0;
                assert(self@.take(0) =~= Seq::<RowView>::empty());
                while i < self.rows.len()
                    invariant
                        i <= self.rows@.len(),
                        self@.len() == self.rows@.len(),
                        count == pending_count(self@.take(i as int)),
                        count <= i,
                    decreases self.rows@.len() - i,
                {
                    proof {
                        assert(self@.take(i + 1).drop_last() =~= self@.take(i as int));
                        assert(self@.take(i + 1).last() == self.rows@[i as int]@);
                    }
                    if self.rows[i].status == TaskStatus::Pending {
                        count = count + 1;
                    }
                    i = i + 1;
                }
                assert(self@.take(i as int) =~= self@);
                Some((count, oldest))
            },
            None => {
                proof {
                    lemma_none_pending(self@);
                }
                None
            },
        }
    }

    /// When the earliest pending row is due.
    pub fn earliest_run_after(&self) -> (r: Option<i64>)
        ensures
            match r {
                Some(t) => is_earliest(self@, t as int),
                None => forall|i: int|
                    0 <= i < self@.len() ==> !((#[trigger] self@[i]).status is Pending),
            },
    {
        let mut best: Option<i64> = None;
        let mut i: usize = 0;
        while i < self.rows.len()
            invariant
                i <= self.rows@.len(),
                self@.len() == self.rows@.len(),
                match best {
                    Some(t) => (exists|j: int|
                        0 <= j < i && (#[trigger] self@[j]).status is Pending && self@[j].run_after
                            == t) && forall|j: int|
                        0 <= j < i && (#[trigger] self@[j]).status is Pending ==> t
                            <= self@[j].run_after,
                    None => forall|j: int|
                        0 <= j < i ==> !((#[trigger] self@[j]).status is Pending),
                },
            decreases self.rows@.len() - i,
        {
            assert(self@[i as int] == self.rows@[i as int]@);
            if self.rows[i].status == TaskStatus::Pending {
                match best {
                    Some(t) => if self.rows[i].run_after < t {
                        best = Some(self.rows[i].run_after);
                    },
                    None => {
                        best = Some(self.rows[i].run_after);
                    },
                }
            }
            i = i + 1;
        }
        best
    }

    /// Whether a row is one that still has to run.
    fn is_runnable(&self, i: usize) -> (r: bool)
        requires
            i < self.rows@.len(),
        ensures
            r == !(self@[i as int].status is Done),
    {
        assert(self@[i as int] == self.rows@[i as int]@);
        self.rows[i].status != TaskStatus::Done
    }

    /// Id and payload of every row that still has to run, in table order.
    pub fn runnable_rows(&self) -> (r: Vec<(String, String)>)
        ensures
            r@.map_values(|p: (String, String)| (p.0@, p.1@)) == self@.filter(
                |r: RowView| !(r.status is Done),
            ).map_values(|r: RowView| (r.id, r.payload)),
    {
        let ghost keep = |r: RowView| !(r.status is Done);
        let ghost show = |r: RowView| (r.id, r.payload);
        let ghost see = |p: (String, String)| (p.0@, p.1@);
        let mut out: Vec<(String, String)> = Vec::new();
        let mut i: usize = 0;
        proof {
            reveal(Seq::filter);
            assert(self@.take(0).filter(keep) =~= Seq::<RowView>::empty());
            assert(out@.map_values(see) =~= self@.take(0).filter(keep).map_values(show));
        }
        while i < self.rows.len()
            invariant
                keep == (|r: RowView| !(r.status is Done)),
                show == (|r: RowView| (r.id, r.payload)),
                see == (|p: (String, String)| (p.0@, p.1@)),
                i <= self.rows@.len(),
                self@.len() == self.rows@.len(),
                out@.map_values(see) == self@.take(i as int).filter(keep).map_values(show),
            decreases self.rows@.len() - i,
        {
            let ghost kept = self@.take(i as int).filter(keep);
            let ghost sent = out@;
            proof {
                reveal(Seq::filter);
                assert(self@.take(i + 1).drop_last() =~= self@.take(i as int));
                assert(self@.take(i + 1).last() == self.rows@[i as int]@);
            }
            if self.is_runnable(i) {
                let pair = (self.rows[i].id.clone(), self.rows[i].payload.clone());
                out.push(pair);
                proof {
                    assert(kept.push(self@[i as int]).map_values(show) =~= kept.map_values(
                        show,
                    ).push(show(self@[i as int])));
                    assert(out@.map_values(see) =~= sent.map_values(see).push(see(pair)));
                }
            }
            i = i + 1;
        }
        assert(self@.take(i as int) =~= self@);
        out
    }

    /// Replaces what a row would run, wherever it stands.
    pub fn replace_payload(&mut self, id: &str, payload: &str)
        ensures
            final(self)@ == old(self)@.map_values(|r: RowView| repaired(r, id@, payload@)),
    {
        let ghost before = self@;
        let mut i: usize = 0;
        while i < self.rows.len()
            invariant
                i <= self.rows@.len(),
                self@.len() == before.len(),
                forall|j: int| 0 <= j < i ==> self@[j] == repaired(before[j], id@, payload@),
                forall|j: int| i <= j < before.len() ==> self@[j] == before[j],
            decreases self.rows@.len() - i,
        {
            let ghost was = self@;
            assert(self@[i as int] == self.rows@[i as int]@);
            if same(self.rows[i].id.as_str(), id) {
                self.rows[i].payload = payload.to_owned();
            }
            proof {
                assert(self@ =~= was.update(
                    i as int,
                    repaired(was[i as int], id@, payload@),
                ));
            }
            i = i + 1;
        }
        proof {
            assert(self@ =~= before.map_values(|r: RowView| repaired(r, id@, payload@)));
        }
    }
}

// ---- ids ----

/// The id of a task: the time it was enqueued at and a number that no other task
/// of this process has.
pub open spec fn task_id_of(now_ms: nat, counter: nat) -> Seq<char> {
    "task_"@ + crate::text::digits(now_ms) + "_"@ + crate::text::digits(counter)
}

pub fn task_id(now_ms: u64, counter: u64) -> (r: String)
    ensures
        r@ == task_id_of(now_ms as nat, counter as nat),
{
    let mut id = "task_".to_owned();
    let time = decimal(now_ms);
    let number = decimal(counter);
    id.append(time.as_str());
    id.append("_");
    id.append(number.as_str());
    id
}

/// The token of a lease: the process and the time it was taken at, and a number
/// that no other lease of the process has.
pub open spec fn lease_token_of(process: nat, now_ms: nat, counter: nat) -> Seq<char> {
    crate::text::digits(process) + "-"@ + crate::text::digits(now_ms) + "-"@
        + crate::text::digits(counter)
}

pub fn lease_token(process: u32, now_ms: u64, counter: u64) -> (r: String)
    ensures
        r@ == lease_token_of(process as nat, now_ms as nat, counter as nat),
{
    let mut token = decimal(process as u64);
    token.append("-");
    token.append(decimal(now_ms).as_str());
    token.append("-");
    token.append(decimal(counter).as_str());
    token
}

/// The decimal digits of a number are digits, and tell numbers apart.
pub proof fn lemma_digits(n: nat)
    ensures
        crate::text::digits(n).len() >= 1,
        forall|i: int|
            0 <= i < crate::text::digits(n).len() ==> 48 <= #[trigger] crate::text::digits(n)[i]
                as int <= 57,
    decreases n,
{
    if n >= 10 {
        lemma_digits(n / 10);
    }
}

pub proof fn lemma_digits_injective(a: nat, b: nat)
    requires
        crate::text::digits(a) == crate::text::digits(b),
    ensures
        a == b,
    decreases a,
{
    let da = crate::text::digits(a);
    let db = crate::text::digits(b);
    assert(da.last() == db.last());
    if a < 10 && b < 10 {
        assert(da[0] == db[0]);
    } else if a >= 10 && b >= 10 {
        assert(da.drop_last() =~= crate::text::digits(a / 10));
        assert(db.drop_last() =~= crate::text::digits(b / 10));
        lemma_digits_injective(a / 10, b / 10);
        assert(a % 10 == b % 10);
    } else if a < 10 {
        lemma_digits(b / 10);
        assert(da.len() == 1);
        assert(db.len() >= 2);
    } else {
        lemma_digits(a / 10);
        assert(db.len() == 1);
        assert(da.len() >= 2);
    }
}

proof fn lemma_tail_after(mark: char, x: Seq<char>, a: nat, y: Seq<char>, b: nat)
    requires
        !(48 <= mark as int <= 57),
        x + seq![mark] + crate::text::digits(a) == y + seq![mark] + crate::text::digits(b),
    ensures
        crate::text::digits(a) == crate::text::digits(b),
        x == y,
{
    let da = crate::text::digits(a);
    let db = crate::text::digits(b);
    lemma_digits(a);
    lemma_digits(b);
    let s = x + seq![mark] + da;
    let t = y + seq![mark] + db;
    if da.len() < db.len() {
        let at = s.len() - da.len() - 1;
        assert(s[at] == mark);
        assert(t[at] == db[at - (y.len() + 1)]);
    } else if da.len() > db.len() {
        let at = t.len() - db.len() - 1;
        assert(t[at] == mark);
        assert(s[at] == da[at - (x.len() + 1)]);
    } else {
        assert forall|i: int| 0 <= i < da.len() implies da[i] == db[i] by {
            assert(s[x.len() + 1 + i] == da[i]);
            assert(t[y.len() + 1 + i] == db[i]);
        }
        assert(da =~= db);
        assert(x.len() == y.len());
        assert forall|i: int| 0 <= i < x.len() implies x[i] == y[i] by {
            assert(s[i] == x[i]);
            assert(t[i] == y[i]);
        }
        assert(x =~= y);
    }
}

/// Tasks with different numbers have different ids, whenever they were enqueued.
pub proof fn law_task_ids_are_distinct(now1: nat, counter1: nat, now2: nat, counter2: nat)
    requires
        counter1 != counter2,
    ensures
        task_id_of(now1, counter1) != task_id_of(now2, counter2),
{
    if task_id_of(now1, counter1) == task_id_of(now2, counter2) {
        reveal_strlit("_");
        assert("_"@ =~= seq!['_']);
        lemma_tail_after(
            '_',
            "task_"@ + crate::text::digits(now1),
            counter1,
            "task_"@ + crate::text::digits(now2),
            counter2,
        );
        lemma_digits_injective(counter1, counter2);
    }
}

/// Two leases never have one token: leases with different numbers do not, whenever
/// and by whichever process they were taken, and neither do those of different
/// processes or times.
pub proof fn law_lease_tokens_are_distinct(
    process1: nat,
    now1: nat,
    counter1: nat,
    process2: nat,
    now2: nat,
    counter2: nat,
)
    requires
        counter1 != counter2 || now1 != now2 || process1 != process2,
    ensures
        lease_token_of(process1, now1, counter1) != lease_token_of(process2, now2, counter2),
{
    if lease_token_of(process1, now1, counter1) == lease_token_of(process2, now2, counter2) {
        reveal_strlit("-");
        assert("-"@ =~= seq!['-']);
        let p = crate::text::digits(process1);
        let q = crate::text::digits(process2);
        let x = p + seq!['-'] + crate::text::digits(now1);
        let y = q + seq!['-'] + crate::text::digits(now2);
        lemma_tail_after('-', x, counter1, y, counter2);
        lemma_digits_injective(counter1, counter2);
        lemma_tail_after('-', p, now1, q, now2);
        lemma_digits_injective(now1, now2);
        lemma_digits_injective(process1, process2);
    }
}

// ---- what becomes of an attempt ----

/// What a handler returns for a task that did not go through. The payload is the
/// state to persist for the next attempt.
#[derive(Debug)]
pub enum QueueError {
    /// Try again after a delay, until the retries are used up.
    Retryable { delay_ms: u64, payload: String },
    /// Give up now.
    Permanent { message: String, payload: String },
}

/// What is done with the row of an attempt.
#[derive(Debug)]
pub enum Settlement {
    /// The task went through; its row is deleted.
    Delete,
    /// The row is written back and runs again later.
    Reschedule { delay_ms: u64, payload: String, attempts: i32 },
    /// The row is deleted, and the user is told.
    DeadLetter { message: String, payload: String },
}

/// [`Settlement`] over mathematical text.
pub enum SettlementView {
    Delete,
    Reschedule { delay_ms: int, payload: Seq<char>, attempts: int },
    DeadLetter { message: Seq<char>, payload: Seq<char> },
}

impl View for Settlement {
    type V = SettlementView;

    open spec fn view(&self) -> SettlementView {
        match self {
            Settlement::Delete => SettlementView::Delete,
            Settlement::Reschedule { delay_ms, payload, attempts } => SettlementView::Reschedule {
                delay_ms: *delay_ms as int,
                payload: payload@,
                attempts: *attempts as int,
            },
            Settlement::DeadLetter { message, payload } => SettlementView::DeadLetter {
                message: message@,
                payload: payload@,
            },
        }
    }
}

/// Whether a row that was retried `attempts` times may be retried again. A
/// negative count, which no write makes, counts as used up.
pub open spec fn may_retry(attempts: int) -> bool {
    0 <= attempts < MAX_RETRIES
}

/// What becomes of an attempt at a row that was retried `attempts` times.
pub open spec fn settled(attempts: int, outcome: Result<(), QueueError>) -> SettlementView {
    match outcome {
        Ok(()) => SettlementView::Delete,
        Err(QueueError::Permanent { message, payload }) => SettlementView::DeadLetter {
            message: message@,
            payload: payload@,
        },
        Err(QueueError::Retryable { delay_ms, payload }) => if may_retry(attempts) {
            SettlementView::Reschedule {
                delay_ms: scaled_delay(delay_ms as int, attempts),
                payload: payload@,
                attempts: attempts + 1,
            }
        } else {
            SettlementView::DeadLetter { message: "retries exhausted"@, payload: payload@ }
        },
    }
}

pub fn settle(attempts: i32, outcome: Result<(), QueueError>) -> (r: Settlement)
    ensures
        r@ == settled(attempts as int, outcome),
{
    match outcome {
        Ok(()) => Settlement::Delete,
        Err(QueueError::Permanent { message, payload }) => Settlement::DeadLetter {
            message,
            payload,
        },
        Err(QueueError::Retryable { delay_ms, payload }) => {
            if attempts < 0 || attempts as u32 >= MAX_RETRIES {
                Settlement::DeadLetter { message: "retries exhausted".to_owned(), payload }
            } else {
                Settlement::Reschedule {
                    delay_ms: scaled_retry_delay(delay_ms, attempts),
                    payload,
                    attempts: attempts + 1,
                }
            }
        },
    }
}

/// What becomes of a stored payload that is not JSON: nothing can run it.
pub open spec fn rejected(error: Option<Seq<char>>) -> Option<SettlementView> {
    match error {
        Some(e) => Some(
            SettlementView::DeadLetter {
                message: "invalid stored payload: "@ + e,
                payload: "null"@,
            },
        ),
        None => None,
    }
}

pub open spec fn settlement_option(r: Option<Settlement>) -> Option<SettlementView> {
    match r {
        Some(s) => Some(s@),
        None => None,
    }
}

/// What becomes of a row for the words in which its payload was refused, if it
/// was.
pub fn reject(error: Option<String>) -> (r: Option<Settlement>)
    ensures
        settlement_option(r) == rejected(crate::json::text_option(error)),
{
    match error {
        Some(e) => {
            let mut message = "invalid stored payload: ".to_owned();
            message.append(e.as_str());
            Some(Settlement::DeadLetter { message, payload: "null".to_owned() })
        },
        None => None,
    }
}

/// Settles a row whose payload cannot be parsed; the others have to run first.
pub fn check_payload(payload: &str) -> (r: Option<Settlement>)
    ensures
        settlement_option(r) == rejected(crate::json::json_error_of(payload@)),
{
    reject(json_error(payload))
}

// ---- writes that end a row's life ----

/// What a worker does after an attempt at a terminal write.
#[derive(Clone, Copy, Debug, PartialEq, Eq, Structural)]
pub enum WriteStep {
    /// The write went through.
    Finished,
    /// Wait this many milliseconds and try again.
    RetryAfter(u64),
    /// Wait this many milliseconds; there is no further attempt.
    GiveUpAfter(u64),
}

pub open spec fn write_step(attempt: u32, ok: bool) -> WriteStep {
    if ok {
        WriteStep::Finished
    } else if attempt + 1 < TERMINAL_WRITE_ATTEMPTS {
        WriteStep::RetryAfter(write_backoff(attempt) as u64)
    } else {
        WriteStep::GiveUpAfter(write_backoff(attempt) as u64)
    }
}

/// What follows attempt number `attempt`, counted from zero, at deleting or
/// rescheduling a row. A deletion that is given up marks the row done; a
/// reschedule that is given up leaves the row to the expiry sweep.
pub fn after_write(attempt: u32, ok: bool) -> (r: WriteStep)
    ensures
        r == write_step(attempt, ok),
{
    proof {
        reveal_with_fuel(power_of_two, 5);
    }
    if ok {
        WriteStep::Finished
    } else if attempt < TERMINAL_WRITE_ATTEMPTS - 1 {
        WriteStep::RetryAfter(terminal_write_backoff(attempt))
    } else {
        WriteStep::GiveUpAfter(terminal_write_backoff(attempt))
    }
}

/// How long an idle worker sleeps before it looks again: until the earliest
/// pending row is due, or until it is woken where nothing is pending.
pub fn idle_wait(earliest: Option<i64>, now: i64) -> (r: Option<u64>)
    ensures
        match earliest {
            Some(until) => r == Some(
                (if until > now {
                    until - now
                } else {
                    0
                }) as u64,
            ),
            None => r is None,
        },
{
    match earliest {
        Some(until) => if until > now {
            Some((until as i128 - now as i128) as u64)
        } else {
            Some(0)
        },
        None => None,
    }
}

// ---- naming a row in a log line ----

/// The chat that a payload is about: its `chat_id` where it has one, else its
/// `from_chat_id`.
pub open spec fn payload_chat(payload: Seq<char>) -> Option<i64> {
    let field = match crate::json::json_field_of(payload, "chat_id"@) {
        crate::json::JsonFieldView::Absent => crate::json::json_field_of(
            payload,
            "from_chat_id"@,
        ),
        other => other,
    };
    match field {
        crate::json::JsonFieldView::Int(n) => Some(n),
        _ => None,
    }
}

pub fn row_chat(payload: &str) -> (r: Option<i64>)
    ensures
        r == payload_chat(payload@),
{
    match json_field(payload, "chat_id") {
        JsonField::Int(n) => Some(n),
        JsonField::Absent => match json_field(payload, "from_chat_id") {
            JsonField::Int(n) => Some(n),
            _ => None,
        },
        _ => None,
    }
}

/// The post that a payload is about, where it names one.
pub open spec fn payload_source(payload: Seq<char>) -> Option<Seq<char>> {
    match crate::json::json_field_of(payload, "source_url"@) {
        crate::json::JsonFieldView::Text(s) => Some(s),
        _ => None,
    }
}

pub fn row_source_url(payload: &str) -> (r: Option<String>)
    ensures
        crate::json::text_option(r) == payload_source(payload@),
{
    match json_field(payload, "source_url") {
        JsonField::Text(s) => Some(s),
        _ => None,
    }
}

/// How a link is named in the log: by its cache key, never by its URL.
pub open spec fn log_key_of(cache_key: Option<Seq<char>>) -> Seq<char> {
    match cache_key {
        Some(key) => key,
        None => "<unsupported>"@,
    }
}

pub fn log_key(cache_key: Option<&str>) -> (r: String)
    ensures
        r@ == log_key_of(token_view(cache_key)),
{
    match cache_key {
        Some(key) => key.to_owned(),
        None => "<unsupported>".to_owned(),
    }
}

pub open spec fn row_line_of(chat: Option<i64>, key: Option<Seq<char>>) -> Seq<char> {
    match (chat, key) {
        (Some(chat), Some(key)) => "chat="@ + crate::text::signed_digits(chat as int) + " [key="@
            + key + "]"@,
        (Some(chat), None) => "chat="@ + crate::text::signed_digits(chat as int),
        (None, Some(key)) => "[key="@ + key + "]"@,
        (None, None) => Seq::empty(),
    }
}

/// The chat and the post of a log line, as far as they are known.
pub fn row_line(chat: Option<i64>, key: Option<&str>) -> (r: String)
    ensures
        r@ == row_line_of(chat, token_view(key)),
{
    let mut out = String::new();
    match chat {
        Some(chat) => {
            let number = signed_decimal(chat);
            out.append("chat=");
            out.append(number.as_str());
            proof {
                assert(out@ =~= "chat="@ + crate::text::signed_digits(chat as int));
            }
            if let Some(key) = key {
                out.append(" [key=");
                out.append(key);
                out.append("]");
            }
        },
        None => if let Some(key) = key {
            out.append("[key=");
            out.append(key);
            out.append("]");
            proof {
                assert(out@ =~= "[key="@ + key@ + "]"@);
            }
        },
    }
    out
}

/// Which task a log line is about. `cache_key` is the cache key of the payload's
/// `source_url`, where the link has one.
pub fn row_fields(payload: &str, cache_key: Option<&str>) -> (r: String)
    ensures
        r@ == row_line_of(
            payload_chat(payload@),
            match payload_source(payload@) {
                Some(_) => Some(log_key_of(token_view(cache_key))),
                None => None,
            },
        ),
{
    let chat = row_chat(payload);
    match row_source_url(payload) {
        Some(_) => {
            let key = log_key(cache_key);
            row_line(chat, Some(key.as_str()))
        },
        None => row_line(chat, None),
    }
}

// ---- laws ----

/// Every operation keeps the ids unique.
pub proof fn law_ids_stay_unique(
    s: Seq<RowView>,
    row: RowView,
    i: int,
    id: Seq<char>,
    token: Seq<char>,
    payload: Seq<char>,
    run_after: int,
    attempts: int,
    now: int,
)
    requires
        unique_ids(s),
    ensures
        unique_ids(enqueued(s, row)),
        0 <= i < s.len() ==> unique_ids(s.update(i, leased(s[i], now, token))),
        unique_ids(s.map_values(|r: RowView| recovered(r, now))),
        unique_ids(s.map_values(|r: RowView| refreshed(r, id, token, now))),
        unique_ids(
            s.map_values(|r: RowView| rescheduled(r, id, token, payload, run_after, attempts)),
        ),
        unique_ids(s.map_values(|r: RowView| finished(r, id, token))),
        unique_ids(s.map_values(|r: RowView| repaired(r, id, payload))),
        unique_ids(s.filter(|r: RowView| !held_by(r, id, token))),
{
    lemma_filter_unique(s, |r: RowView| r.id != row.id);
    lemma_filter_unique(s, |r: RowView| !held_by(r, id, token));
    let kept = s.filter(|r: RowView| r.id != row.id);
    assert forall|a: int| 0 <= a < kept.len() implies kept[a].id != row.id by {
        s.lemma_filter_pred(|r: RowView| r.id != row.id, a);
    }
}

/// Filtering keeps the ids unique.
proof fn lemma_filter_unique(s: Seq<RowView>, keep: spec_fn(RowView) -> bool)
    requires
        unique_ids(s),
    ensures
        unique_ids(s.filter(keep)),
    decreases s.len(),
{
    reveal(Seq::filter);
    if s.len() > 0 {
        let front = s.drop_last();
        assert(unique_ids(front)) by {
            assert(forall|i: int| 0 <= i < front.len() ==> front[i] == s[i]);
        }
        lemma_filter_unique(front, keep);
        if keep(s.last()) {
            let kept = front.filter(keep);
            assert forall|i: int| 0 <= i < kept.len() implies kept[i].id != s.last().id by {
                front.lemma_filter_contains_rev(keep, kept[i]);
                let j = choose|j: int| 0 <= j < front.len() && front[j] == kept[i];
                assert(s[j].id != s[s.len() - 1].id);
            }
            assert(s.filter(keep) =~= kept.push(s.last()));
        }
    }
}

/// A row that ran is not leased again: it is never the next row, the sweep leaves
/// it alone, and it is not counted as waiting.
pub proof fn law_done_rows_never_run(s: Seq<RowView>, i: int, now: int)
    requires
        0 <= i < s.len(),
        s[i].status is Done,
    ensures
        !is_next(s, now, i),
        recovered(s[i], now) == s[i],
        pending_count(s.remove(i)) == pending_count(s),
{
    lemma_remove_not_pending(s, i);
}

proof fn lemma_remove_not_pending(s: Seq<RowView>, i: int)
    requires
        0 <= i < s.len(),
        !(s[i].status is Pending),
    ensures
        pending_count(s.remove(i)) == pending_count(s),
    decreases s.len(),
{
    let out = s.remove(i);
    if i == s.len() - 1 {
        assert(out =~= s.drop_last());
    } else {
        assert(out.drop_last() =~= s.drop_last().remove(i));
        assert(out.last() == s.last());
        lemma_remove_not_pending(s.drop_last(), i);
    }
}

/// While its lease lasts, a leased row is neither swept nor leased, not even by a
/// sweep and a lease together.
pub proof fn law_a_leased_row_is_held(r: RowView, leased_at: int, later: int, token: Seq<char>)
    requires
        later <= leased_at + LOCK_TTL_MS,
    ensures
        recovered(leased(r, leased_at, token), later) == leased(r, leased_at, token),
        !leasable(recovered(leased(r, leased_at, token), later), later),
{
}

/// Once its lease ran out, a row that is due becomes leasable again: a crashed
/// worker loses no task.
pub proof fn law_an_expired_lease_is_recovered(
    r: RowView,
    leased_at: int,
    later: int,
    token: Seq<char>,
)
    requires
        leasable(r, leased_at),
        leased_at >= 0,
        later > leased_at + LOCK_TTL_MS,
    ensures
        leasable(recovered(leased(r, leased_at, token), later), later),
        recovered(leased(r, leased_at, token), later).payload == r.payload,
        recovered(leased(r, leased_at, token), later).attempts == r.attempts,
{
}

/// A worker whose lease ran out and was taken over can no longer write the row:
/// deleting it, marking it done, rescheduling it and the heartbeat leave it as the
/// new holder has it. The two leases are told apart by their numbers alone.
pub proof fn law_a_lost_lease_writes_nothing(
    r: RowView,
    id: Seq<char>,
    process1: nat,
    now1: nat,
    counter1: nat,
    process2: nat,
    now2: nat,
    counter2: nat,
    payload: Seq<char>,
    run_after: int,
    attempts: int,
    leased_at: int,
    recovered_at: int,
    taken_at: int,
    now: int,
)
    requires
        counter1 != counter2,
    ensures
        ({
            let lost = lease_token_of(process1, now1, counter1);
            let token = lease_token_of(process2, now2, counter2);
            let row = leased(recovered(leased(r, leased_at, lost), recovered_at), taken_at, token);
            &&& !held_by(row, id, lost)
            &&& finished(row, id, lost) == row
            &&& rescheduled(row, id, lost, payload, run_after, attempts) == row
            &&& refreshed(row, id, lost, now) == row
            &&& row.status is InProgress
            &&& row.locked_until == taken_at + LOCK_TTL_MS
            &&& row.payload == r.payload
            &&& row.attempts == r.attempts
        }),
{
    law_lease_tokens_are_distinct(process1, now1, counter1, process2, now2, counter2);
}

/// A task that keeps asking for a retry is attempted three times and then given
/// up; no retry comes sooner than the handler asked for.
pub proof fn law_retries_then_dead_letter(delay_ms: u64, payload: String)
    ensures
        ({
            let again = Err::<(), QueueError>(QueueError::Retryable { delay_ms, payload });
            &&& settled(0, again) matches SettlementView::Reschedule { delay_ms: d, attempts, .. }
                && attempts == 1 && d >= delay_ms
            &&& settled(1, again) matches SettlementView::Reschedule { delay_ms: d, attempts, .. }
                && attempts == 2 && d >= delay_ms
            &&& settled(2, again) is DeadLetter
        }),
{
}

/// A new task waits for its time and not longer: it can be leased from then on, has not
/// been tried, and runs what was enqueued. The rows of other tasks stay as they are, in
/// their order.
pub proof fn law_a_new_task_waits_for_its_time(
    s: Seq<RowView>,
    id: Seq<char>,
    payload: Seq<char>,
    run_after: int,
    now: int,
    later: int,
)
    requires
        later >= 0,
    ensures
        ({
            let row = fresh_row(id, payload, run_after, now);
            let after = enqueued(s, row);
            &&& row.id == id
            &&& row.payload == payload
            &&& row.attempts == 0
            &&& row.created_at == now
            &&& row.lease_token is None
            &&& leasable(row, later) <==> run_after <= later
            &&& after.len() >= 1
            &&& after.last() == row
            &&& after.drop_last() == s.filter(|r: RowView| r.id != id)
            &&& (forall|i: int| 0 <= i < s.len() ==> (#[trigger] s[i]).id != id) ==> after == s.push(
                row,
            )
        }),
    decreases s.len(),
{
    let row = fresh_row(id, payload, run_after, now);
    let other = |r: RowView| r.id != id;
    assert((|r: RowView| r.id != row.id) =~= other);
    assert(enqueued(s, row).drop_last() =~= s.filter(other));
    if forall|i: int| 0 <= i < s.len() ==> (#[trigger] s[i]).id != id {
        lemma_filter_keeps(s, other);
    }
}

proof fn lemma_filter_keeps(s: Seq<RowView>, keep: spec_fn(RowView) -> bool)
    requires
        forall|i: int| 0 <= i < s.len() ==> keep(#[trigger] s[i]),
    ensures
        s.filter(keep) == s,
    decreases s.len(),
{
    reveal(Seq::filter);
    if s.len() > 0 {
        assert forall|i: int| 0 <= i < s.drop_last().len() implies keep(
            #[trigger] s.drop_last()[i],
        ) by {
            assert(keep(s[i]));
        }
        lemma_filter_keeps(s.drop_last(), keep);
        assert(keep(s[s.len() - 1]));
        assert(s.drop_last().push(s.last()) =~= s);
    } else {
        assert(s.filter(keep) =~= s);
    }
}

/// A worker gets the row that has been due the longest, and of several the one that
/// stands first; a row that is not due, held or done is not given out.
pub proof fn law_the_longest_due_row_is_next(s: Seq<RowView>, now: int, i: int, j: int)
    requires
        is_next(s, now, i),
        0 <= j < s.len(),
        s[j].status is Pending,
        s[j].run_after <= now,
        s[j].locked_until <= now,
    ensures
        s[i].status is Pending,
        s[i].run_after <= now,
        s[i].locked_until <= now,
        s[i].run_after <= s[j].run_after,
        s[i].run_after == s[j].run_after ==> i <= j,
{
    assert(leasable(s[j], now));
}

/// A lease holds a row for two minutes and changes nothing of the task; a heartbeat
/// holds it for two more from then on.
pub proof fn law_a_lease_lasts_two_minutes(r: RowView, now: int, later: int, token: Seq<char>)
    ensures
        ({
            let row = leased(r, now, token);
            &&& row.id == r.id
            &&& row.payload == r.payload
            &&& row.attempts == r.attempts
            &&& row.run_after == r.run_after
            &&& row.created_at == r.created_at
            &&& row.status is InProgress
            &&& row.locked_until == now + 2 * 60 * 1000
            &&& row.lease_token == Some(token)
            &&& refreshed(row, r.id, token, later) == (RowView {
                locked_until: later + 2 * 60 * 1000,
                ..row
            })
            &&& recovered(row, later).status is Pending <==> later > now + 2 * 60 * 1000
            &&& recovered(row, later).id == r.id
            &&& recovered(row, later).payload == r.payload
            &&& recovered(row, later).run_after == r.run_after
        }),
{
}

/// Whoever holds a row can write it: what is written back is what the next attempt
/// gets, from the time that was asked for, and a row that is marked done never runs
/// again. No write touches another row.
pub proof fn law_the_holder_writes_its_row_alone(
    r: RowView,
    other: RowView,
    token: Seq<char>,
    payload: Seq<char>,
    run_after: int,
    attempts: int,
    now: int,
    later: int,
)
    requires
        other.id != r.id,
        later >= 0,
    ensures
        ({
            let row = leased(r, now, token);
            let again = rescheduled(row, r.id, token, payload, run_after, attempts);
            &&& held_by(row, r.id, token)
            &&& again.id == r.id
            &&& again.payload == payload
            &&& again.attempts == attempts
            &&& again.created_at == r.created_at
            &&& leasable(again, later) <==> run_after <= later
            &&& finished(row, r.id, token).status is Done
            &&& !leasable(finished(row, r.id, token), later)
            &&& repaired(row, r.id, payload) == (RowView { payload, ..row })
            &&& !held_by(other, r.id, token)
            &&& refreshed(other, r.id, token, now) == other
            &&& rescheduled(other, r.id, token, payload, run_after, attempts) == other
            &&& finished(other, r.id, token) == other
            &&& repaired(other, r.id, payload) == other
        }),
{
}

/// A retry waits twice as long as asked for after the first one, four times after the
/// second, but five minutes at most unless more was asked for; the state that the
/// attempt left is kept.
pub proof fn law_retries_wait_longer_each_time(delay: u64, state: String)
    ensures
        scaled_delay(delay as int, 0) == delay,
        2 * delay <= 300000 ==> scaled_delay(delay as int, 1) == 2 * delay,
        4 * delay <= 300000 ==> scaled_delay(delay as int, 2) == 4 * delay,
        2 * delay > 300000 ==> scaled_delay(delay as int, 1) == (if delay > 300000 {
            delay as int
        } else {
            300000
        }),
        forall|attempts: int|
            match #[trigger] settled(
                attempts,
                Err(QueueError::Retryable { delay_ms: delay, payload: state }),
            ) {
                SettlementView::Delete => false,
                SettlementView::Reschedule { delay_ms, payload, attempts: next } => delay_ms
                    == scaled_delay(delay as int, attempts) && payload == state@ && next == attempts
                    + 1 && 0 <= attempts < 2,
                SettlementView::DeadLetter { payload, .. } => payload == state@ && !(0 <= attempts
                    < 2),
            },
{
    reveal_with_fuel(power_of_two, 4);
    assert(power_of_two(1) == 2);
    assert(power_of_two(2) == 4);
    assert(delay * power_of_two(1) == 2 * delay) by (nonlinear_arith)
        requires
            power_of_two(1) == 2,
    ;
    assert(delay * power_of_two(2) == 4 * delay) by (nonlinear_arith)
        requires
            power_of_two(2) == 4,
    ;
}

/// An attempt that went through leaves no row, and one that failed for good is told in
/// its own words, whatever attempt it was. A payload that cannot be read is given up
/// with the reason.
pub proof fn law_final_outcomes_are_final(
    attempts: int,
    reason: String,
    state: String,
    error: Option<Seq<char>>,
)
    ensures
        settled(attempts, Ok(())) is Delete,
        settled(attempts, Err(QueueError::Permanent { message: reason, payload: state }))
            matches SettlementView::DeadLetter { message, payload } && message == reason@ && payload
            == state@,
        rejected(error) is Some <==> error is Some,
        error matches Some(e) ==> (rejected(error) matches Some(SettlementView::DeadLetter {
            message,
            ..
        }) && e.is_suffix_of(message)),
{
    if let Some(e) = error {
        let message = "invalid stored payload: "@ + e;
        assert(message.subrange(message.len() - e.len(), message.len() as int) =~= e);
    }
}

/// A write that ends a row's life is attempted three times, after waits that double
/// from a tenth of a second.
pub proof fn law_final_writes_are_tried_three_times(attempt: u32)
    ensures
        write_step(attempt, true) == WriteStep::Finished,
        write_step(0, false) == WriteStep::RetryAfter(100),
        write_step(1, false) == WriteStep::RetryAfter(200),
        write_step(2, false) == WriteStep::GiveUpAfter(400),
        attempt >= 2 ==> write_step(attempt, false) is GiveUpAfter,
        write_backoff(3) == 800,
        attempt >= 4 ==> write_backoff(attempt) == 1600,
{
    reveal_with_fuel(power_of_two, 6);
}

/// The rows that wait are counted one by one.
pub proof fn law_waiting_rows_are_counted(s: Seq<RowView>, r: RowView)
    ensures
        pending_count(Seq::empty()) == 0,
        pending_count(s.push(r)) == pending_count(s) + if r.status is Pending {
            1nat
        } else {
            0nat
        },
{
    assert(s.push(r).drop_last() =~= s);
}

/// A log line names the chat and the post that it is about, as far as they are known,
/// and the post by its key alone.
pub proof fn law_log_lines_name_chat_and_post(chat: Option<i64>, key: Option<Seq<char>>)
    ensures
        key matches Some(k) ==> crate::text::has(row_line_of(chat, key), k) && log_key_of(key) == k,
        chat matches Some(c) ==> crate::text::has(
            row_line_of(chat, key),
            crate::text::signed_digits(c as int),
        ),
        chat is None && key is None ==> row_line_of(chat, key).len() == 0,
{
    let line = row_line_of(chat, key);
    if let Some(k) = key {
        let end = line.len() - "]"@.len();
        assert(line.subrange(end - k.len(), end as int) =~= k);
        assert(crate::text::occurs_at(line, k, end - k.len()));
    }
    if let Some(c) = chat {
        let n = crate::text::signed_digits(c as int);
        let at = "chat="@.len() as int;
        assert(line.subrange(at, at + n.len()) =~= n);
        assert(crate::text::occurs_at(line, n, at));
    }
}

/// A payload is about the chat that it is sent to, or else the one that it copies from,
/// and about the post whose link it holds.
pub proof fn law_payloads_name_their_chat(payload: Seq<char>)
    ensures
        crate::json::json_field_of(payload, "chat_id"@) matches crate::json::JsonFieldView::Int(n)
            ==> payload_chat(payload) == Some(n),
        crate::json::json_field_of(payload, "chat_id"@) is Absent ==> match crate::json::json_field_of(
            payload,
            "from_chat_id"@,
        ) {
            crate::json::JsonFieldView::Int(n) => payload_chat(payload) == Some(n),
            _ => payload_chat(payload) is None,
        },
        crate::json::json_field_of(payload, "source_url"@) matches crate::json::JsonFieldView::Text(
            link,
        ) ==> payload_source(payload) == Some(link),
{
}

/// The earliest time at which a row is due is that of a waiting row, and no waiting row is
/// due before it.
pub proof fn law_the_earliest_row_is_waited_for(s: Seq<RowView>, t: int, u: int, i: int)
    requires
        is_earliest(s, t),
        is_earliest(s, u),
        0 <= i < s.len(),
        s[i].status is Pending,
    ensures
        t <= s[i].run_after,
        exists|j: int| 0 <= j < s.len() && (#[trigger] s[j]).status is Pending && s[j].run_after == t,
        t == u,
        pending_count(s) > 0,
{
    lemma_some_pending(s, i);
}

proof fn lemma_some_pending(s: Seq<RowView>, i: int)
    requires
        0 <= i < s.len(),
        s[i].status is Pending,
    ensures
        pending_count(s) > 0,
    decreases s.len(),
{
    if i < s.len() - 1 {
        assert(s.drop_last()[i] == s[i]);
        lemma_some_pending(s.drop_last(), i);
    }
}

/// What is read of a row is what it holds, and the rows are read in their order.
pub proof fn law_a_row_is_what_it_holds(q: PersistentTaskQueue, i: int)
    requires
        0 <= i < q.rows@.len(),
    ensures
        q@.len() == q.rows@.len(),
        ({
            let row = q.rows@[i];
            let seen = q@[i];
            &&& seen.id == row.id@
            &&& seen.payload == row.payload@
            &&& seen.run_after == row.run_after
            &&& seen.attempts == row.attempts
            &&& seen.status == row.status
            &&& seen.locked_until == row.locked_until
            &&& seen.lease_token == crate::json::text_option(row.lease_token)
            &&& seen.created_at == row.created_at
        }),
{
}

} // verus!
