//! The clock and the version of the stored data.
use crate::text::decimal;
use vstd::prelude::*;

verus! {

/// The milliseconds since the Unix epoch by `std::time::SystemTime`, or nothing
/// where the clock stands before it. Nothing is claimed of the time.
#[verifier::external_body]
fn system_clock() -> (r: Option<u64>) {
    let epoch = std::time::UNIX_EPOCH;
    std::time::SystemTime::now().duration_since(epoch).ok().map(|d| d.as_millis() as u64)
}

/// What a clock reads in milliseconds: zero before the epoch.
pub open spec fn clock_ms(clock: Option<u64>) -> int {
    match clock {
        Some(ms) => if ms < i64::MAX {
            ms as int
        } else {
            i64::MAX as int
        },
        None => 0,
    }
}

pub fn read_clock(clock: Option<u64>) -> (r: i64)
    ensures
        r == clock_ms(clock),
        r >= 0,
{
    match clock {
        Some(ms) => if ms < i64::MAX as u64 {
            ms as i64
        } else {
            i64::MAX
        },
        None => 0,
    }
}

/// The time in milliseconds since the Unix epoch.
pub fn now_ms() -> (r: i64)
    ensures
        r >= 0,
{
    read_clock(system_clock())
}

/// A time in whole seconds.
pub fn whole_seconds(ms: i64) -> (r: i64)
    requires
        ms >= 0,
    ensures
        r == ms as int / 1000,
        r >= 0,
{
    ms / 1000
}

/// The time in whole seconds since the Unix epoch.
pub fn unix_now() -> (r: i64)
    ensures
        0 <= r <= i64::MAX as int / 1000,
{
    whole_seconds(now_ms())
}

// ---- migrations ----

/// The first migration: leases are fenced by a token.
pub const ADD_LEASE_TOKEN: &'static str = "ALTER TABLE tasks ADD COLUMN lease_token TEXT";

/// All migrations, in the order in which they are applied. The one at index `i`
/// brings the data to version `i + 1`.
pub open spec fn all_migrations() -> Seq<Seq<char>> {
    seq![ADD_LEASE_TOKEN@]
}

/// What a migration does and the version it brings the data to.
#[derive(Debug)]
pub struct Migration {
    pub target: i64,
    pub statement: String,
}

/// The migrations that data of a version still has to go through.
pub open spec fn due(version: int) -> Seq<(int, Seq<char>)> {
    let all = all_migrations();
    let from = if version < 0 {
        0
    } else if version > all.len() {
        all.len() as int
    } else {
        version
    };
    Seq::new((all.len() - from) as nat, |i: int| (from + i + 1, all[from + i]))
}

pub open spec fn migration_views(v: Seq<Migration>) -> Seq<(int, Seq<char>)> {
    v.map_values(|m: Migration| (m.target as int, m.statement@))
}

/// The migrations that data of a version still has to go through, in order.
pub fn due_migrations(version: i64) -> (r: Vec<Migration>)
    ensures
        migration_views(r@) == due(version as int),
{
    let mut out: Vec<Migration> = Vec::new();
    if version < 1 {
        out.push(Migration { target: 1, statement: ADD_LEASE_TOKEN.to_owned() });
    }
    assert(migration_views(out@) =~= due(version as int));
    out
}

/// The statement that records a version.
pub fn version_statement(target: u64) -> (r: String)
    ensures
        r@ == "PRAGMA user_version = "@ + crate::text::digits(target as nat),
{
    let mut out = "PRAGMA user_version = ".to_owned();
    let number = decimal(target);
    out.append(number.as_str());
    out
}

/// Migrating is idempotent: data that went through what was due has nothing due,
/// and each step brings it to the next version.
pub proof fn law_migration_is_idempotent(version: int)
    requires
        0 <= version,
    ensures
        due(all_migrations().len() as int).len() == 0,
        forall|i: int| 0 <= i < due(version).len() ==> (#[trigger] due(version)[i]).0 == version + i
            + 1,
        due(version).len() > 0 ==> due(version).last().0 == all_migrations().len(),
{
}

/// Data that never was migrated goes through every migration, in order, the first of
/// which fences the leases; data of the newest version, or of a newer one, through none.
pub proof fn law_old_data_is_migrated(version: int)
    ensures
        version <= 0 ==> due(version).len() == all_migrations().len() && due(version)[0] == (
            1int,
            ADD_LEASE_TOKEN@,
        ),
        version >= all_migrations().len() ==> due(version).len() == 0,
        all_migrations().len() == 1,
{
}

/// A clock is read as it stands; before the epoch it reads nothing.
pub proof fn law_clocks_are_read_as_they_stand(ms: u64)
    ensures
        ms <= i64::MAX ==> clock_ms(Some(ms)) == ms,
        clock_ms(None) == 0,
{
}

} // verus!
