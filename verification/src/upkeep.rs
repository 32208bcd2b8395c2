//! Files that a run left behind. Times are milliseconds since the Unix epoch.
use crate::text::starts_with;
use vstd::prelude::*;

verus! {

/// How old a file has to be before it counts as left behind: a younger one could
/// belong to another run.
pub const ORPHAN_TEMP_AGE_MS: u64 = 3600000;

/// Whether a file is swept: it bears the bot's prefix, and it was last changed
/// long enough ago. One whose age is not known stays.
pub open spec fn is_orphan(
    name: Seq<char>,
    prefix: Seq<char>,
    modified: Option<u64>,
    now: int,
    older_than: int,
) -> bool {
    crate::text::begins_with(name, prefix) && (modified matches Some(m) && m + older_than < now)
}

pub fn sweeps(name: &str, prefix: &str, modified: Option<u64>, now: u64, older_than: u64) -> (r: bool)
    ensures
        r == is_orphan(name@, prefix@, modified, now as int, older_than as int),
{
    match modified {
        Some(m) => starts_with(name, prefix) && (m as u128) + (older_than as u128) < now as u128,
        None => false,
    }
}

/// A file is swept only where it bears the bot's prefix and is known to be older than a
/// run could still need it; any other file stays.
pub proof fn law_only_old_files_of_the_bot_are_swept(
    prefix: Seq<char>,
    rest: Seq<char>,
    other: Seq<char>,
    modified: u64,
    now: int,
    older_than: int,
)
    ensures
        is_orphan(prefix + rest, prefix, Some(modified), now, older_than) <==> now - modified
            > older_than,
        !is_orphan(prefix + rest, prefix, None, now, older_than),
        is_orphan(other, prefix, Some(modified), now, older_than) ==> prefix.is_prefix_of(other)
            && now - modified > older_than,
{
    let name = prefix + rest;
    assert(name.subrange(0, prefix.len() as int) =~= prefix);
}

} // verus!
