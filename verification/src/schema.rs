//! Which migrations of the score database are still to be run. Migrations are
//! append-only: the version of a database is the number of those behind it.

use vstd::prelude::*;

verus! {

/// The migrations that a database at `version` still needs, of `count` in all,
/// by position and in order: migration `i` takes it to version `i + 1`.
pub open spec fn pending(version: int, count: nat) -> Seq<int> {
    let first = first_pending(version, count);
    Seq::new((count - first) as nat, |j: int| first + j)
}

/// The position of the first migration that is still needed; `count` where
/// none is.
pub open spec fn first_pending(version: int, count: nat) -> int {
    if version < 0 {
        0
    } else if version > count {
        count as int
    } else {
        version
    }
}

/// The version of a database once migration `i` has been run.
pub open spec fn version_after(i: int) -> int {
    i + 1
}

/// The version once the first `done` of the migrations that were needed have
/// been run.
pub open spec fn version_behind(version: int, count: nat, done: int) -> int {
    if done == 0 {
        version
    } else {
        version_after(pending(version, count)[done - 1])
    }
}

/// The migrations that a database at `version` still needs, in order.
pub fn pending_migrations(version: i64, count: usize) -> (r: Vec<usize>)
    ensures
        r@.map_values(|i: usize| i as int) == pending(version as int, count as nat),
{
    let ghost first = first_pending(version as int, count as nat);
    let mut out: Vec<usize> = Vec::new();
    let mut i: usize = 0;
    while i < count
        invariant
            i <= count,
            first == first_pending(version as int, count as nat),
            out@.len() == if i < first {
                0
            } else {
                i - first
            },
            forall|j: int| 0 <= j < out@.len() ==> #[trigger] out@[j] == first + j,
        decreases count - i,
    {
        if (version as i128) < i as i128 + 1 {
            out.push(i);
        }
        i += 1;
    }
    assert(out@.map_values(|i: usize| i as int) =~= pending(version as int, count as nat));
    out
}

/// A migrated database needs nothing: running the migrations again does
/// nothing.
pub proof fn law_migrating_twice_does_nothing(version: int, count: nat)
    ensures
        pending(
            version_behind(version, count, pending(version, count).len() as int),
            count,
        ).len() == 0,
{
}

/// A run of the migrations that stopped part-way is taken up where it stopped.
pub proof fn law_interrupted_migrations_resume(version: int, count: nat, done: int)
    requires
        0 <= done <= pending(version, count).len(),
    ensures
        pending(version_behind(version, count, done), count) == pending(version, count).skip(done),
{
    assert(pending(version_behind(version, count, done), count) =~= pending(version, count).skip(
        done,
    ));
}

/// Migrations that are appended are run after those that were there.
pub proof fn law_migrations_are_append_only(version: int, count: nat, more: nat)
    requires
        version <= count,
    ensures
        pending(version, count) == pending(version, count + more).take(
            pending(version, count).len() as int,
        ),
        pending(version, count + more).len() == pending(version, count).len() + more,
{
    assert(pending(version, count) =~= pending(version, count + more).take(
        pending(version, count).len() as int,
    ));
}

} // verus!
