//! The schema migrator: applies an ordered list of versioned schema changes
//! to the structured task store exactly once each, in ascending version
//! order, tracking the highest applied version in the store's own metadata.
//! Executing a statement against the store engine is the shell's job; the
//! run is driven here as a state machine that hands out the next pending
//! migration and records each outcome.

use vstd::prelude::*;
use crate::error::StartupError;

verus! {

/// The direction of a schema change.
#[derive(Clone, Copy, Debug, PartialEq, Eq)]
pub enum MigrationKind {
    Up,
    Down,
}

/// One immutable schema change: a unique version, a human-readable
/// description, and the statement to apply.
#[derive(Debug, PartialEq, Eq)]
pub struct Migration {
    pub version: u64,
    pub description: String,
    pub statement: String,
    pub kind: MigrationKind,
}

/// Versions appear in strictly increasing order, which also makes them
/// unique.
pub open spec fn versions_ascending(ms: Seq<Migration>) -> bool {
    forall|i: int, j: int| 0 <= i < j < ms.len() ==> ms[i].version < ms[j].version
}

/// The highest version in the sequence, or 0 when it is empty; a fresh
/// store carries the marker 0.
pub open spec fn highest_version(ms: Seq<Migration>) -> u64 {
    if ms.len() == 0 {
        0
    } else {
        ms.last().version
    }
}

/// The store's recorded version exceeds every version the running binary
/// knows: a downgrade hazard the migrator must reject.
pub open spec fn version_skew(ms: Seq<Migration>, store_version: u64) -> bool {
    store_version > highest_version(ms)
}

/// The migrations still to apply to a store whose marker is
/// `store_version`: the suffix that starts at the first version above the
/// marker.
pub open spec fn pending_of(ms: Seq<Migration>, store_version: u64) -> Seq<Migration>
    decreases ms.len(),
{
    if ms.len() == 0 {
        Seq::empty()
    } else if ms[0].version <= store_version {
        pending_of(ms.drop_first(), store_version)
    } else {
        ms
    }
}

/// When every version is at or below the marker, nothing is pending.
pub proof fn lemma_pending_all_applied(ms: Seq<Migration>, store_version: u64)
    requires
        forall|i: int| 0 <= i < ms.len() ==> ms[i].version <= store_version,
    ensures
        pending_of(ms, store_version) =~= Seq::<Migration>::empty(),
    decreases ms.len(),
{
    if ms.len() > 0 {
        assert(forall|i: int|
            0 <= i < ms.drop_first().len() ==> ms.drop_first()[i].version <= store_version);
        lemma_pending_all_applied(ms.drop_first(), store_version);
    }
}

/// The pending migrations are exactly the suffix past the versions already
/// at or below the marker.
pub proof fn lemma_pending_is_suffix(ms: Seq<Migration>, store_version: u64, k: int)
    requires
        0 <= k <= ms.len(),
        forall|i: int| 0 <= i < k ==> ms[i].version <= store_version,
        forall|i: int| k <= i < ms.len() ==> ms[i].version > store_version,
    ensures
        pending_of(ms, store_version) =~= ms.skip(k),
    decreases ms.len(),
{
    if ms.len() == 0 {
    } else if k == 0 {
        assert(ms.skip(0) =~= ms);
    } else {
        assert(forall|i: int|
            0 <= i < ms.drop_first().len() ==> ms.drop_first()[i] == ms[i + 1]);
        lemma_pending_is_suffix(ms.drop_first(), store_version, k - 1);
        assert(ms.drop_first().skip(k - 1) =~= ms.skip(k));
    }
}

/// The store's version marker after a run completes: unchanged when nothing
/// was pending, else the highest supplied version.
pub open spec fn completed_version(ms: Seq<Migration>, store_version: u64) -> u64 {
    if pending_of(ms, store_version).len() == 0 {
        store_version
    } else {
        highest_version(ms)
    }
}

/// Idempotence of the migrator: once a run over `ms` has completed against
/// a store, a second run over the same sequence finds nothing pending, so
/// it applies no statement and leaves the schema as the first run left it.
pub proof fn lemma_migrator_idempotent(ms: Seq<Migration>, store_version: u64)
    requires
        versions_ascending(ms),
        !version_skew(ms, store_version),
    ensures
        pending_of(ms, completed_version(ms, store_version)) =~= Seq::<Migration>::empty(),
{
    if pending_of(ms, store_version).len() == 0 {
        assert(completed_version(ms, store_version) == store_version);
        assert(pending_of(ms, store_version) =~= Seq::<Migration>::empty());
    } else {
        assert(forall|i: int| 0 <= i < ms.len() ==> ms[i].version <= highest_version(ms));
        lemma_pending_all_applied(ms, highest_version(ms));
    }
}

/// Re-running after one new migration was appended: against a store whose
/// marker is the old highest version, the run applies exactly the new
/// migration and none of the earlier ones.
pub proof fn lemma_rerun_applies_only_new(ms: Seq<Migration>, m: Migration)
    requires
        versions_ascending(ms),
        m.version > highest_version(ms),
    ensures
        versions_ascending(ms.push(m)),
        pending_of(ms.push(m), highest_version(ms)) =~= seq![m],
{
    let v0 = highest_version(ms);
    assert(forall|i: int| 0 <= i < ms.len() ==> ms[i].version <= v0);
    let s = ms.push(m);
    assert(forall|i: int| 0 <= i < ms.len() ==> s[i] == ms[i]);
    lemma_pending_is_suffix(s, v0, ms.len() as int);
    assert(s.skip(ms.len() as int) =~= seq![m]);
}

/// One migrator run against one store: holds the supplied sequence, the
/// store's version marker, and how far the run has got.
#[derive(Debug)]
pub struct MigrationRun {
    migrations: Vec<Migration>,
    store_version: u64,
    next: usize,
}

impl MigrationRun {
    /// The run's position splits the sequence at the marker: everything
    /// before it is at or below the marker, everything after is above it.
    pub closed spec fn wf(&self) -> bool {
        &&& versions_ascending(self.migrations@)
        &&& self.next <= self.migrations@.len()
        &&& forall|i: int| 0 <= i < self.next ==> self.migrations@[i].version <= self.store_version
        &&& forall|i: int|
            self.next <= i < self.migrations@.len()
                ==> self.migrations@[i].version > self.store_version
    }

    /// The sequence this run was started with.
    pub closed spec fn migrations(&self) -> Seq<Migration> {
        self.migrations@
    }

    /// The store's version marker as this run has recorded it so far.
    pub closed spec fn recorded_version(&self) -> u64 {
        self.store_version
    }

    /// The migrations this run has still to apply, in order.
    pub closed spec fn pending(&self) -> Seq<Migration> {
        self.migrations@.skip(self.next as int)
    }

    /// Begins a run over `migrations` against a store whose recorded
    /// marker is `store_version`. Fails with the version-skew error, and
    /// touches nothing, when the marker exceeds every supplied version.
    pub fn start(migrations: Vec<Migration>, store_version: u64) -> (r: Result<
        MigrationRun,
        StartupError,
    >)
        requires
            versions_ascending(migrations@),
        ensures
            r is Ok <==> !version_skew(migrations@, store_version),
            r matches Ok(run) ==> {
                &&& run.wf()
                &&& run.migrations() == migrations@
                &&& run.recorded_version() == store_version
                &&& run.pending() =~= pending_of(migrations@, store_version)
            },
            r matches Err(e) ==> e == (StartupError::MigrationVersionSkew {
                store_version,
                highest_known: highest_version(migrations@),
            }),
    {
        let n = migrations.len();
        let highest = if n == 0 {
            0
        } else {
            migrations[n - 1].version
        };
        if store_version > highest {
            return Result::Err(StartupError::MigrationVersionSkew {
                store_version,
                highest_known: highest,
            });
        }
        let mut next: usize = 0;
        while next < n && migrations[next].version <= store_version
            invariant
                next <= n,
                n == migrations@.len(),
                versions_ascending(migrations@),
                forall|i: int| 0 <= i < next ==> migrations@[i].version <= store_version,
            decreases n - next,
        {
            next = next + 1;
        }
        proof {
            assert forall|i: int| next <= i < n implies migrations@[i].version > store_version by {
                if i > next {
                    assert(migrations@[next as int].version < migrations@[i].version);
                }
            }
            lemma_pending_is_suffix(migrations@, store_version, next as int);
        }
        Result::Ok(MigrationRun { migrations, store_version, next })
    }

    /// The next migration to apply, or `None` when the run is complete.
    pub fn next_pending(&self) -> (r: Option<&Migration>)
        requires
            self.wf(),
        ensures
            match r {
                Option::Some(m) => self.pending().len() > 0 && *m == self.pending()[0],
                Option::None => self.pending().len() == 0,
            },
    {
        if self.next < self.migrations.len() {
            Option::Some(&self.migrations[self.next])
        } else {
            Option::None
        }
    }

    /// True once no migration is pending.
    pub fn is_complete(&self) -> (r: bool)
        requires
            self.wf(),
        ensures
            r == (self.pending().len() == 0),
    {
        self.next >= self.migrations.len()
    }

    /// Records that the next pending migration's statement was applied:
    /// its version becomes the store's marker, and only then does the run
    /// move past it.
    pub fn record_applied(&mut self)
        requires
            old(self).wf(),
            old(self).pending().len() > 0,
        ensures
            final(self).wf(),
            final(self).migrations() == old(self).migrations(),
            final(self).recorded_version() == old(self).pending()[0].version,
            final(self).pending() =~= old(self).pending().drop_first(),
    {
        let n = self.migrations.len();
        proof {
            assert(self.next < n);
        }
        self.store_version = self.migrations[self.next].version;
        self.next = self.next + 1;
    }

    /// The fatal error for the run's next pending migration having failed
    /// to apply; the run must not record its version as applied.
    pub fn apply_error(&self) -> (r: StartupError)
        requires
            self.wf(),
            self.pending().len() > 0,
        ensures
            r == (StartupError::MigrationApply { version: self.pending()[0].version }),
    {
        StartupError::MigrationApply { version: self.migrations[self.next].version }
    }

    /// The store's version marker as recorded so far, for the shell to
    /// persist alongside the schema.
    pub fn store_version(&self) -> (r: u64)
        ensures
            r == self.recorded_version(),
    {
        self.store_version
    }
}

/// The application's static migration list: version 1 creates the `tasks`
/// schema.
pub fn initial_migrations() -> (ms: Vec<Migration>)
    ensures
        versions_ascending(ms@),
        ms@.len() == 1,
        ms@[0].version == 1,
        ms@[0].kind is Up,
        ms@[0].description@ == "create_initial_tables"@,
        ms@[0].statement@
            == "CREATE TABLE tasks (id INTEGER PRIMARY KEY, name TEXT, completed BOOLEAN);"@,
{
    let mut ms: Vec<Migration> = Vec::new();
    ms.push(Migration {
        version: 1,
        description: String::from_str("create_initial_tables"),
        statement: String::from_str(
            "CREATE TABLE tasks (id INTEGER PRIMARY KEY, name TEXT, completed BOOLEAN);",
        ),
        kind: MigrationKind::Up,
    });
    ms
}

} // verus!
