//! The version ladder of persisted balance-lab tuning: which migrations a persisted file goes
//! through, from the schema versions it was written with, before it is read as the current
//! schema. Each migration fills what its schema added from the canonical tuning; carrying that
//! out on the JSON document is the caller's work.

use vstd::prelude::*;
use crate::balance_lab::http::SNAPSHOT_SCHEMA_VERSION;

verus! {

/// The schema version of the persisted file this server writes.
pub const PERSISTENCE_SCHEMA_VERSION: u16 = 9;

/// The largest persisted file read.
pub const MAX_PERSISTED_BYTES: u64 = 64 * 1024;

/// One step of the ladder, named by what it fills from the canonical tuning.
#[derive(Clone, Copy, Debug, PartialEq, Eq, Structural)]
pub enum Migration {
    /// File 3 to file 4, snapshot 8: the chest tuning.
    Chest,
    /// Snapshot 8 to 9: the fighters' health recovery and idle attack delay.
    FighterRecovery,
    /// File 5, snapshot 10: the demolition strike ultimate and the Arc Launcher's world effects.
    DemolitionStrike,
    /// File 6, snapshot 11: elemental resistances and the elemental field ultimates.
    ElementalResistances,
    /// File 7, snapshot 12: the fighters' cold capacity.
    ColdCapacity,
    /// File 8, snapshot 13: the condition rules.
    ConditionRules,
    /// The current file and snapshot: the Sticky Blomb weapon and the Big Blob ultimate.
    StickyBlomb,
}

/// The schema versions of a persisted file: the file's own and its snapshot's, each absent when
/// the document does not hold an unsigned integer there.
#[derive(Clone, Copy, Debug, PartialEq, Eq, Structural)]
pub struct PersistedVersions {
    pub file: Option<u64>,
    pub snapshot: Option<u64>,
}

/// One rung: when `from` holds, migration `m` leads to `to`.
pub open spec fn rung(
    v: PersistedVersions,
    steps: Seq<Migration>,
    from: bool,
    m: Migration,
    to: PersistedVersions,
) -> (PersistedVersions, Seq<Migration>) {
    if from {
        (to, steps.push(m))
    } else {
        (v, steps)
    }
}

/// The ladder: the migrations a file with versions `v` goes through, in order, and the
/// versions it ends with. Each rung is tried once, in order.
pub open spec fn ladder(v: PersistedVersions) -> (PersistedVersions, Seq<Migration>) {
    let (v1, s1) = rung(
        v,
        Seq::empty(),
        v.file == Some(3u64),
        Migration::Chest,
        PersistedVersions { file: Some(4), snapshot: Some(8) },
    );
    let (v2, s2) = rung(
        v1,
        s1,
        v1.file == Some(4u64) && v1.snapshot == Some(8u64),
        Migration::FighterRecovery,
        PersistedVersions { file: Some(4), snapshot: Some(9) },
    );
    let (v3, s3) = rung(
        v2,
        s2,
        v2.file == Some(4u64) && v2.snapshot == Some(9u64),
        Migration::DemolitionStrike,
        PersistedVersions { file: Some(5), snapshot: Some(10) },
    );
    let (v4, s4) = rung(
        v3,
        s3,
        v3.file == Some(5u64) && v3.snapshot == Some(10u64),
        Migration::ElementalResistances,
        PersistedVersions { file: Some(6), snapshot: Some(11) },
    );
    let (v5, s5) = rung(
        v4,
        s4,
        v4.file == Some(6u64) && v4.snapshot == Some(11u64),
        Migration::ColdCapacity,
        PersistedVersions { file: Some(7), snapshot: Some(12) },
    );
    let (v6, s6) = rung(
        v5,
        s5,
        v5.file == Some(7u64) && v5.snapshot == Some(12u64),
        Migration::ConditionRules,
        PersistedVersions { file: Some(8), snapshot: Some(13) },
    );
    rung(
        v6,
        s6,
        v6.file == Some(8u64) && v6.snapshot == Some(13u64),
        Migration::StickyBlomb,
        PersistedVersions {
            file: Some(PERSISTENCE_SCHEMA_VERSION as u64),
            snapshot: Some(SNAPSHOT_SCHEMA_VERSION as u64),
        },
    )
}

fn climb(
    v: PersistedVersions,
    steps: &mut Vec<Migration>,
    from: bool,
    m: Migration,
    to: PersistedVersions,
) -> (next: PersistedVersions)
    ensures
        (next, final(steps)@) == rung(v, old(steps)@, from, m, to),
{
    if from {
        steps.push(m);
        to
    } else {
        v
    }
}

/// The migrations a persisted file with versions `versions` goes through, in order, and the
/// versions it then has.
pub fn plan_migrations(versions: PersistedVersions) -> (plan: (PersistedVersions, Vec<Migration>))
    ensures
        (plan.0, plan.1@) == ladder(versions),
{
    let mut steps: Vec<Migration> = Vec::new();
    let v = versions;
    let v = climb(v, &mut steps, v.file == Some(3u64), Migration::Chest, PersistedVersions { file: Some(4), snapshot: Some(8) });
    let v = climb(
        v,
        &mut steps,
        v.file == Some(4u64) && v.snapshot == Some(8u64),
        Migration::FighterRecovery,
        PersistedVersions { file: Some(4), snapshot: Some(9) },
    );
    let v = climb(
        v,
        &mut steps,
        v.file == Some(4u64) && v.snapshot == Some(9u64),
        Migration::DemolitionStrike,
        PersistedVersions { file: Some(5), snapshot: Some(10) },
    );
    let v = climb(
        v,
        &mut steps,
        v.file == Some(5u64) && v.snapshot == Some(10u64),
        Migration::ElementalResistances,
        PersistedVersions { file: Some(6), snapshot: Some(11) },
    );
    let v = climb(
        v,
        &mut steps,
        v.file == Some(6u64) && v.snapshot == Some(11u64),
        Migration::ColdCapacity,
        PersistedVersions { file: Some(7), snapshot: Some(12) },
    );
    let v = climb(
        v,
        &mut steps,
        v.file == Some(7u64) && v.snapshot == Some(12u64),
        Migration::ConditionRules,
        PersistedVersions { file: Some(8), snapshot: Some(13) },
    );
    let v = climb(
        v,
        &mut steps,
        v.file == Some(8u64) && v.snapshot == Some(13u64),
        Migration::StickyBlomb,
        PersistedVersions { file: Some(PERSISTENCE_SCHEMA_VERSION as u64), snapshot: Some(SNAPSHOT_SCHEMA_VERSION as u64) },
    );
    (v, steps)
}

/// Whether a migrated file may be loaded: it has the current file and snapshot schemas and a
/// nonzero revision.
pub fn persisted_file_accepted(file_version: u16, snapshot_version: u16, revision: u64) -> (accepted: bool)
    ensures
        accepted == (file_version == PERSISTENCE_SCHEMA_VERSION && snapshot_version == SNAPSHOT_SCHEMA_VERSION
            && revision != 0),
{
    file_version == PERSISTENCE_SCHEMA_VERSION && snapshot_version == SNAPSHOT_SCHEMA_VERSION && revision != 0
}

/// Whether a persisted file of `length` bytes is small enough to read.
pub fn persisted_length_accepted(length: u64) -> (accepted: bool)
    ensures
        accepted == (length <= MAX_PERSISTED_BYTES),
{
    length <= MAX_PERSISTED_BYTES
}

/// Every file written by an earlier schema on the ladder climbs to the current schema, and a
/// current file needs no migration.
pub proof fn law_ladder_reaches_current_schema(file: u64, snapshot: u64)
    requires
        file == 3 || (file, snapshot) == (4u64, 8u64) || (file, snapshot) == (4u64, 9u64) || (file, snapshot) == (
        5u64,
        10u64,
        ) || (file, snapshot) == (6u64, 11u64) || (file, snapshot) == (7u64, 12u64) || (file, snapshot) == (
        8u64,
        13u64,
        ) || (file, snapshot) == (9u64, 14u64),
    ensures
        ladder(PersistedVersions { file: Some(file), snapshot: Some(snapshot) }).0 == (PersistedVersions {
            file: Some(PERSISTENCE_SCHEMA_VERSION as u64),
            snapshot: Some(SNAPSHOT_SCHEMA_VERSION as u64),
        }),
        (file, snapshot) == (9u64, 14u64) ==> ladder(PersistedVersions { file: Some(file), snapshot: Some(snapshot) }).1
            == Seq::<Migration>::empty(),
{
}


/// Every migration, oldest first.
pub open spec fn every_migration() -> Seq<Migration> {
    seq![
        Migration::Chest,
        Migration::FighterRecovery,
        Migration::DemolitionStrike,
        Migration::ElementalResistances,
        Migration::ColdCapacity,
        Migration::ConditionRules,
        Migration::StickyBlomb,
    ]
}

/// The file and snapshot versions that the `k`-th migration, after the first, upgrades.
pub open spec fn upgraded_by(k: int) -> (u64, u64) {
    if k == 1 {
        (4, 8)
    } else if k == 2 {
        (4, 9)
    } else if k == 3 {
        (5, 10)
    } else if k == 4 {
        (6, 11)
    } else if k == 5 {
        (7, 12)
    } else {
        (8, 13)
    }
}

/// A file written with the versions a migration upgrades goes through exactly that migration
/// and every later one, in order, and ends at the current schema; a file of schema 3 goes through
/// all of them. No migration is applied to a file it does not upgrade.
pub proof fn law_plan_is_the_rest_of_the_ladder(file: u64, snapshot: u64, k: int)
    ensures
        ladder(PersistedVersions { file: Some(3), snapshot: Some(snapshot) }).1 == every_migration(),
        ladder(PersistedVersions { file: Some(3), snapshot: Some(snapshot) }).0 == (PersistedVersions {
            file: Some(PERSISTENCE_SCHEMA_VERSION as u64),
            snapshot: Some(SNAPSHOT_SCHEMA_VERSION as u64),
        }),
        1 <= k < 7 ==> ladder(PersistedVersions { file: Some(upgraded_by(k).0), snapshot: Some(upgraded_by(k).1) }).1
            == every_migration().subrange(k, 7),
        1 <= k < 7 ==> ladder(PersistedVersions { file: Some(upgraded_by(k).0), snapshot: Some(upgraded_by(k).1) }).0
            == (PersistedVersions {
            file: Some(PERSISTENCE_SCHEMA_VERSION as u64),
            snapshot: Some(SNAPSHOT_SCHEMA_VERSION as u64),
        }),
{
    assert(ladder(PersistedVersions { file: Some(3), snapshot: Some(snapshot) }).1 =~= every_migration());
    if 1 <= k < 7 {
        assert(ladder(PersistedVersions { file: Some(upgraded_by(k).0), snapshot: Some(upgraded_by(k).1) }).1
            =~= every_migration().subrange(k, 7));
    }
}

/// Over every pair of versions: the fighter-recovery migration is planned exactly for a file of
/// schema 3 or a file of schema 4 with snapshot 8, and a plan is empty exactly when the file is
/// not on the ladder.
pub proof fn law_migrations_apply_only_to_the_files_they_upgrade(versions: PersistedVersions)
    ensures
        ladder(versions).1.contains(Migration::FighterRecovery) <==> (versions.file == Some(3u64) || (versions.file
            == Some(4u64) && versions.snapshot == Some(8u64))),
        ladder(versions).1.len() == 0 <==> !(versions.file == Some(3u64) || exists|k: int|
            1 <= k < 7 && versions.file == Some(#[trigger] upgraded_by(k).0) && versions.snapshot == Some(upgraded_by(k).1)),
{
    let plan = ladder(versions).1;
    if versions.file == Some(3u64) {
        law_plan_is_the_rest_of_the_ladder(3, versions.snapshot->Some_0, 0);
        assert(plan =~= every_migration()) by {
            if versions.snapshot is None {
                assert(plan =~= every_migration());
            }
        }
        assert(plan[1] == Migration::FighterRecovery);
    } else if exists|k: int|
        1 <= k < 7 && versions.file == Some(#[trigger] upgraded_by(k).0) && versions.snapshot == Some(upgraded_by(k).1) {
        let k = choose|k: int|
            1 <= k < 7 && versions.file == Some(#[trigger] upgraded_by(k).0) && versions.snapshot == Some(upgraded_by(k).1);
        law_plan_is_the_rest_of_the_ladder(0, 0, k);
        assert(plan == every_migration().subrange(k, 7));
        assert(plan.len() > 0);
        if k == 1 {
            assert(plan[0] == Migration::FighterRecovery);
        } else {
            assert forall|i: int| 0 <= i < plan.len() implies plan[i] != Migration::FighterRecovery by {
                assert(plan[i] == every_migration()[k + i]);
            }
        }
    } else {
        assert(forall|k: int| 1 <= k < 7 ==> !(versions.file == Some(#[trigger] upgraded_by(k).0) && versions.snapshot
            == Some(upgraded_by(k).1)));
        assert(upgraded_by(1).0 == 4 && upgraded_by(1).1 == 8);
        assert(!(versions.file == Some(upgraded_by(1).0) && versions.snapshot == Some(upgraded_by(1).1)));
        assert(upgraded_by(2).0 == 4 && upgraded_by(2).1 == 9);
        assert(!(versions.file == Some(upgraded_by(2).0) && versions.snapshot == Some(upgraded_by(2).1)));
        assert(upgraded_by(3).0 == 5 && upgraded_by(3).1 == 10);
        assert(!(versions.file == Some(upgraded_by(3).0) && versions.snapshot == Some(upgraded_by(3).1)));
        assert(upgraded_by(4).0 == 6 && upgraded_by(4).1 == 11);
        assert(!(versions.file == Some(upgraded_by(4).0) && versions.snapshot == Some(upgraded_by(4).1)));
        assert(upgraded_by(5).0 == 7 && upgraded_by(5).1 == 12);
        assert(!(versions.file == Some(upgraded_by(5).0) && versions.snapshot == Some(upgraded_by(5).1)));
        assert(upgraded_by(6).0 == 8 && upgraded_by(6).1 == 13);
        assert(!(versions.file == Some(upgraded_by(6).0) && versions.snapshot == Some(upgraded_by(6).1)));
        assert(plan =~= Seq::<Migration>::empty());
    }
}
} // verus!
