use brawler_server::balance_lab::migration::{
    Migration, PersistedVersions, persisted_file_accepted, persisted_length_accepted, plan_migrations,
};

fn versions(file: u64, snapshot: u64) -> PersistedVersions {
    PersistedVersions { file: Some(file), snapshot: Some(snapshot) }
}

#[test]
fn oldest_persisted_file_climbs_every_rung_in_order() {
    let (end, steps) = plan_migrations(PersistedVersions { file: Some(3), snapshot: Some(2) });
    assert_eq!(end, versions(9, 14));
    assert_eq!(
        steps,
        vec![
            Migration::Chest,
            Migration::FighterRecovery,
            Migration::DemolitionStrike,
            Migration::ElementalResistances,
            Migration::ColdCapacity,
            Migration::ConditionRules,
            Migration::StickyBlomb,
        ]
    );
}

#[test]
fn intermediate_files_climb_only_the_remaining_rungs() {
    let (end, steps) = plan_migrations(versions(7, 12));
    assert_eq!(end, versions(9, 14));
    assert_eq!(steps, vec![Migration::ConditionRules, Migration::StickyBlomb]);
    let (end, steps) = plan_migrations(versions(9, 14));
    assert_eq!(end, versions(9, 14));
    assert!(steps.is_empty());
}

#[test]
fn mismatched_or_unknown_versions_are_left_for_rejection() {
    let (end, steps) = plan_migrations(versions(5, 9));
    assert_eq!(end, versions(5, 9));
    assert!(steps.is_empty());
    let (end, steps) = plan_migrations(PersistedVersions { file: None, snapshot: Some(14) });
    assert_eq!(end, PersistedVersions { file: None, snapshot: Some(14) });
    assert!(steps.is_empty());
    assert!(persisted_file_accepted(9, 14, 1));
    assert!(!persisted_file_accepted(9, 14, 0));
    assert!(!persisted_file_accepted(8, 14, 1));
    assert!(persisted_length_accepted(64 * 1024));
    assert!(!persisted_length_accepted(64 * 1024 + 1));
}
