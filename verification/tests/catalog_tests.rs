use brawler_server::catalog::{AdvertisedRulesSummary, MapAdmissionEntry, ResolvedGameRules};
use brawler_server::ids::{CatalogRevision, MapPresetId};
use brawler_server::lobby::routing::GameMode;
use brawler_server::operator_catalog::{
    CatalogError, CatalogLimits, CatalogResolution, CatalogVerdicts, GameTypeVerdicts, MapPresetFacts, ModeFacts,
    OperatorCatalog, OperatorCommonLifecyclePolicy, OperatorGameType, OperatorHeistPolicy, OperatorModePolicies,
    OperatorWipeoutPolicy, check_catalog_bytes, resolve_operator_catalog, seal_catalog,
};
use brawler_server::wire::GameTypeId;
use sha2::Digest;

fn limits() -> CatalogLimits {
    CatalogLimits { max_game_types: 16, max_maps_per_game_type: 8, lifecycle_team_count: 2 }
}

fn wipeout_entry() -> OperatorGameType {
    OperatorGameType {
        id: "wipeout-2v2".to_string(),
        revision: 3,
        name: "Feature Yard Wipeout 2v2".to_string(),
        mode: "wipeout".to_string(),
        maps: vec!["feature-yard-wipeout".to_string()],
        teams: 2,
        players_per_team: 2,
        kills_to_win: 10,
        capture_seconds: 0,
        safe_health: 0,
        match_duration_seconds: 180,
        countdown_seconds: 3,
        respawn_seconds: 3,
    }
}

fn hot_zone_entry() -> OperatorGameType {
    OperatorGameType {
        id: "hot-zone-1v1".to_string(),
        revision: 2,
        name: "Feature Yard Hot Zone 1v1".to_string(),
        mode: "hot-zone".to_string(),
        maps: vec!["feature-yard-hot-zone".to_string()],
        teams: 2,
        players_per_team: 1,
        kills_to_win: 0,
        capture_seconds: 30,
        safe_health: 0,
        match_duration_seconds: 180,
        countdown_seconds: 3,
        respawn_seconds: 3,
    }
}

fn operator() -> OperatorCatalog {
    OperatorCatalog {
        schema_version: 4,
        server_name: "Local PewPew Blitz".to_string(),
        common_lifecycle: OperatorCommonLifecyclePolicy { spawn_protection_ticks: 90, completed_input_lock_ticks: 60 },
        mode_policies: OperatorModePolicies {
            wipeout: OperatorWipeoutPolicy { recent_hostile_damage_credit_ticks: 300 },
            heist: OperatorHeistPolicy { critical_health_percent: 25 },
        },
        game_types: vec![wipeout_entry(), hot_zone_entry()],
    }
}

fn checks() -> CatalogVerdicts {
    CatalogVerdicts {
        server_name: Ok("Local PewPew Blitz".to_string()),
        dimension_limits: Ok(()),
        lifecycle: Ok(()),
        wipeout_policy: Ok(()),
        heist_policy: Ok(()),
    }
}

fn entry_verdicts(op: &OperatorCatalog) -> Vec<GameTypeVerdicts> {
    op.game_types
        .iter()
        .map(|entry| GameTypeVerdicts { id: Ok(()), name: Ok(entry.name.clone()), timing: Ok(()), objective: Ok(()) })
        .collect()
}

fn modes() -> Vec<ModeFacts> {
    vec![
        ModeFacts { key: "wipeout".to_string(), mode: GameMode::Wipeout, definition_id: 1, accepted_map_modes: vec![1] },
        ModeFacts { key: "hot-zone".to_string(), mode: GameMode::HotZone, definition_id: 2, accepted_map_modes: vec![2] },
        ModeFacts { key: "heist".to_string(), mode: GameMode::Heist, definition_id: 3, accepted_map_modes: vec![3] },
    ]
}

fn preset(key: &str, id: u16, mode: u16) -> MapPresetFacts {
    MapPresetFacts {
        key: key.to_string(),
        id: MapPresetId(id),
        admission_revision: id + 100,
        mode_definition_id: mode,
        within_limits: true,
        resolvable: true,
        team_capacity: 3,
    }
}

fn maps() -> Vec<MapPresetFacts> {
    vec![preset("feature-yard-wipeout", 7, 1), preset("feature-yard-hot-zone", 8, 2)]
}

fn resolve(op: &OperatorCatalog) -> Result<CatalogResolution, CatalogError> {
    resolve_operator_catalog(op, limits(), &checks(), &entry_verdicts(op), &modes(), &maps())
}

fn sha256_revision(bytes: &[u8]) -> CatalogRevision {
    let digest: [u8; 32] = sha2::Sha256::digest(bytes).into();
    let high = u128::from_be_bytes(digest[..16].try_into().unwrap());
    let low = u128::from_be_bytes(digest[16..].try_into().unwrap());
    CatalogRevision(high, low)
}

#[test]
fn operator_catalog_resolves_advertisement_rules_and_map_revisions() {
    let resolution = resolve(&operator()).unwrap();
    assert_eq!(resolution.server_name, "Local PewPew Blitz");
    assert_eq!(resolution.game_types.len(), 2);
    let wipeout = &resolution.game_types[0];
    assert_eq!(wipeout.id, GameTypeId("wipeout-2v2".to_string()));
    assert_eq!(wipeout.configuration_revision, 3);
    assert_eq!(wipeout.mode_definition_id, 1);
    assert_eq!(wipeout.map_preset_ids, vec![MapPresetId(7)]);
    assert_eq!(wipeout.rules_summary, AdvertisedRulesSummary::Wipeout { target_score: 10, active_limit_ticks: 10_800 });
    assert_eq!(
        resolution.game_rules[0].rules,
        ResolvedGameRules {
            objective_target: 10,
            match_duration_ticks: 10_800,
            countdown_ticks: 180,
            respawn_ticks: 180,
            spawn_protection_ticks: 90,
            completed_input_lock_ticks: 60,
            wipeout_recent_hostile_damage_credit_ticks: 300,
            heist_critical_health_percent: 25,
        }
    );
    let hot_zone = &resolution.game_types[1];
    assert_eq!(hot_zone.players_per_team, 1);
    assert_eq!(
        hot_zone.rules_summary,
        AdvertisedRulesSummary::HotZone { target_progress_ticks: 1_800, active_limit_ticks: 10_800 }
    );
    assert_eq!(
        resolution.map_admission_revisions,
        vec![
            MapAdmissionEntry { preset_id: MapPresetId(7), admission_revision: 107 },
            MapAdmissionEntry { preset_id: MapPresetId(8), admission_revision: 108 },
        ]
    );
}

#[test]
fn catalog_bytes_over_sixteen_kibibytes_or_not_utf8_are_refused() {
    assert_eq!(check_catalog_bytes(b"(schema_version: 4)"), Ok(()));
    assert_eq!(check_catalog_bytes(&vec![b' '; 16 * 1024]), Ok(()));
    assert_eq!(check_catalog_bytes(&vec![b' '; 16 * 1024 + 1]), Err(CatalogError::TooLarge));
    assert_eq!(check_catalog_bytes(&[0x28, 0xff, 0x29]), Err(CatalogError::InvalidUtf8));
}

#[test]
fn catalog_rejects_schema_modes_maps_objectives_topology_and_timing() {
    let mut op = operator();
    op.schema_version = 3;
    assert_eq!(resolve(&op).unwrap_err(), CatalogError::UnsupportedSchema);

    let mut op = operator();
    op.game_types[0].mode = "unknown".to_string();
    assert_eq!(resolve(&op).unwrap_err(), CatalogError::UnknownModeOrObjective { game: 0 });

    let mut op = operator();
    op.game_types[0].maps = vec!["missing-map".to_string()];
    assert_eq!(resolve(&op).unwrap_err(), CatalogError::UnknownMap { game: 0, map: 0 });

    let mut op = operator();
    op.game_types[0].players_per_team = 4;
    assert_eq!(resolve(&op).unwrap_err(), CatalogError::UnsupportedTopology { game: 0 });

    let mut op = operator();
    op.game_types[1].kills_to_win = 10;
    assert_eq!(resolve(&op).unwrap_err(), CatalogError::UnknownModeOrObjective { game: 1 });

    let mut op = operator();
    op.game_types[0].countdown_seconds = 0;
    assert_eq!(resolve(&op).unwrap_err(), CatalogError::InvalidTiming { game: 0 });

    let mut op = operator();
    op.game_types[1].capture_seconds = 1_200;
    assert_eq!(resolve(&op).unwrap_err(), CatalogError::CaptureTooLong { game: 1 });

    let mut op = operator();
    op.game_types[0].revision = 0;
    assert_eq!(resolve(&op).unwrap_err(), CatalogError::ZeroRevision { game: 0 });

    let mut op = operator();
    op.game_types[0].maps = vec!["feature-yard-hot-zone".to_string()];
    assert_eq!(resolve(&op).unwrap_err(), CatalogError::MapIncompatibleWithMode { game: 0, map: 0 });

    let op = OperatorCatalog { game_types: Vec::new(), ..operator() };
    assert_eq!(resolve(&op).unwrap_err(), CatalogError::GameTypeCount);
}

#[test]
fn validator_verdicts_refuse_in_resolution_order() {
    let op = operator();
    let mut refused = checks();
    refused.heist_policy = Err("critical health must be below 100".to_string());
    refused.server_name = Err("empty".to_string());
    assert_eq!(
        resolve_operator_catalog(&op, limits(), &refused, &entry_verdicts(&op), &modes(), &maps()).unwrap_err(),
        CatalogError::InvalidServerName("empty".to_string())
    );
    let mut verdicts = entry_verdicts(&op);
    verdicts[1].objective = Err("target".to_string());
    assert_eq!(
        resolve_operator_catalog(&op, limits(), &checks(), &verdicts, &modes(), &maps()).unwrap_err(),
        CatalogError::InvalidObjective { game: 1, reason: "target".to_string() }
    );
}

#[test]
fn catalog_applies_configured_map_dimension_limits_to_advertised_maps() {
    let op = operator();
    let mut outside = maps();
    outside[0].within_limits = false;
    assert_eq!(
        resolve_operator_catalog(&op, limits(), &checks(), &entry_verdicts(&op), &modes(), &outside).unwrap_err(),
        CatalogError::MapOutsideDimensions { game: 0, map: 0 }
    );
}

#[test]
fn catalog_rejects_duplicate_ids_and_maps_as_one_unit() {
    let mut op = operator();
    op.game_types[1].id = "wipeout-2v2".to_string();
    let resolution = resolve(&op).unwrap();
    assert_eq!(seal_catalog(resolution, Ok(()), &vec![1, 2, 3], 100).unwrap_err(), CatalogError::DuplicateGameType);

    let mut op = operator();
    op.game_types[0].maps = vec!["feature-yard-wipeout".to_string(), "feature-yard-wipeout".to_string()];
    assert_eq!(resolve(&op).unwrap_err(), CatalogError::DuplicateMap { game: 0, map: 1 });
}

#[test]
fn sealed_catalog_revision_is_the_digest_of_its_canonical_bytes() {
    let canonical = b"canonical advertisement".to_vec();
    let catalog = seal_catalog(resolve(&operator()).unwrap(), Ok(()), &canonical, 1_000).unwrap();
    assert!(catalog.is_well_formed());
    assert_eq!(catalog.revision, sha256_revision(&canonical));
    let material = postcard::to_allocvec(&(4u16, (90u64, 60u64), ((300u64,), (25u8,)))).unwrap();
    assert_eq!(catalog.policy_revision, sha256_revision(&material));
    assert_eq!(catalog.policy_revision, sha256_revision(&[4, 90, 60, 0xac, 0x02, 25]));
    let known = seal_catalog(resolve(&operator()).unwrap(), Ok(()), &b"abc".to_vec(), 1_000).unwrap();
    assert_eq!(known.revision.0 >> 96, 0xba78_16bf);
    assert_eq!(known.revision.1 & 0xffff_ffff, 0xf200_15ad);
}

#[test]
fn policy_only_changes_resolve_and_change_the_private_policy_revision() {
    let canonical = b"canonical advertisement".to_vec();
    let baseline = seal_catalog(resolve(&operator()).unwrap(), Ok(()), &canonical, 1_000).unwrap();
    let mut op = operator();
    op.common_lifecycle.spawn_protection_ticks = 91;
    op.mode_policies.wipeout.recent_hostile_damage_credit_ticks = 301;
    op.mode_policies.heist.critical_health_percent = 26;
    let changed = seal_catalog(resolve(&op).unwrap(), Ok(()), &canonical, 1_000).unwrap();
    let rules = changed.first_rules_for_mode(1).unwrap();
    assert_eq!(rules.spawn_protection_ticks, 91);
    assert_eq!(rules.wipeout_recent_hostile_damage_credit_ticks, 301);
    assert_eq!(rules.heist_critical_health_percent, 26);
    assert_eq!(changed.revision, baseline.revision);
    assert_ne!(changed.policy_revision, baseline.policy_revision);
}

#[test]
fn sealing_refuses_an_invalid_catalog_or_an_oversized_welcome() {
    let canonical = b"canonical advertisement".to_vec();
    assert_eq!(
        seal_catalog(resolve(&operator()).unwrap(), Err("bad".to_string()), &canonical, 1_000).unwrap_err(),
        CatalogError::InvalidCatalog("bad".to_string())
    );
    assert!(seal_catalog(resolve(&operator()).unwrap(), Ok(()), &canonical, 32 * 1024).is_ok());
    assert_eq!(
        seal_catalog(resolve(&operator()).unwrap(), Ok(()), &canonical, 32 * 1024 + 1).unwrap_err(),
        CatalogError::WelcomeTooLarge
    );
}
