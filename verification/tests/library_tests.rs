use brawler_server::admission::{
    ManifestExpectations, MatchManifest, MatchManifestBot, MatchManifestHeader, MatchManifestParticipant,
    MatchWorkerManifestError, admit_manifest_client, validate_manifest_roster, validate_match_manifest,
};
use brawler_server::balance_lab::editor::{EditorPathSegment, passive_path};
use brawler_server::balance_lab::roster::choice;
use brawler_server::catalog::{
    AdvertisedGameType, AdvertisedRulesSummary, GameRulesEntry, MapAdmissionEntry,
    ResolvedGameRules, ResolvedLobbyCatalog,
};
use brawler_server::ids::{
    AllocationId, BrawlerId, CatalogRevision, LobbySessionId, MapPresetId, MatchId, MatchReservationId, NetcodeClientId,
    NetworkEntityId, PeerId, PlayerId, QueueRequestId, QueueTicketId, RouteId,
};
use brawler_server::lobby::model::{LobbyCompatibility, LobbyHello, LobbyManifest, M01MapPreset, M01Maps, RoutingModes};
use brawler_server::lobby::formation::ProductFormationState;
use brawler_server::lobby::handoff::{
    MatchStartFailure, apply_product_activation, cancel_product_reservation, deliver_product_grants,
    expire_product_reservation, form_product_reservation, release_lost_session,
};
use brawler_server::lobby::routing::{
    ActivationBody, AllocationGrant, AllocationGrantedBody, AllocationRejectedBody, ControlBody, ControlFrame, GameMode,
    LobbyCapacityBody, RouteCapability,
};
use brawler_server::lobby::state::LobbyClient;
use brawler_server::lobby::practice::PracticeStartRequest;
use brawler_server::ids::PracticeRequestId;
use brawler_server::wire::AcceptedBuildSummary;
use brawler_server::lobby::queue_messages::{QueueBatchOutcome, apply_queue_messages, frame_key, stable_order};
use brawler_server::lobby::publication::{FrameVerdict, QueueSnapshotPublication, frame_verdict};
use brawler_server::queue::model::SnapshotPublication;
use brawler_server::lobby::state::{LobbySessionIdSource, LobbyState};
use brawler_server::queue::memory::QueueCommandMemory;
use brawler_server::queue::model::{QueueCommandDisposition, QueueCommandResult};
use brawler_server::queue::state::{QueueState, QueueTicketIdSource, ticket_id_in_namespace, ticket_namespace_from_seed};
use brawler_server::queue::telemetry::{QueueTelemetry, saturate_count};
use brawler_server::session::{LobbyBuildIdentity, LobbySession};
use brawler_server::wire::{
    AdmittedBuild, BuildResolution, BuildSnapshot, GameTypeId, QueueCancelCommand, QueueClientMessage, QueueCommand,
    QueueDecision, QueueJoinCommand, QueueRejection, ResolvedBuild,
};

struct SequentialTicketIds(u128);

impl QueueTicketIdSource for SequentialTicketIds {
    fn next(&mut self) -> Option<QueueTicketId> {
        let id = QueueTicketId::new(self.0)?;
        self.0 = self.0.checked_add(1)?;
        Some(id)
    }
}

fn rules(target: u16) -> ResolvedGameRules {
    ResolvedGameRules {
        objective_target: target,
        match_duration_ticks: 10_800,
        countdown_ticks: 180,
        respawn_ticks: 180,
        spawn_protection_ticks: 90,
        completed_input_lock_ticks: 60,
        wipeout_recent_hostile_damage_credit_ticks: 300,
        heist_critical_health_percent: 25,
    }
}

fn game(id: &str, revision: u32, name: &str, mode: u16, map: u16, players_per_team: u8) -> AdvertisedGameType {
    AdvertisedGameType {
        id: GameTypeId(id.to_string()),
        configuration_revision: revision,
        display_name: name.to_string(),
        mode_definition_id: mode,
        map_preset_ids: vec![MapPresetId(map)],
        team_count: 2,
        players_per_team,
        rules_summary: AdvertisedRulesSummary::Wipeout { target_score: 10, active_limit_ticks: 10_800 },
    }
}

/// The shape of the checked-in development catalog: two 2v2 pools first, then a 3v3 pool.
fn catalog() -> ResolvedLobbyCatalog {
    let game_types = vec![
        game("wipeout-2v2", 3, "Feature Yard Wipeout 2v2", 1, 7, 2),
        game("hot-zone-2v2", 2, "Feature Yard Hot Zone 2v2", 2, 8, 2),
        game("hot-zone-3v3", 5, "Feature Yard Hot Zone 3v3", 2, 11, 3),
        game("wipeout-3v3", 4, "Verdant Crossfire Wipeout 3v3", 1, 10, 3),
        game("hot-zone-1v1", 1, "Feature Yard Hot Zone 1v1", 2, 8, 1),
        game("heist-1v1", 1, "Feature Yard Heist 1v1", 3, 9, 1),
        game("heist-2v2", 1, "Feature Yard Heist 2v2", 3, 9, 2),
        game("heist-3v3", 6, "Feature Yard Heist 3v3", 3, 12, 3),
        game("wipeout-1v1", 1, "Feature Yard Wipeout 1v1", 1, 7, 1),
    ];
    let game_rules = game_types
        .iter()
        .map(|game| GameRulesEntry { game_type_id: game.id.clone(), rules: rules(10) })
        .collect();
    ResolvedLobbyCatalog {
        server_name: "Local PewPew Blitz".to_string(),
        revision: CatalogRevision(0x4fe0_8f5b_69cb_3d54_ac96_0e68_13ac_4a5c, 0x3518_cafb_e144_7672_ab55_c39c_b449_8832),
        game_types,
        policy_revision: CatalogRevision(1, 1),
        game_rules,
        map_admission_revisions: (7..=12).map(|id| MapAdmissionEntry { preset_id: MapPresetId(id), admission_revision: 1 }).collect(),
    }
}

fn session(value: u64) -> LobbySession {
    LobbySession {
        lobby_session_id: LobbySessionId::new(u128::from(value)).unwrap(),
        player_id: PlayerId::new(value).unwrap(),
        network_entity_id: NetworkEntityId(value),
        netcode_client_id: NetcodeClientId::new(value).unwrap(),
        route_id: RouteId::new(u128::from(value)).unwrap(),
        peer_id: PeerId::new(u128::from(value)).unwrap(),
        team: 0,
        build: LobbyBuildIdentity {
            recipe_fingerprint: 1,
            build_revision: 1,
            snapshot: snapshot(1),
        },
    }
}

fn snapshot(preset: u16) -> BuildSnapshot {
    BuildSnapshot {
        brawler_id: BrawlerId::new(u128::from(preset)).unwrap(),
        brawler_revision: 1,
        weapon_base_id: preset,
        ultimate_id: 1,
        passive_ids: [3, 4],
    }
}

fn join(catalog: &ResolvedLobbyCatalog, preset: u16) -> QueueCommand {
    join_pool(catalog, 0, preset)
}

fn join_pool(catalog: &ResolvedLobbyCatalog, pool: usize, preset: u16) -> QueueCommand {
    let game = &catalog.game_types[pool];
    QueueCommand::Join(QueueJoinCommand {
        catalog_revision: catalog.revision,
        game_type_id: game.id.clone(),
        game_type_configuration_revision: game.configuration_revision,
        brawler_id: BrawlerId::new(u128::from(preset)).unwrap(),
        brawler_revision: 1,
    })
}

/// Builds 1 through 4 are the embedded presets that resolve; any other saved brawler has no
/// admitted build.
fn admitted_for(command: &QueueCommand) -> Option<AdmittedBuild> {
    match command {
        QueueCommand::Join(join) => {
            let preset = u16::try_from(join.brawler_id.get()).unwrap_or(0);
            if !(1..=4).contains(&preset) {
                return None;
            }
            Some(AdmittedBuild {
                snapshot: snapshot(preset),
                resolution: BuildResolution::Resolved(ResolvedBuild {
                    recipe_fingerprint: 0xabc0 + u64::from(preset),
                    revision: 1,
                    source_build_preset_id: None,
                    total_points: 10,
                }),
            })
        }
        QueueCommand::Cancel(_) => None,
    }
}

fn submit<S: QueueTicketIdSource>(
    queue: &mut QueueState<S>,
    session: LobbySession,
    request: u64,
    command: QueueCommand,
    now: u64,
) -> QueueCommandResult {
    let admitted = admitted_for(&command);
    queue.command(&session, QueueRequestId::new(request).unwrap(), command, now, admitted)
}

fn cancel(ticket_id: QueueTicketId) -> QueueCommand {
    QueueCommand::Cancel(QueueCancelCommand { ticket_id })
}

fn request(value: u64) -> QueueRequestId {
    QueueRequestId::new(value).unwrap()
}


fn ticket_of(queue: &QueueState<SequentialTicketIds>, player: LobbySession) -> QueueTicketId {
    queue.ticket_for_session(player.lobby_session_id).unwrap().ticket_id
}

#[test]
fn ticket_namespace_mixes_the_seed_halves() {
    assert_eq!(ticket_namespace_from_seed(0), 1);
    assert_eq!(ticket_namespace_from_seed(10), 10);
    assert_eq!(ticket_namespace_from_seed((5u128 << 64) | 3), 6);
    assert_eq!(ticket_namespace_from_seed((7u128 << 64) | 7), 1);
    assert_eq!(ticket_id_in_namespace(10, 1).unwrap().get(), (10u128 << 64) | 1);
    assert_eq!(ticket_id_in_namespace(0, 0), None);
    assert_ne!(ticket_id_in_namespace(10, 1), ticket_id_in_namespace(10, 2));
}

#[test]
fn issued_ticket_identities_follow_admission_order() {
    let catalog = catalog();
    let mut queue = QueueState::with_id_source(&catalog, SequentialTicketIds(10));
    submit(&mut queue, session(1), 1, join(&catalog, 1), 0);
    submit(&mut queue, session(2), 1, join(&catalog, 2), 0);
    assert_eq!(ticket_of(&queue, session(1)).get(), (10u128 << 64) | 1);
    assert_eq!(ticket_of(&queue, session(2)).get(), (10u128 << 64) | 2);
    assert_eq!(queue.next_admission_order(), 3);
}

#[test]
fn revision_moves_only_with_a_changed_snapshot() {
    let catalog = catalog();
    let mut queue = QueueState::with_id_source(&catalog, SequentialTicketIds(10));
    assert_eq!(queue.state_revision(), 1);
    let rejected = submit(&mut queue, session(1), 1, join(&catalog, 9), 0);
    assert!(!rejected.snapshot_changed());
    assert_eq!(queue.state_revision(), 1);
    assert_eq!(queue.ticket_count(), 0);
    let joined = submit(&mut queue, session(2), 1, join(&catalog, 1), 0);
    assert!(joined.snapshot_changed());
    assert_eq!(queue.state_revision(), 2);
    assert_eq!(queue.ticket_count(), 1);
}

#[test]
fn stale_catalog_and_unknown_game_are_rejected_without_change() {
    let catalog = catalog();
    let mut queue = QueueState::with_id_source(&catalog, SequentialTicketIds(10));
    let mut stale = QueueJoinCommand {
        catalog_revision: CatalogRevision(1, 2),
        game_type_id: catalog.game_types[0].id.clone(),
        game_type_configuration_revision: catalog.game_types[0].configuration_revision,
        brawler_id: BrawlerId::new(1).unwrap(),
        brawler_revision: 1,
    };
    submit(&mut queue, session(1), 1, QueueCommand::Join(stale.clone()), 0);
    assert_eq!(
        queue.pending_outcome(session(1).lobby_session_id).unwrap().decision,
        QueueDecision::Rejected(QueueRejection::StaleCatalog)
    );
    queue.acknowledge(session(1).lobby_session_id, request(1));
    stale.catalog_revision = catalog.revision;
    stale.game_type_id = GameTypeId("capture-the-flag".to_string());
    submit(&mut queue, session(1), 2, QueueCommand::Join(stale), 0);
    assert_eq!(
        queue.pending_outcome(session(1).lobby_session_id).unwrap().decision,
        QueueDecision::Rejected(QueueRejection::UnknownGameType)
    );
    assert_eq!(queue.state_revision(), 1);
    assert_eq!(queue.telemetry().game_rejections, 2);
}

#[test]
fn cancelling_another_ticket_is_a_mismatch() {
    let catalog = catalog();
    let mut queue = QueueState::with_id_source(&catalog, SequentialTicketIds(10));
    submit(&mut queue, session(1), 1, join(&catalog, 1), 0);
    queue.acknowledge(session(1).lobby_session_id, request(1));
    let result = submit(&mut queue, session(1), 2, cancel(QueueTicketId::new(99).unwrap()), 0);
    assert!(result.outcome_ready() && !result.snapshot_changed());
    assert_eq!(
        queue.pending_outcome(session(1).lobby_session_id).unwrap().decision,
        QueueDecision::Rejected(QueueRejection::TicketMismatch)
    );
    assert_eq!(queue.ticket_count(), 1);
}

#[test]
fn removing_a_session_removes_exactly_its_ticket() {
    let catalog = catalog();
    let mut queue = QueueState::with_id_source(&catalog, SequentialTicketIds(10));
    submit(&mut queue, session(1), 1, join(&catalog, 1), 0);
    submit(&mut queue, session(2), 1, join(&catalog, 2), 0);
    let kept = ticket_of(&queue, session(2));
    assert!(queue.remove_session(session(1).lobby_session_id));
    assert!(!queue.remove_session(session(1).lobby_session_id));
    assert!(queue.ticket_for_session(session(1).lobby_session_id).is_none());
    assert_eq!(queue.ticket(kept).unwrap().lobby_session_id, session(2).lobby_session_id);
    assert_eq!(queue.state_revision(), 4);
    assert!(queue.indexes_are_valid());
}

#[test]
fn reserved_roster_alternates_teams_and_completes() {
    let catalog = catalog();
    let mut queue = QueueState::with_id_source(&catalog, SequentialTicketIds(1));
    for value in 1..=6 {
        let player = session(value);
        submit(&mut queue, player, 1, join_pool(&catalog, 2, 1), 0);
        queue.acknowledge(player.lobby_session_id, request(1));
    }
    let live: Vec<LobbySessionId> = (1..=6).map(|value| LobbySessionId::new(value).unwrap()).collect();
    let id = MatchReservationId::new(20).unwrap();
    let reservation = queue.reserve_oldest_exact(&catalog, id, &live).unwrap();
    let teams: Vec<u8> = reservation.participants.iter().map(|participant| participant.team).collect();
    assert_eq!(teams, vec![0, 1, 0, 1, 0, 1]);
    assert_eq!(reservation.map_preset_id, MapPresetId(11));
    assert!(queue.reserve_oldest_exact(&catalog, MatchReservationId::new(21).unwrap(), &live).is_none());
    assert!(queue.mark_reservation_handoff_ready(id));
    assert!(!queue.mark_reservation_handoff_ready(id));
    assert_eq!(queue.reservation_count(), 1);
    let tickets = queue.complete_reservation(id);
    assert_eq!(tickets.len(), 6);
    assert_eq!(queue.ticket_count(), 0);
    assert_eq!(queue.reservation_count(), 0);
    assert!(queue.indexes_are_valid());
}

#[test]
fn unacknowledged_tickets_do_not_form_a_roster() {
    let catalog = catalog();
    let mut queue = QueueState::with_id_source(&catalog, SequentialTicketIds(1));
    for value in 1..=2 {
        submit(&mut queue, session(value), 1, join_pool(&catalog, 8, 1), 0);
    }
    let live: Vec<LobbySessionId> = (1..=2).map(|value| LobbySessionId::new(value).unwrap()).collect();
    assert!(queue.reserve_oldest_exact(&catalog, MatchReservationId::new(20).unwrap(), &live).is_none());
}

#[test]
fn catalog_lookups_find_rules_and_map_revisions() {
    let catalog = catalog();
    assert_eq!(catalog.rules(&GameTypeId("heist-2v2".to_string())).unwrap().objective_target, 10);
    assert!(catalog.rules(&GameTypeId("missing".to_string())).is_none());
    assert_eq!(catalog.map_admission_revision(MapPresetId(9)), Some(1));
    assert_eq!(catalog.map_admission_revision(MapPresetId(40)), None);
    assert_eq!(catalog.first_rules_for_mode(3).unwrap().match_duration_ticks, 10_800);
    assert!(catalog.first_rules_for_mode(4).is_none());
}

#[test]
fn telemetry_keeps_high_water_marks_and_saturates() {
    let mut telemetry = QueueTelemetry::default();
    telemetry.observe_counts(5, 2);
    telemetry.observe_counts(3, 4);
    assert_eq!(telemetry.current_tickets, 3);
    assert_eq!(telemetry.high_water_tickets, 5);
    assert_eq!(telemetry.high_water_pending_outcomes, 4);
    assert_eq!(saturate_count(70_000), u16::MAX);
    let mut counter = u64::MAX - 1;
    QueueTelemetry::increment(&mut counter);
    QueueTelemetry::increment(&mut counter);
    assert_eq!(counter, u64::MAX);
}

#[test]
fn command_tokens_refill_by_whole_periods_up_to_capacity() {
    let mut memory = QueueCommandMemory::new(1_000);
    assert_eq!(memory.command_tokens, 4);
    memory.command_tokens = 0;
    memory.refill(999);
    assert_eq!(memory.command_tokens, 0);
    memory.refill(3_500);
    assert_eq!(memory.command_tokens, 2);
    assert_eq!(memory.command_token_refill_at, 3_000);
    memory.refill(60_000);
    assert_eq!(memory.command_tokens, 4);
    memory.rate_limit_notice_until = Some(70_000);
    memory.refill(69_999);
    assert_eq!(memory.rate_limit_notice_until, Some(70_000));
    memory.refill(70_000);
    assert_eq!(memory.rate_limit_notice_until, None);
}

#[test]
fn command_result_accessors_name_the_disposition() {
    let idle = QueueCommandResult::default();
    assert!(!idle.outcome_ready() && !idle.disconnect() && !idle.snapshot_changed());
    let early = QueueCommandResult { disposition: QueueCommandDisposition::EarlyIdenticalRetry, snapshot_changed: false };
    assert!(early.early_identical_retry() && !early.suppressed_identical_retry());
    let suppressed = QueueCommandResult { disposition: QueueCommandDisposition::SuppressedIdenticalRetry, snapshot_changed: false };
    assert!(suppressed.suppressed_identical_retry());
    let abuse = QueueCommandResult { disposition: QueueCommandDisposition::Disconnect, snapshot_changed: false };
    assert!(abuse.disconnect());
}

#[test]
fn identities_refuse_zero() {
    assert!(LobbySessionId::new(0).is_none());
    assert_eq!(PlayerId::new(7).unwrap().get(), 7);
    assert!(QueueTicketId::new(0).is_none());
    assert!(QueueRequestId::new(0).is_none());
}

#[test]
fn passive_paths_and_choices_name_their_fields() {
    let path = passive_path(1, "frost", "slow_ticks");
    assert_eq!(
        path,
        vec![
            EditorPathSegment::Key("passives".to_string()),
            EditorPathSegment::Index(1),
            EditorPathSegment::Key("parameters".to_string()),
            EditorPathSegment::Key("frost".to_string()),
            EditorPathSegment::Key("slow_ticks".to_string()),
        ]
    );
    let view = choice(3, "ember", "Ember");
    assert_eq!(view.id, 3);
    assert_eq!(view.key, "ember");
    assert_eq!(view.display_name, "Ember");
}

struct SequentialSessionIds(u128);

impl LobbySessionIdSource for SequentialSessionIds {
    fn next(&mut self) -> Option<LobbySessionId> {
        let id = LobbySessionId::new(self.0)?;
        self.0 = self.0.checked_add(1)?;
        Some(id)
    }
}

#[test]
fn reserved_queue_roster_becomes_one_product_request() {
    let catalog = catalog();
    let mut lobby = LobbyState::with_id_source(
        LobbyManifest { protocol_registry_fingerprint: 7, content_fingerprint: 8, max_authenticated_sessions: 32 },
        LobbyCompatibility { protocol_version: 3, build_version: "0.1.0".to_string() },
        GameMode::Wipeout,
        LobbyBuildIdentity { recipe_fingerprint: 1, build_revision: 1, snapshot: snapshot(1) },
        M01Maps {
            wipeout: M01MapPreset { preset: 7, admission_revision: Some(1) },
            hot_zone: M01MapPreset { preset: 8, admission_revision: Some(1) },
            heist: M01MapPreset { preset: 9, admission_revision: Some(1) },
        },
        SequentialSessionIds(100),
    );
    let hello = LobbyHello { protocol_version: 3, build_version: "0.1.0".to_string(), registry_fingerprint: 7, content_fingerprint: 8 };
    let mut queue = QueueState::with_id_source(&catalog, SequentialTicketIds(1));
    let mut live = Vec::new();
    for (client, name) in [(11u64, "Ada"), (12u64, "Bo")] {
        let player = lobby
            .accept_client(client, RouteId::new(1).unwrap(), PeerId::new(1).unwrap(), &hello, &vec![Some(name.to_string())])
            .unwrap();
        submit(&mut queue, player, 1, join_pool(&catalog, 8, 1), 0);
        queue.acknowledge(player.lobby_session_id, request(1));
        live.push(player.lobby_session_id);
    }
    let reservation = queue.reserve_oldest_exact(&catalog, MatchReservationId::new(5).unwrap(), &live).unwrap();
    let modes = RoutingModes { wipeout: 1, hot_zone: 2, heist: 3 };
    lobby.create_product_request(&reservation, &queue, &catalog, modes, 4).unwrap();
    let body = lobby.pending_allocate_request().unwrap().unwrap();
    assert_eq!(body.mode, GameMode::Wipeout);
    assert_eq!(body.rules_profile, 4);
    assert_eq!(body.map_preset, 7);
    assert_eq!(body.team_count, 2);
    assert_eq!(body.players_per_team, 1);
    let names: Vec<&str> = body.participants.iter().map(|participant| participant.display_name.as_str()).collect();
    assert_eq!(names, vec!["Ada", "Bo"]);
    assert_eq!(body.participants[1].team, 1);
    assert_eq!(body.lobby_session_id, live[0]);
    assert_eq!(body.participants[0].recipe_fingerprint, 0xabc1);
    let unrouted = RoutingModes { wipeout: 40, hot_zone: 41, heist: 42 };
    let mut other = LobbyState::with_id_source(
        LobbyManifest { protocol_registry_fingerprint: 7, content_fingerprint: 8, max_authenticated_sessions: 32 },
        LobbyCompatibility { protocol_version: 3, build_version: "0.1.0".to_string() },
        GameMode::Wipeout,
        LobbyBuildIdentity { recipe_fingerprint: 1, build_revision: 1, snapshot: snapshot(1) },
        M01Maps {
            wipeout: M01MapPreset { preset: 7, admission_revision: Some(1) },
            hot_zone: M01MapPreset { preset: 8, admission_revision: Some(1) },
            heist: M01MapPreset { preset: 9, admission_revision: Some(1) },
        },
        SequentialSessionIds(100),
    );
    assert!(other.create_product_request(&reservation, &queue, &catalog, unrouted, 4).is_err());
}

fn manifest_participant(client: u64, peer: u128, player: u64) -> MatchManifestParticipant {
    MatchManifestParticipant {
        lobby_session_id: LobbySessionId::new(u128::from(client)).unwrap(),
        player_id: PlayerId::new(player).unwrap(),
        netcode_client_id: NetcodeClientId::new(client).unwrap(),
        peer_id: PeerId::new(peer).unwrap(),
        team: 0,
        display_name: "Ada".to_string(),
        recipe_fingerprint: 1,
        revision: 1,
        build_snapshot: snapshot(1),
    }
}

#[test]
fn manifest_admission_finds_the_listed_client_once() {
    let manifest = MatchManifest {
        participants: vec![manifest_participant(11, 21, 1), manifest_participant(12, 22, 2), manifest_participant(13, 23, 3)],
        bots: Vec::new(),
    };
    let peer = PeerId::new(22).unwrap();
    assert_eq!(admit_manifest_client(&manifest, 12, Some(peer), &Vec::new()).unwrap().player_id.get(), 2);
    assert_eq!(
        admit_manifest_client(&manifest, 12, Some(PeerId::new(23).unwrap()), &Vec::new()),
        Err(MatchWorkerManifestError::UnlistedClient)
    );
    assert_eq!(admit_manifest_client(&manifest, 12, None, &Vec::new()), Err(MatchWorkerManifestError::UnlistedClient));
    assert_eq!(
        admit_manifest_client(&manifest, 12, Some(peer), &vec![12]),
        Err(MatchWorkerManifestError::DuplicateClient)
    );
    let doubled = MatchManifest {
        participants: vec![manifest_participant(12, 22, 2), manifest_participant(12, 22, 5)],
        bots: Vec::new(),
    };
    assert_eq!(admit_manifest_client(&doubled, 12, Some(peer), &Vec::new()), Err(MatchWorkerManifestError::DuplicateClient));
}

fn seated(client: u64, player: u64, team: u8) -> MatchManifestParticipant {
    let mut participant = manifest_participant(client, u128::from(client), player);
    participant.team = team;
    participant
}

fn bot(player: u64, team: u8) -> MatchManifestBot {
    MatchManifestBot {
        player_id: PlayerId::new(player).unwrap(),
        team,
        display_name: "Bot".to_string(),
        recipe_fingerprint: 1,
        revision: 1,
        build_snapshot: snapshot(2),
    }
}

fn four_player_manifest() -> MatchManifest {
    MatchManifest {
        participants: vec![seated(8, 7, 0), seated(11, 10, 1), seated(14, 13, 0), seated(17, 16, 1)],
        bots: Vec::new(),
    }
}

fn all_canonical(manifest: &MatchManifest) -> Vec<bool> {
    vec![true; manifest.participants.len() + manifest.bots.len()]
}

fn worker_expectations() -> ManifestExpectations {
    ManifestExpectations { network_protocol: 0x4252_4157, mode: GameMode::Wipeout, rules_profile: 1, max_clients: 8 }
}

fn worker_header() -> MatchManifestHeader {
    MatchManifestHeader { network_protocol: 0x4252_4157, process_id: 2, mode: GameMode::Wipeout, rules_profile: 1 }
}

fn validate(value: &MatchManifest) -> Result<(), MatchWorkerManifestError> {
    validate_match_manifest(worker_expectations(), worker_header(), value, Ok(()), true, Ok(()), &all_canonical(value), Ok(()))
}

#[test]
fn manifest_validation_rejects_duplicate_players_clients_and_bad_identity() {
    let mut value = four_player_manifest();
    assert!(validate(&value).is_ok());
    value.participants.push(value.participants[0].clone());
    assert_eq!(validate(&value), Err(MatchWorkerManifestError::DuplicatePlayer));
    value.participants.pop();
    let admitted = vec![8];
    assert_eq!(
        admit_manifest_client(&value, 8, Some(value.participants[0].peer_id), &admitted),
        Err(MatchWorkerManifestError::DuplicateClient)
    );
    assert_eq!(
        admit_manifest_client(&value, 99, Some(value.participants[0].peer_id), &Vec::new()),
        Err(MatchWorkerManifestError::UnlistedClient)
    );
    assert_eq!(
        admit_manifest_client(&value, 8, PeerId::new(99), &Vec::new()),
        Err(MatchWorkerManifestError::UnlistedClient)
    );
}

#[test]
fn roster_capacity_is_checked_before_any_seat() {
    let mut value = four_player_manifest();
    value.participants[0].team = 5;
    assert_eq!(
        validate_manifest_roster(&value, &all_canonical(&value), 3),
        Err(MatchWorkerManifestError::ParticipantCapacity)
    );
    assert_eq!(
        validate_manifest_roster(&value, &all_canonical(&value), 4),
        Err(MatchWorkerManifestError::InvalidTeam)
    );
}

#[test]
fn roster_seat_faults_come_in_seat_order() {
    let mut value = four_player_manifest();
    value.participants[3].player_id = PlayerId::new(7).unwrap();
    value.participants[2].team = 2;
    assert_eq!(
        validate_manifest_roster(&value, &all_canonical(&value), 8),
        Err(MatchWorkerManifestError::InvalidTeam)
    );
    value.participants[2].team = 0;
    assert_eq!(
        validate_manifest_roster(&value, &all_canonical(&value), 8),
        Err(MatchWorkerManifestError::DuplicatePlayer)
    );
    let mut names = all_canonical(&value);
    names[3] = false;
    assert_eq!(
        validate_manifest_roster(&value, &names, 8),
        Err(MatchWorkerManifestError::InvalidDisplayName)
    );
}

#[test]
fn roster_refuses_a_client_seated_twice() {
    let mut value = four_player_manifest();
    value.participants[3].netcode_client_id = NetcodeClientId::new(8).unwrap();
    assert_eq!(
        validate_manifest_roster(&value, &all_canonical(&value), 8),
        Err(MatchWorkerManifestError::DuplicateClient)
    );
}

#[test]
fn roster_bots_share_the_player_space_and_the_teams() {
    let value = MatchManifest { participants: vec![seated(8, 7, 0)], bots: vec![bot(9, 1)] };
    assert_eq!(validate_manifest_roster(&value, &all_canonical(&value), 8), Ok(()));
    let clash = MatchManifest { participants: vec![seated(8, 7, 0)], bots: vec![bot(7, 1)] };
    assert_eq!(
        validate_manifest_roster(&clash, &all_canonical(&clash), 8),
        Err(MatchWorkerManifestError::DuplicatePlayer)
    );
    let bad_team = MatchManifest { participants: vec![seated(8, 7, 0)], bots: vec![bot(9, 3)] };
    assert_eq!(
        validate_manifest_roster(&bad_team, &all_canonical(&bad_team), 8),
        Err(MatchWorkerManifestError::InvalidTeam)
    );
    let mut names = all_canonical(&value);
    names[1] = false;
    assert_eq!(
        validate_manifest_roster(&value, &names, 8),
        Err(MatchWorkerManifestError::InvalidDisplayName)
    );
}

#[test]
fn roster_teams_must_be_equal_and_one_to_three() {
    let uneven = MatchManifest {
        participants: vec![seated(8, 7, 0), seated(11, 10, 1), seated(14, 13, 0)],
        bots: Vec::new(),
    };
    assert_eq!(
        validate_manifest_roster(&uneven, &all_canonical(&uneven), 8),
        Err(MatchWorkerManifestError::ParticipantCapacity)
    );
    let empty = MatchManifest { participants: Vec::new(), bots: Vec::new() };
    assert_eq!(
        validate_manifest_roster(&empty, &Vec::new(), 8),
        Err(MatchWorkerManifestError::ParticipantCapacity)
    );
    let three_each = MatchManifest {
        participants: vec![seated(8, 7, 0), seated(11, 10, 1), seated(14, 13, 0), seated(17, 16, 1)],
        bots: vec![bot(20, 0), bot(21, 1)],
    };
    assert_eq!(validate_manifest_roster(&three_each, &all_canonical(&three_each), 8), Ok(()));
    let four_each = MatchManifest {
        participants: vec![seated(8, 7, 0), seated(11, 10, 1), seated(14, 13, 0), seated(17, 16, 1)],
        bots: vec![bot(20, 0), bot(21, 1), bot(22, 0), bot(23, 1)],
    };
    assert_eq!(
        validate_manifest_roster(&four_each, &all_canonical(&four_each), 8),
        Err(MatchWorkerManifestError::ParticipantCapacity)
    );
}

fn handoff_lobby(free_match_slots: u8) -> LobbyState<SequentialSessionIds> {
    let mut lobby = LobbyState::with_id_source(
        LobbyManifest { protocol_registry_fingerprint: 7, content_fingerprint: 8, max_authenticated_sessions: 32 },
        LobbyCompatibility { protocol_version: 3, build_version: "0.1.0".to_string() },
        GameMode::Wipeout,
        LobbyBuildIdentity { recipe_fingerprint: 1, build_revision: 1, snapshot: snapshot(1) },
        M01Maps {
            wipeout: M01MapPreset { preset: 7, admission_revision: Some(1) },
            hot_zone: M01MapPreset { preset: 8, admission_revision: Some(1) },
            heist: M01MapPreset { preset: 9, admission_revision: Some(1) },
        },
        SequentialSessionIds(100),
    );
    lobby
        .apply_control_frame(ControlFrame { body: ControlBody::LobbyCapacity(LobbyCapacityBody { free_match_slots }) })
        .unwrap();
    lobby
}

fn queued_pair(
    lobby: &mut LobbyState<SequentialSessionIds>,
    catalog: &ResolvedLobbyCatalog,
) -> (QueueState<SequentialTicketIds>, Vec<LobbySessionId>) {
    let hello = LobbyHello { protocol_version: 3, build_version: "0.1.0".to_string(), registry_fingerprint: 7, content_fingerprint: 8 };
    let mut queue = QueueState::with_id_source(catalog, SequentialTicketIds(1));
    let mut live = Vec::new();
    for (client, name) in [(11u64, "Ada"), (12u64, "Bo")] {
        let player = lobby
            .accept_client(client, RouteId::new(1).unwrap(), PeerId::new(1).unwrap(), &hello, &vec![Some(name.to_string())])
            .unwrap();
        submit(&mut queue, player, 1, join_pool(catalog, 8, 1), 0);
        queue.acknowledge(player.lobby_session_id, request(1));
        live.push(player.lobby_session_id);
    }
    (queue, live)
}

#[test]
fn handoff_forms_one_match_and_times_it_out() {
    let catalog = catalog();
    let modes = RoutingModes { wipeout: 1, hot_zone: 2, heist: 3 };
    let mut lobby = handoff_lobby(1);
    let (mut queue, live) = queued_pair(&mut lobby, &catalog);
    let mut formation = ProductFormationState::new();

    let formed = form_product_reservation(&mut lobby, &mut queue, &catalog, &mut formation, Some(5), &live, modes, 4, 1_000)
        .unwrap();
    assert_eq!(formed.reservation_id, MatchReservationId::new(5).unwrap());
    assert_eq!(formed.participants.len(), 2);
    assert_eq!(formation.active, Some(MatchReservationId::new(5).unwrap()));
    assert_eq!(formation.loading_deadline_millis, Some(31_000));
    assert_eq!(formation.grant_deadline_millis, Some(11_000));
    assert_eq!(queue.reservation_count(), 1);
    assert_eq!(lobby.unsent_existing_request().unwrap().participants.len(), 2);
    assert!(form_product_reservation(&mut lobby, &mut queue, &catalog, &mut formation, Some(6), &live, modes, 4, 1_000).is_none());

    assert!(expire_product_reservation(&mut lobby, &mut queue, &mut formation, 10_999).is_none());
    assert!(formation.active.is_some());
    let expiry = expire_product_reservation(&mut lobby, &mut queue, &mut formation, 11_000).unwrap();
    assert_eq!(expiry.reservation_id, MatchReservationId::new(5).unwrap());
    assert_eq!(expiry.reason, MatchStartFailure::TimedOut);
    assert_eq!(expiry.practice_session, None);
    let released: Vec<LobbySessionId> = expiry.removed.iter().map(|ticket| ticket.lobby_session_id).collect();
    assert_eq!(released, live);
    assert!(expiry.cancelled.is_none());
    assert!(formation.active.is_none());
    assert_eq!(queue.reservation_count(), 0);
    assert!(queue.ticket_for_session(live[0]).is_none());
    assert!(lobby.unsent_existing_request().is_none());
    assert!(expire_product_reservation(&mut lobby, &mut queue, &mut formation, 99_000).is_none());
}

#[test]
fn handoff_abandons_a_refused_match_at_once() {
    let catalog = catalog();
    let modes = RoutingModes { wipeout: 1, hot_zone: 2, heist: 3 };
    let mut lobby = handoff_lobby(1);
    let (mut queue, live) = queued_pair(&mut lobby, &catalog);
    let mut formation = ProductFormationState::new();
    form_product_reservation(&mut lobby, &mut queue, &catalog, &mut formation, Some(5), &live, modes, 4, 1_000).unwrap();
    let request_id = lobby.unsent_existing_request().unwrap().request_id;
    lobby.apply_allocation_rejected(AllocationRejectedBody { request_id, reason: 1, retry_after_ms: 10 }).unwrap();
    let expiry = expire_product_reservation(&mut lobby, &mut queue, &mut formation, 1_001).unwrap();
    assert_eq!(expiry.reason, MatchStartFailure::WorkerFailed);
    assert_eq!(expiry.removed.len(), 2);
    assert!(!lobby.take_allocation_rejected());
}

#[test]
fn handoff_waits_for_capacity_an_identity_and_a_roster() {
    let catalog = catalog();
    let modes = RoutingModes { wipeout: 1, hot_zone: 2, heist: 3 };
    let mut full = handoff_lobby(0);
    let (mut queue, live) = queued_pair(&mut full, &catalog);
    let mut formation = ProductFormationState::new();
    assert!(form_product_reservation(&mut full, &mut queue, &catalog, &mut formation, Some(5), &live, modes, 4, 0).is_none());
    assert_eq!(queue.reservation_count(), 0);

    let mut lobby = handoff_lobby(1);
    let (mut queue, live) = queued_pair(&mut lobby, &catalog);
    assert!(form_product_reservation(&mut lobby, &mut queue, &catalog, &mut formation, None, &live, modes, 4, 0).is_none());
    assert!(form_product_reservation(&mut lobby, &mut queue, &catalog, &mut formation, Some(0), &live, modes, 4, 0).is_none());
    assert!(form_product_reservation(&mut lobby, &mut queue, &catalog, &mut formation, Some(5), &live[..1].to_vec(), modes, 4, 0)
        .is_none());
    assert_eq!(queue.reservation_count(), 0);
    assert!(formation.active.is_none());

    let unrouted = RoutingModes { wipeout: 40, hot_zone: 41, heist: 42 };
    assert!(form_product_reservation(&mut lobby, &mut queue, &catalog, &mut formation, Some(5), &live, unrouted, 4, 0).is_none());
    assert_eq!(queue.reservation_count(), 0);
    assert!(queue.ticket_for_session(live[0]).is_none());
    assert!(formation.active.is_none());
}

#[test]
fn handoff_begins_once_every_grant_is_pending() {
    let catalog = catalog();
    let modes = RoutingModes { wipeout: 1, hot_zone: 2, heist: 3 };
    let mut lobby = handoff_lobby(1);
    let (mut queue, live) = queued_pair(&mut lobby, &catalog);
    let mut formation = ProductFormationState::new();
    form_product_reservation(&mut lobby, &mut queue, &catalog, &mut formation, Some(5), &live, modes, 4, 0).unwrap();
    let clients: Vec<LobbyClient> = [(11u64, live[0]), (12u64, live[1])]
        .iter()
        .map(|&(client, session)| LobbyClient { client_id: NetcodeClientId::new(client).unwrap(), lobby_session_id: session })
        .collect();
    assert!(deliver_product_grants(&mut lobby, &mut queue, &mut formation, &clients).is_empty());
    assert!(formation.pending_grants.is_empty());

    let request_id = lobby.unsent_existing_request().unwrap().request_id;
    lobby.mark_allocate_request_queued();
    let grants = live
        .iter()
        .enumerate()
        .map(|(index, &session)| AllocationGrant {
            lobby_session_id: session,
            route_id: RouteId::new(30 + index as u128).unwrap(),
            peer_id: PeerId::new(40 + index as u128).unwrap(),
            capability: Some(RouteCapability([index as u8 + 1; 32])),
            activation_expiry_unix_ms: 100,
            route_expiry_unix_ms: 200,
        })
        .collect();
    lobby
        .apply_allocation_granted(AllocationGrantedBody {
            request_id,
            allocation_id: AllocationId::new(5).unwrap(),
            match_id: MatchId::new(6).unwrap(),
            grants,
        })
        .unwrap();

    let only_first = vec![clients[0]];
    assert!(deliver_product_grants(&mut lobby, &mut queue, &mut formation, &only_first).is_empty());
    assert_eq!(formation.pending_grants.len(), 1);
    assert!(!queue.reservation(MatchReservationId::new(5).unwrap()).unwrap().handoff_ready);

    let notices = deliver_product_grants(&mut lobby, &mut queue, &mut formation, &clients);
    assert_eq!(notices.len(), 2);
    assert_eq!(notices[0].session_id, live[0]);
    assert_eq!(notices[1].session_id, live[1]);
    assert_eq!((notices[0].sequence, notices[1].sequence), (1, 1));
    assert_eq!(notices[0].grant.route_id, RouteId::new(30).unwrap());
    assert_eq!(notices[1].grant.peer_id, PeerId::new(41).unwrap());
    assert!(queue.reservation(MatchReservationId::new(5).unwrap()).unwrap().handoff_ready);
    assert_eq!(formation.begin_sent, live);
    assert!(lobby.take_route_grant(11).is_none());

    assert!(deliver_product_grants(&mut lobby, &mut queue, &mut formation, &clients).is_empty());
}

#[test]
fn losing_a_reserved_player_releases_the_whole_roster() {
    let catalog = catalog();
    let modes = RoutingModes { wipeout: 1, hot_zone: 2, heist: 3 };
    let mut lobby = handoff_lobby(1);
    let (mut queue, live) = queued_pair(&mut lobby, &catalog);
    let mut formation = ProductFormationState::new();
    form_product_reservation(&mut lobby, &mut queue, &catalog, &mut formation, Some(5), &live, modes, 4, 0).unwrap();
    assert_eq!(lobby.session_count(), 2);

    let loss = release_lost_session(&mut lobby, &mut queue, &mut formation, live[0], 11);
    assert_eq!(loss.released, Some(MatchReservationId::new(5).unwrap()));
    let released: Vec<LobbySessionId> = loss.removed.iter().map(|ticket| ticket.lobby_session_id).collect();
    assert_eq!(released, live);
    assert!(loss.practice_cancel.is_none());
    assert!(loss.reservation_cancel.is_none());
    assert!(loss.snapshot_changed);
    assert_eq!(loss.detached.unwrap().lobby_session_id, live[0]);
    assert!(formation.active.is_none());
    assert_eq!(queue.reservation_count(), 0);
    assert!(queue.ticket_for_session(live[1]).is_none());
    assert!(lobby.unsent_existing_request().is_none());
    assert_eq!(lobby.session_count(), 1);

    let again = release_lost_session(&mut lobby, &mut queue, &mut formation, live[0], 11);
    assert!(again.released.is_none());
    assert!(!again.snapshot_changed);
    assert!(again.detached.is_none());
    assert_eq!(MatchStartFailure::ParticipantLost, MatchStartFailure::ParticipantLost);
}

#[test]
fn a_frame_of_queue_messages_applies_in_order() {
    let catalog = catalog();
    let mut lobby = handoff_lobby(1);
    let hello = LobbyHello { protocol_version: 3, build_version: "0.1.0".to_string(), registry_fingerprint: 7, content_fingerprint: 8 };
    let ada = lobby
        .accept_client(11, RouteId::new(1).unwrap(), PeerId::new(1).unwrap(), &hello, &vec![Some("Ada".to_string())])
        .unwrap();
    let mut queue = QueueState::with_id_source(&catalog, SequentialTicketIds(1));
    let join = join_pool(&catalog, 8, 1);
    let messages = vec![QueueClientMessage::Command { request_id: request(1), command: join.clone() }];
    let admitted = vec![admitted_for(&join)];
    let outcome = apply_queue_messages(&mut lobby, &mut queue, ada.lobby_session_id, &messages, &admitted, 0);
    assert_eq!(outcome, QueueBatchOutcome { applied: true, outcome_ready: true, snapshot_changed: true, disconnected: false });
    assert!(queue.ticket_for_session(ada.lobby_session_id).is_some());

    let ack = vec![QueueClientMessage::OutcomeAck { request_id: request(1) }];
    let outcome = apply_queue_messages(&mut lobby, &mut queue, ada.lobby_session_id, &ack, &vec![None], 5);
    assert_eq!(outcome, QueueBatchOutcome { applied: true, outcome_ready: false, snapshot_changed: false, disconnected: false });

    let unknown = apply_queue_messages(&mut lobby, &mut queue, LobbySessionId::new(999).unwrap(), &ack, &vec![None], 5);
    assert_eq!(unknown, QueueBatchOutcome { applied: false, outcome_ready: false, snapshot_changed: false, disconnected: false });
}

#[test]
fn a_protocol_break_ends_the_frame_and_removes_the_client() {
    let catalog = catalog();
    let mut lobby = handoff_lobby(1);
    let hello = LobbyHello { protocol_version: 3, build_version: "0.1.0".to_string(), registry_fingerprint: 7, content_fingerprint: 8 };
    let bo = lobby
        .accept_client(12, RouteId::new(1).unwrap(), PeerId::new(1).unwrap(), &hello, &vec![Some("Bo".to_string())])
        .unwrap();
    let mut queue = QueueState::with_id_source(&catalog, SequentialTicketIds(1));
    let join = join_pool(&catalog, 8, 1);
    let messages = vec![
        QueueClientMessage::OutcomeAck { request_id: request(7) },
        QueueClientMessage::Command { request_id: request(1), command: join.clone() },
    ];
    let admitted = vec![None, admitted_for(&join)];
    let outcome = apply_queue_messages(&mut lobby, &mut queue, bo.lobby_session_id, &messages, &admitted, 0);
    assert!(outcome.applied);
    assert!(outcome.disconnected);
    assert!(!outcome.outcome_ready);
    assert!(queue.ticket_for_session(bo.lobby_session_id).is_none());
    assert!(lobby.session_for_client(12).is_none());
}

#[test]
fn queue_frames_are_ordered_by_player_then_first_request() {
    assert_eq!(stable_order(&vec![(5, 1), (2, 9), (5, 0), (2, 9), (u64::MAX, u64::MAX)]), vec![1, 3, 2, 0, 4]);
    assert_eq!(stable_order(&Vec::new()), Vec::<usize>::new());
    assert_eq!(stable_order(&vec![(1, 1), (1, 1), (1, 1)]), vec![0, 1, 2]);

    let mut lobby = handoff_lobby(1);
    let hello = LobbyHello { protocol_version: 3, build_version: "0.1.0".to_string(), registry_fingerprint: 7, content_fingerprint: 8 };
    let ada = lobby
        .accept_client(11, RouteId::new(1).unwrap(), PeerId::new(1).unwrap(), &hello, &vec![Some("Ada".to_string())])
        .unwrap();
    assert_eq!(frame_key(&lobby, ada.lobby_session_id, Some(4)), (ada.player_id.get(), 4));
    assert_eq!(frame_key(&lobby, ada.lobby_session_id, None), (ada.player_id.get(), u64::MAX));
    assert_eq!(frame_key(&lobby, LobbySessionId::new(999).unwrap(), Some(4)), (u64::MAX, u64::MAX));
}

#[test]
fn a_player_cancel_releases_the_forming_match() {
    let catalog = catalog();
    let modes = RoutingModes { wipeout: 1, hot_zone: 2, heist: 3 };
    let mut lobby = handoff_lobby(1);
    let (mut queue, live) = queued_pair(&mut lobby, &catalog);
    let mut formation = ProductFormationState::new();
    form_product_reservation(&mut lobby, &mut queue, &catalog, &mut formation, Some(5), &live, modes, 4, 0).unwrap();
    let id = MatchReservationId::new(5).unwrap();
    let other = MatchReservationId::new(6).unwrap();
    assert!(cancel_product_reservation(&mut lobby, &mut queue, &mut formation, &vec![(other, 1), (id, 2)]).is_none());
    assert_eq!(formation.active, Some(id));
    let cancel = cancel_product_reservation(&mut lobby, &mut queue, &mut formation, &vec![(other, 1), (id, 1)]).unwrap();
    assert_eq!(cancel.reservation_id, id);
    assert_eq!(cancel.practice_session, None);
    assert_eq!(cancel.removed.len(), 2);
    assert!(cancel.cancelled.is_none());
    assert!(formation.active.is_none());
    assert_eq!(queue.reservation_count(), 0);
    assert!(lobby.unsent_existing_request().is_none());
    assert!(cancel_product_reservation(&mut lobby, &mut queue, &mut formation, &vec![(id, 1)]).is_none());
    assert_ne!(MatchStartFailure::Cancelled, MatchStartFailure::TimedOut);
}

#[test]
fn snapshot_publication_follows_changes_admissions_and_the_refresh_cadence() {
    let catalog = catalog();
    let mut queue = QueueState::with_id_source(&catalog, SequentialTicketIds(1));
    let mut publication = QueueSnapshotPublication::new();
    assert!(publication.publish(&mut queue, false, 500, true).is_none());
    let (kind, snapshot) = publication.publish(&mut queue, false, 1_000, true).unwrap();
    assert_eq!(kind, SnapshotPublication::Refresh);
    assert_eq!(snapshot.catalog_revision, catalog.revision);
    assert_eq!(publication.last_refresh_millis, 1_000);
    assert!(publication.publish(&mut queue, false, 1_999, true).is_none());
    assert!(publication.publish(&mut queue, false, 5_000, false).is_none());

    let (kind, _) = publication.publish(&mut queue, true, 1_200, false).unwrap();
    assert_eq!(kind, SnapshotPublication::Mutation);
    assert!(!publication.mutation_pending);

    publication.initial_pending = true;
    let (kind, _) = publication.publish(&mut queue, false, 1_300, false).unwrap();
    assert_eq!(kind, SnapshotPublication::Initial);
    assert!(!publication.initial_pending);

    publication.initial_pending = true;
    publication.mutation_pending = true;
    let (kind, _) = publication.publish(&mut queue, false, 1_400, false).unwrap();
    assert_eq!(kind, SnapshotPublication::Mutation);
    assert!(!publication.initial_pending);
    assert_eq!(queue.telemetry().mutation_snapshot_publications, 2);
    assert_eq!(queue.telemetry().initial_snapshot_publications, 1);
    assert_eq!(queue.telemetry().refresh_snapshot_publications, 1);
}

#[test]
fn queue_frames_are_screened_before_they_apply() {
    assert_eq!(frame_verdict(0, false, true, false), FrameVerdict::Empty);
    assert_eq!(frame_verdict(1, false, false, true), FrameVerdict::Unauthenticated);
    assert_eq!(frame_verdict(2, true, true, true), FrameVerdict::Lost);
    assert_eq!(frame_verdict(2, true, false, false), FrameVerdict::Abusive);
    assert_eq!(frame_verdict(5, true, false, true), FrameVerdict::Abusive);
    assert_eq!(frame_verdict(4, true, false, true), FrameVerdict::Collect);
    assert_eq!(frame_verdict(1, true, false, true), FrameVerdict::Collect);
}

#[test]
fn manifest_checks_come_in_order() {
    let value = four_player_manifest();
    let names = all_canonical(&value);
    let expected = worker_expectations();
    let header = worker_header();
    let check = |header: MatchManifestHeader,
                 configuration: Result<(), String>,
                 well_formed: bool,
                 map: Result<(), MatchWorkerManifestError>,
                 build_rows: Result<(), MatchWorkerManifestError>| {
        validate_match_manifest(expected, header, &value, configuration, well_formed, map, &names, build_rows)
    };
    assert_eq!(
        check(header, Err("bad listen address".to_string()), false, Ok(()), Ok(())),
        Err(MatchWorkerManifestError::Configuration("bad listen address".to_string()))
    );
    assert_eq!(check(header, Ok(()), false, Ok(()), Ok(())), Err(MatchWorkerManifestError::InvalidManifest));
    let other_protocol = MatchManifestHeader { network_protocol: 1, process_id: 0, ..header };
    assert_eq!(check(other_protocol, Ok(()), true, Ok(()), Ok(())), Err(MatchWorkerManifestError::NetworkProtocolMismatch));
    let no_process = MatchManifestHeader { process_id: 0, mode: GameMode::Heist, ..header };
    assert_eq!(check(no_process, Ok(()), true, Ok(()), Ok(())), Err(MatchWorkerManifestError::InvalidManifest));
    let other_mode = MatchManifestHeader { mode: GameMode::Heist, rules_profile: 9, ..header };
    assert_eq!(
        check(other_mode, Ok(()), true, Err(MatchWorkerManifestError::MapPresetMismatch), Ok(())),
        Err(MatchWorkerManifestError::ModeMismatch)
    );
    let other_rules = MatchManifestHeader { rules_profile: 9, ..header };
    assert_eq!(
        check(other_rules, Ok(()), true, Err(MatchWorkerManifestError::MapRevisionMismatch), Ok(())),
        Err(MatchWorkerManifestError::MapRevisionMismatch)
    );
    assert_eq!(check(other_rules, Ok(()), true, Ok(()), Ok(())), Err(MatchWorkerManifestError::RulesProfileMismatch));
    assert_eq!(
        check(header, Ok(()), true, Ok(()), Err(MatchWorkerManifestError::BuildSelectionMismatch)),
        Err(MatchWorkerManifestError::BuildSelectionMismatch)
    );
    let mut crowded = four_player_manifest();
    crowded.participants[0].team = 4;
    assert_eq!(
        validate_match_manifest(
            expected,
            header,
            &crowded,
            Ok(()),
            true,
            Ok(()),
            &names,
            Err(MatchWorkerManifestError::BuildSelectionMismatch)
        ),
        Err(MatchWorkerManifestError::InvalidTeam)
    );
    assert_eq!(check(header, Ok(()), true, Ok(()), Ok(())), Ok(()));
}

#[test]
fn practice_uses_one_human_and_fills_the_selected_roster_with_named_bots() {
    let mut lobby = handoff_lobby(1);
    let hello = LobbyHello { protocol_version: 3, build_version: "0.1.0".to_string(), registry_fingerprint: 7, content_fingerprint: 8 };
    let session = lobby
        .accept_client(11, RouteId::new(20).unwrap(), PeerId::new(21).unwrap(), &hello, &vec![Some("Brawler-0011".to_string())])
        .unwrap();
    let catalog = catalog();
    let game = catalog.game_types.iter().find(|game| game.id.as_str() == "hot-zone-3v3").unwrap();
    let command = PracticeStartRequest {
        request_id: PracticeRequestId::new(1).unwrap(),
        catalog_revision: catalog.revision,
        game_type_id: game.id.clone(),
        game_type_configuration_revision: game.configuration_revision,
        brawler_id: BrawlerId::new(1).unwrap(),
        brawler_revision: 1,
    };
    let human = LobbyBuildIdentity { recipe_fingerprint: 0xabc1, build_revision: 1, snapshot: snapshot(1) };
    let accepted = AcceptedBuildSummary {
        weapon_preset_id: 1,
        ultimate_id: 1,
        passive_ids: [3, 4],
        recipe_fingerprint: 0xabc1,
        revision: 1,
        source_build_preset_id: None,
        total_points: 10,
    };
    let canonical = LobbyBuildIdentity { recipe_fingerprint: 0xb07, build_revision: 2, snapshot: snapshot(4) };
    let modes = RoutingModes { wipeout: 1, hot_zone: 2, heist: 3 };

    let started = lobby
        .create_practice_request(&session, &command, &catalog, &human, accepted, Some(canonical), Some(0x77), modes, 1)
        .unwrap();
    let request = lobby.unsent_existing_request().unwrap();
    assert_eq!(started.ticket_id, None);
    assert_eq!(started.map_preset_id, MapPresetId(11));
    assert_eq!(request.map_preset, 11);
    assert_eq!(request.participants.len(), 1);
    assert_eq!(request.bots.len(), 5);
    assert_eq!(
        request.bots.iter().map(|bot| bot.display_name.as_str()).collect::<Vec<_>>(),
        vec!["Bot 1", "Bot 2", "Bot 3", "Bot 4", "Bot 5"]
    );
    assert_eq!(request.bots.iter().filter(|bot| bot.team == 0).count(), 2);
    assert_eq!(request.bots.iter().filter(|bot| bot.team == 1).count(), 3);
    assert!(request.bots.iter().all(|bot| {
        bot.recipe_fingerprint == canonical.recipe_fingerprint
            && bot.build_revision == canonical.build_revision
            && bot.build_snapshot == canonical.snapshot
    }));
}

#[test]
fn manifest_admission_preserves_stable_team_and_saved_brawler_loadout() {
    let value = four_player_manifest();
    let participant = admit_manifest_client(&value, 8, Some(value.participants[0].peer_id), &Vec::new()).unwrap();
    assert_eq!(participant.player_id.get(), 7);
    assert_eq!(participant.team, 0);
    assert_ne!(participant.recipe_fingerprint, 0);
}

#[test]
fn an_activated_match_completes_its_reservation() {
    let catalog = catalog();
    let modes = RoutingModes { wipeout: 1, hot_zone: 2, heist: 3 };
    let mut lobby = handoff_lobby(1);
    let (mut queue, live) = queued_pair(&mut lobby, &catalog);
    let mut formation = ProductFormationState::new();
    form_product_reservation(&mut lobby, &mut queue, &catalog, &mut formation, Some(5), &live, modes, 4, 0).unwrap();
    assert!(!apply_product_activation(&mut lobby, &mut queue, &mut formation));
    assert!(formation.active.is_some());

    let request_id = lobby.unsent_existing_request().unwrap().request_id;
    lobby.mark_allocate_request_queued();
    let grants = live
        .iter()
        .enumerate()
        .map(|(index, &session)| AllocationGrant {
            lobby_session_id: session,
            route_id: RouteId::new(30 + index as u128).unwrap(),
            peer_id: PeerId::new(40 + index as u128).unwrap(),
            capability: Some(RouteCapability([index as u8 + 1; 32])),
            activation_expiry_unix_ms: 100,
            route_expiry_unix_ms: 200,
        })
        .collect();
    let activation = ActivationBody { request_id, allocation_id: AllocationId::new(5).unwrap(), match_id: MatchId::new(6).unwrap() };
    lobby
        .apply_allocation_granted(AllocationGrantedBody {
            request_id,
            allocation_id: activation.allocation_id,
            match_id: activation.match_id,
            grants,
        })
        .unwrap();
    lobby.apply_control_frame(ControlFrame { body: ControlBody::Activated(activation) }).unwrap();

    assert!(apply_product_activation(&mut lobby, &mut queue, &mut formation));
    assert!(formation.active.is_none());
    assert_eq!(queue.reservation_count(), 0);
    assert!(queue.ticket_for_session(live[0]).is_none());
    assert!(lobby.unsent_existing_request().is_none());
    assert!(lobby.take_route_grant(11).is_none());
    assert!(!apply_product_activation(&mut lobby, &mut queue, &mut formation));
}

#[test]
fn passive_manifest_projection_preserves_exact_descriptor_contract() {
    let path = |index: usize, variant: &str, tail: &str| {
        vec![
            EditorPathSegment::Key("passives".to_string()),
            EditorPathSegment::Index(index),
            EditorPathSegment::Key("parameters".to_string()),
            EditorPathSegment::Key(variant.to_string()),
            EditorPathSegment::Key(tail.to_string()),
        ]
    };
    let expected = [
        (2, "AdrenalResponse", "duration_ticks"),
        (2, "AdrenalResponse", "rearm_ticks"),
        (2, "AdrenalResponse", "movement_bonus_basis_points"),
        (3, "CloseQuarters", "near_distance_milliunits"),
        (3, "CloseQuarters", "far_distance_milliunits"),
    ];
    for (index, variant, tail) in expected {
        assert_eq!(passive_path(index, variant, tail), path(index, variant, tail));
    }
}
