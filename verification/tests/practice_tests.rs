use brawler_server::catalog::{
    AdvertisedGameType, AdvertisedRulesSummary, GameRulesEntry, MapAdmissionEntry, ResolvedGameRules,
    ResolvedLobbyCatalog,
};
use brawler_server::ids::{
    BrawlerId, CatalogRevision, LobbySessionId, MapPresetId, MatchReservationId, PeerId, PlayerId,
    PracticeRequestId, RequestId, RouteId,
};
use brawler_server::lobby::formation::{PracticeStartStep, ProductFormationState};
use brawler_server::lobby::model::{
    LobbyCompatibility, LobbyHello, LobbyJoinRejection, LobbyManifest, M01MapPreset, M01Maps, RoutingModes,
};
use brawler_server::lobby::practice::{
    practice_bot_rows, PracticeStartRejection, PracticeStartRequest, ReservationStarted,
};
use brawler_server::lobby::profile::{
    practice_admission_rejection, profile_authority_join_rejection, profile_command_error_decision,
    profile_load_rejection, ProfileAuthorityError, ProfileDecision,
};
use brawler_server::lobby::handoff::{
    apply_product_dissolution, expire_product_reservation, release_lost_session, MatchStartFailure,
};
use brawler_server::lobby::routing::{
    ActivationBody, AllocationGrant, AllocationGrantedBody, ControlBody, ControlFrame, GameMode, LobbyCapacityBody,
    RouteCapability,
};
use brawler_server::ids::{AllocationId, MatchId};
use brawler_server::lobby::state::{LobbySessionIdSource, LobbyState};
use brawler_server::session::{LobbyBuildIdentity, LobbySession};
use brawler_server::wire::{AcceptedBuildSummary, BuildSnapshot, GameTypeId};

struct CountingSessionIds(u128);

impl LobbySessionIdSource for CountingSessionIds {
    fn next(&mut self) -> Option<LobbySessionId> {
        let id = LobbySessionId::new(self.0)?;
        self.0 = self.0.checked_add(1)?;
        Some(id)
    }
}

const CATALOG_REVISION: CatalogRevision = CatalogRevision(11, 12);

fn snapshot(brawler: u128, revision: u32) -> BuildSnapshot {
    BuildSnapshot {
        brawler_id: BrawlerId::new(brawler).unwrap(),
        brawler_revision: revision,
        weapon_base_id: 1,
        ultimate_id: 1,
        passive_ids: [3, 4],
    }
}

fn game(id: &str, revision: u32, mode: u16, map: u16, team_count: u8, players_per_team: u8) -> AdvertisedGameType {
    AdvertisedGameType {
        id: GameTypeId(id.to_string()),
        configuration_revision: revision,
        display_name: id.to_string(),
        mode_definition_id: mode,
        map_preset_ids: vec![MapPresetId(map)],
        team_count,
        players_per_team,
        rules_summary: AdvertisedRulesSummary::Wipeout { target_score: 10, active_limit_ticks: 10_800 },
    }
}

fn catalog() -> ResolvedLobbyCatalog {
    let game_types = vec![
        game("wipeout-2v2", 3, 1, 7, 2, 2),
        game("heist-1v1", 1, 3, 9, 2, 1),
        game("brawl-6x3", 2, 1, 10, 6, 3),
        game("unmapped-1v1", 1, 1, 40, 2, 1),
    ];
    let game_rules = game_types
        .iter()
        .map(|game| GameRulesEntry {
            game_type_id: game.id.clone(),
            rules: ResolvedGameRules {
                objective_target: 12,
                match_duration_ticks: 9_000,
                countdown_ticks: 120,
                respawn_ticks: 150,
                spawn_protection_ticks: 90,
                completed_input_lock_ticks: 60,
                wipeout_recent_hostile_damage_credit_ticks: 300,
                heist_critical_health_percent: 25,
            },
        })
        .collect();
    ResolvedLobbyCatalog {
        server_name: "Practice".to_string(),
        revision: CATALOG_REVISION,
        game_types,
        policy_revision: CatalogRevision(1, 1),
        game_rules,
        map_admission_revisions: vec![
            MapAdmissionEntry { preset_id: MapPresetId(7), admission_revision: 4 },
            MapAdmissionEntry { preset_id: MapPresetId(9), admission_revision: 5 },
            MapAdmissionEntry { preset_id: MapPresetId(10), admission_revision: 6 },
        ],
    }
}

fn modes() -> RoutingModes {
    RoutingModes { wipeout: 1, hot_zone: 2, heist: 3 }
}

fn lobby_with_player(free_match_slots: u8) -> (LobbyState<CountingSessionIds>, LobbySession) {
    let mut lobby = LobbyState::with_id_source(
        LobbyManifest { protocol_registry_fingerprint: 7, content_fingerprint: 8, max_authenticated_sessions: 32 },
        LobbyCompatibility { protocol_version: 3, build_version: "0.1.0".to_string() },
        GameMode::Wipeout,
        LobbyBuildIdentity { recipe_fingerprint: 1, build_revision: 1, snapshot: snapshot(1, 1) },
        M01Maps {
            wipeout: M01MapPreset { preset: 7, admission_revision: Some(4) },
            hot_zone: M01MapPreset { preset: 8, admission_revision: Some(4) },
            heist: M01MapPreset { preset: 9, admission_revision: Some(5) },
        },
        CountingSessionIds(100),
    );
    let hello = LobbyHello {
        protocol_version: 3,
        build_version: "0.1.0".to_string(),
        registry_fingerprint: 7,
        content_fingerprint: 8,
    };
    let session = lobby
        .accept_client(11, RouteId::new(1).unwrap(), PeerId::new(1).unwrap(), &hello, &vec![Some("Ada".to_string())])
        .unwrap();
    lobby
        .apply_control_frame(ControlFrame {
            body: ControlBody::LobbyCapacity(LobbyCapacityBody { free_match_slots }),
        })
        .unwrap();
    (lobby, session)
}

fn command(game_type: &str, configuration_revision: u32) -> PracticeStartRequest {
    PracticeStartRequest {
        request_id: PracticeRequestId::new(5).unwrap(),
        catalog_revision: CATALOG_REVISION,
        game_type_id: GameTypeId(game_type.to_string()),
        game_type_configuration_revision: configuration_revision,
        brawler_id: BrawlerId::new(40).unwrap(),
        brawler_revision: 2,
    }
}

fn human() -> LobbyBuildIdentity {
    LobbyBuildIdentity { recipe_fingerprint: 0xabc, build_revision: 3, snapshot: snapshot(40, 2) }
}

fn bot_build() -> LobbyBuildIdentity {
    LobbyBuildIdentity { recipe_fingerprint: 0xb07, build_revision: 9, snapshot: snapshot(u128::MAX, 1) }
}

fn accepted() -> AcceptedBuildSummary {
    AcceptedBuildSummary {
        weapon_preset_id: 1,
        ultimate_id: 1,
        passive_ids: [3, 4],
        recipe_fingerprint: 0xabc,
        revision: 3,
        source_build_preset_id: None,
        total_points: 10,
    }
}

fn start(
    lobby: &mut LobbyState<CountingSessionIds>,
    session: &LobbySession,
    command: &PracticeStartRequest,
    bots: Option<LobbyBuildIdentity>,
    entropy: Option<u128>,
) -> Result<ReservationStarted, PracticeStartRejection> {
    lobby.create_practice_request(session, command, &catalog(), &human(), accepted(), bots, entropy, modes(), 1)
}

#[test]
fn practice_request_fills_the_roster_with_bots() {
    let (mut lobby, session) = lobby_with_player(1);
    let started = start(&mut lobby, &session, &command("wipeout-2v2", 3), Some(bot_build()), Some(77)).unwrap();
    assert_eq!(started.reservation_id, MatchReservationId::new(77).unwrap());
    assert_eq!(started.ticket_id, None);
    assert_eq!(started.game_type_id, GameTypeId("wipeout-2v2".to_string()));
    assert_eq!(started.map_preset_id, MapPresetId(7));
    assert_eq!((started.team_count, started.players_per_team), (2, 2));
    assert_eq!(started.accepted_build, accepted());
    assert_eq!(started.loading_deadline_millis, 30_000);

    let body = lobby.unsent_existing_request().unwrap();
    assert_eq!(body.request_id, RequestId::new(1).unwrap());
    assert_eq!(body.lobby_session_id, session.lobby_session_id);
    assert_eq!(body.mode, GameMode::Wipeout);
    assert_eq!((body.map_preset, body.map_revision), (7, 4));
    assert_eq!(body.rules_profile, 1);
    assert_eq!(body.objective_target, 12);
    assert_eq!((body.match_duration_ticks, body.countdown_ticks, body.respawn_ticks), (9_000, 120, 150));
    assert_eq!(body.participants.len(), 1);
    let player = &body.participants[0];
    assert_eq!(player.netcode_client_id, session.netcode_client_id);
    assert_eq!(player.team, 0);
    assert_eq!(player.display_name, "Ada");
    assert_eq!((player.recipe_fingerprint, player.build_revision), (0xabc, 3));
    assert_eq!(player.build_snapshot, snapshot(40, 2));

    let names: Vec<&str> = body.bots.iter().map(|bot| bot.display_name.as_str()).collect();
    assert_eq!(names, ["Bot 1", "Bot 2", "Bot 3"]);
    let teams: Vec<u8> = body.bots.iter().map(|bot| bot.team).collect();
    assert_eq!(teams, [0, 1, 1]);
    let players: Vec<u64> = body.bots.iter().map(|bot| bot.player_id.get()).collect();
    assert_eq!(players, [u64::MAX, u64::MAX - 1, u64::MAX - 2]);
    assert!(body.bots.iter().all(|bot| bot.recipe_fingerprint == 0xb07 && bot.build_revision == 9));

    assert_eq!(
        start(&mut lobby, &session, &command("wipeout-2v2", 3), Some(bot_build()), Some(78)),
        Err(PracticeStartRejection::Busy)
    );
}

#[test]
fn practice_refusals_come_in_order() {
    let (mut full, session) = lobby_with_player(0);
    assert_eq!(
        start(&mut full, &session, &command("wipeout-2v2", 3), Some(bot_build()), Some(77)),
        Err(PracticeStartRejection::CapacityUnavailable)
    );

    let (mut lobby, session) = lobby_with_player(1);
    let mut stale = command("wipeout-2v2", 3);
    stale.catalog_revision = CatalogRevision(1, 2);
    assert_eq!(start(&mut lobby, &session, &stale, Some(bot_build()), Some(77)), Err(PracticeStartRejection::StaleCatalog));
    assert_eq!(
        start(&mut lobby, &session, &command("hot-zone-9v9", 3), Some(bot_build()), Some(77)),
        Err(PracticeStartRejection::UnknownGameType)
    );
    assert_eq!(
        start(&mut lobby, &session, &command("wipeout-2v2", 2), Some(bot_build()), Some(77)),
        Err(PracticeStartRejection::StaleGameConfiguration)
    );
    let mut other_brawler = command("wipeout-2v2", 3);
    other_brawler.brawler_revision = 3;
    assert_eq!(
        start(&mut lobby, &session, &other_brawler, Some(bot_build()), Some(77)),
        Err(PracticeStartRejection::InvalidBuild)
    );
    assert!(lobby.unsent_existing_request().is_none());
}

#[test]
fn practice_failures_after_the_request_identity_keep_it_taken() {
    let (mut lobby, session) = lobby_with_player(1);
    assert_eq!(
        start(&mut lobby, &session, &command("wipeout-2v2", 3), Some(bot_build()), None),
        Err(PracticeStartRejection::Internal)
    );
    assert_eq!(
        start(&mut lobby, &session, &command("wipeout-2v2", 3), Some(bot_build()), Some(0)),
        Err(PracticeStartRejection::Internal)
    );
    assert_eq!(
        start(&mut lobby, &session, &command("heist-1v1", 1), None, Some(77)),
        Err(PracticeStartRejection::Internal)
    );
    assert_eq!(
        start(&mut lobby, &session, &command("unmapped-1v1", 1), Some(bot_build()), Some(77)),
        Err(PracticeStartRejection::Internal)
    );
    assert!(lobby.unsent_existing_request().is_none());
    let started = start(&mut lobby, &session, &command("heist-1v1", 1), Some(bot_build()), Some(77)).unwrap();
    assert_eq!(started.map_preset_id, MapPresetId(9));
    let body = lobby.unsent_existing_request().unwrap();
    assert_eq!(body.request_id, RequestId::new(5).unwrap());
    assert_eq!(body.mode, GameMode::Heist);
    assert_eq!(body.map_revision, 5);
    assert_eq!(body.bots.len(), 1);
    assert_eq!(body.bots[0].team, 1);
    assert_eq!(body.bots[0].display_name, "Bot 1");
}

#[test]
fn practice_bots_are_named_in_decimal_and_fill_teams_in_order() {
    let bots = practice_bot_rows(6, 3, &bot_build());
    assert_eq!(bots.len(), 17);
    assert_eq!(bots[8].display_name, "Bot 9");
    assert_eq!(bots[9].display_name, "Bot 10");
    assert_eq!(bots[16].display_name, "Bot 17");
    let teams: Vec<u8> = bots.iter().map(|bot| bot.team).collect();
    assert_eq!(teams, [0, 0, 1, 1, 1, 2, 2, 2, 3, 3, 3, 4, 4, 4, 5, 5, 5]);
    assert_eq!(bots[16].player_id, PlayerId::new(u64::MAX - 16).unwrap());
    assert!(practice_bot_rows(1, 1, &bot_build()).is_empty());
    assert!(practice_bot_rows(0, 3, &bot_build()).is_empty());
    assert_eq!(practice_bot_rows(255, 255, &bot_build()).last().unwrap().display_name, "Bot 65024");
}

#[test]
fn practice_formation_answers_repeats_and_refuses_others() {
    let (mut lobby, session) = lobby_with_player(1);
    let started = start(&mut lobby, &session, &command("wipeout-2v2", 3), Some(bot_build()), Some(77)).unwrap();
    let mut formation = ProductFormationState::new();
    let request = PracticeRequestId::new(5).unwrap();
    assert_eq!(formation.practice_start_step(session.lobby_session_id, request, 0), PracticeStartStep::Admit);
    assert_eq!(
        formation.practice_start_step(session.lobby_session_id, request, 1),
        PracticeStartStep::Reject(PracticeStartRejection::Busy)
    );
    formation.record_practice_start(request, session.lobby_session_id, started.clone(), 1_000);
    assert_eq!(formation.active, Some(MatchReservationId::new(77).unwrap()));
    assert_eq!(formation.loading_deadline_millis, Some(31_000));
    assert_eq!(formation.grant_deadline_millis, Some(11_000));
    assert_eq!(
        formation.practice_start_step(session.lobby_session_id, request, 0),
        PracticeStartStep::Resend(started.clone())
    );
    assert_eq!(
        formation.practice_start_step(session.lobby_session_id, PracticeRequestId::new(6).unwrap(), 0),
        PracticeStartStep::Reject(PracticeStartRejection::Busy)
    );
    assert_eq!(
        formation.practice_start_step(LobbySessionId::new(999).unwrap(), request, 0),
        PracticeStartStep::Reject(PracticeStartRejection::Busy)
    );
    formation.record_practice_start(request, session.lobby_session_id, started, u64::MAX - 5);
    assert_eq!(formation.loading_deadline_millis, Some(u64::MAX));
    formation.clear_active();
    assert_eq!(formation.active, None);
    assert!(formation.practice.is_none());
    assert_eq!(formation.practice_start_step(session.lobby_session_id, request, 0), PracticeStartStep::Admit);
}

#[test]
fn profile_refusals_map_to_client_answers() {
    assert_eq!(
        practice_admission_rejection(ProfileAuthorityError::IncompatibleBuild),
        PracticeStartRejection::IncompatibleBuild
    );
    for error in [
        ProfileAuthorityError::UnknownSession,
        ProfileAuthorityError::TemporarilyUnavailable,
        ProfileAuthorityError::StorageStopped,
    ] {
        assert_eq!(practice_admission_rejection(error), PracticeStartRejection::Internal);
    }
    for error in [
        ProfileAuthorityError::AccountInUse,
        ProfileAuthorityError::AlreadyPending,
        ProfileAuthorityError::QueueLocked,
        ProfileAuthorityError::InvalidRequest,
        ProfileAuthorityError::IdentifierExhausted,
    ] {
        assert_eq!(practice_admission_rejection(error), PracticeStartRejection::InvalidBuild);
    }
    assert_eq!(profile_authority_join_rejection(ProfileAuthorityError::AccountInUse), LobbyJoinRejection::AccountInUse);
    assert_eq!(
        profile_authority_join_rejection(ProfileAuthorityError::StorageStopped),
        LobbyJoinRejection::StorageUnavailable
    );
    assert_eq!(
        profile_authority_join_rejection(ProfileAuthorityError::QueueLocked),
        LobbyJoinRejection::InvalidAccount
    );
}

#[test]
fn dissolved_practice_match_releases_only_its_player() {
    let (mut lobby, session) = lobby_with_player(1);
    let started = start(&mut lobby, &session, &command("heist-1v1", 1), Some(bot_build()), Some(77)).unwrap();
    let mut formation = ProductFormationState::new();
    formation.record_practice_start(PracticeRequestId::new(5).unwrap(), session.lobby_session_id, started, 0);
    let request_id = lobby.unsent_existing_request().unwrap().request_id;
    lobby.mark_allocate_request_queued();
    let grant = AllocationGrant {
        lobby_session_id: session.lobby_session_id,
        route_id: RouteId::new(31).unwrap(),
        peer_id: PeerId::new(41).unwrap(),
        capability: Some(RouteCapability([7; 32])),
        activation_expiry_unix_ms: 100,
        route_expiry_unix_ms: 200,
    };
    let activation = ActivationBody {
        request_id,
        allocation_id: AllocationId::new(5).unwrap(),
        match_id: MatchId::new(6).unwrap(),
    };
    lobby
        .apply_allocation_granted(AllocationGrantedBody {
            request_id,
            allocation_id: activation.allocation_id,
            match_id: activation.match_id,
            grants: vec![grant],
        })
        .unwrap();
    lobby.apply_control_frame(ControlFrame { body: ControlBody::Activated(activation) }).unwrap();

    let mut queue = brawler_server::queue::state::QueueState::with_id_source(&catalog(), NoTickets);
    assert!(apply_product_dissolution(&mut lobby, &mut queue, &mut formation).is_none());
    assert!(formation.active.is_some());
    lobby.apply_control_frame(ControlFrame { body: ControlBody::ActivationDissolved(activation) }).unwrap();
    let dissolution = apply_product_dissolution(&mut lobby, &mut queue, &mut formation).unwrap();
    assert_eq!(dissolution.reservation_id, MatchReservationId::new(77).unwrap());
    assert_eq!(dissolution.practice_session, Some(session.lobby_session_id));
    assert!(dissolution.removed.is_empty());
    assert!(formation.active.is_none());
    assert!(formation.practice.is_none());
    assert!(!lobby.take_product_dissolved());
}

#[test]
fn practice_match_times_out_when_its_one_grant_is_late() {
    let (mut lobby, session) = lobby_with_player(1);
    let started = start(&mut lobby, &session, &command("heist-1v1", 1), Some(bot_build()), Some(77)).unwrap();
    let mut formation = ProductFormationState::new();
    formation.record_practice_start(PracticeRequestId::new(5).unwrap(), session.lobby_session_id, started, 0);
    let mut queue = brawler_server::queue::state::QueueState::with_id_source(&catalog(), NoTickets);
    assert!(expire_product_reservation(&mut lobby, &mut queue, &mut formation, 9_999).is_none());
    let expiry = expire_product_reservation(&mut lobby, &mut queue, &mut formation, 10_000).unwrap();
    assert_eq!(expiry.reason, MatchStartFailure::TimedOut);
    assert_eq!(expiry.practice_session, Some(session.lobby_session_id));
    assert!(expiry.removed.is_empty());
    assert!(lobby.unsent_existing_request().is_none());
    assert!(formation.practice.is_none());
}

struct NoTickets;

impl brawler_server::queue::state::QueueTicketIdSource for NoTickets {
    fn next(&mut self) -> Option<brawler_server::ids::QueueTicketId> {
        None
    }
}

#[test]
fn losing_the_practice_player_abandons_the_practice_match() {
    let (mut lobby, session) = lobby_with_player(1);
    let started = start(&mut lobby, &session, &command("heist-1v1", 1), Some(bot_build()), Some(77)).unwrap();
    let mut formation = ProductFormationState::new();
    formation.record_practice_start(PracticeRequestId::new(5).unwrap(), session.lobby_session_id, started, 0);
    let mut queue = brawler_server::queue::state::QueueState::with_id_source(&catalog(), NoTickets);
    let loss = release_lost_session(&mut lobby, &mut queue, &mut formation, session.lobby_session_id, 11);
    assert!(loss.practice_cancel.is_none());
    assert!(loss.released.is_none());
    assert!(loss.removed.is_empty());
    assert!(!loss.snapshot_changed);
    assert_eq!(loss.detached.unwrap().lobby_session_id, session.lobby_session_id);
    assert!(formation.active.is_none());
    assert!(formation.practice.is_none());
    assert!(lobby.unsent_existing_request().is_none());
}

#[test]
fn profile_load_and_authority_errors_keep_exact_wire_mappings() {
    for decision in [
        ProfileDecision::Accepted,
        ProfileDecision::InvalidRequest,
        ProfileDecision::StaleRevision,
        ProfileDecision::MissingBrawler,
        ProfileDecision::CapacityReached,
        ProfileDecision::QueueLocked,
        ProfileDecision::TemporarilyUnavailable,
        ProfileDecision::MissingPart,
        ProfileDecision::PartAlreadyEquipped,
        ProfileDecision::IncompatibleWeapon,
        ProfileDecision::IncompatibleBuild,
    ] {
        assert_eq!(profile_load_rejection(decision), LobbyJoinRejection::InvalidAccount);
    }
    assert_eq!(profile_load_rejection(ProfileDecision::StorageFault), LobbyJoinRejection::StorageUnavailable);

    for (error, expected) in [
        (ProfileAuthorityError::QueueLocked, Some(ProfileDecision::QueueLocked)),
        (ProfileAuthorityError::InvalidRequest, Some(ProfileDecision::InvalidRequest)),
        (ProfileAuthorityError::UnknownSession, Some(ProfileDecision::InvalidRequest)),
        (ProfileAuthorityError::AccountInUse, Some(ProfileDecision::TemporarilyUnavailable)),
        (ProfileAuthorityError::AlreadyPending, Some(ProfileDecision::TemporarilyUnavailable)),
        (ProfileAuthorityError::IncompatibleBuild, Some(ProfileDecision::TemporarilyUnavailable)),
        (ProfileAuthorityError::TemporarilyUnavailable, Some(ProfileDecision::TemporarilyUnavailable)),
        (ProfileAuthorityError::IdentifierExhausted, Some(ProfileDecision::TemporarilyUnavailable)),
        (ProfileAuthorityError::StorageStopped, None),
    ] {
        assert_eq!(profile_command_error_decision(error), expected);
    }

    for (error, expected) in [
        (ProfileAuthorityError::AccountInUse, LobbyJoinRejection::AccountInUse),
        (ProfileAuthorityError::StorageStopped, LobbyJoinRejection::StorageUnavailable),
        (ProfileAuthorityError::AlreadyPending, LobbyJoinRejection::InvalidAccount),
        (ProfileAuthorityError::UnknownSession, LobbyJoinRejection::InvalidAccount),
        (ProfileAuthorityError::QueueLocked, LobbyJoinRejection::InvalidAccount),
        (ProfileAuthorityError::InvalidRequest, LobbyJoinRejection::InvalidAccount),
        (ProfileAuthorityError::IncompatibleBuild, LobbyJoinRejection::InvalidAccount),
        (ProfileAuthorityError::TemporarilyUnavailable, LobbyJoinRejection::InvalidAccount),
        (ProfileAuthorityError::IdentifierExhausted, LobbyJoinRejection::InvalidAccount),
    ] {
        assert_eq!(profile_authority_join_rejection(error), expected);
    }
}
