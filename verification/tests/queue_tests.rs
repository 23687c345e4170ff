use brawler_server::catalog::{
    AdvertisedGameType, AdvertisedRulesSummary, GameRulesEntry, MapAdmissionEntry,
    ResolvedGameRules, ResolvedLobbyCatalog,
};
use brawler_server::ids::{
    BrawlerId, CatalogRevision, LobbySessionId, MapPresetId, MatchReservationId, NetcodeClientId,
    NetworkEntityId, PeerId, PlayerId, QueueRequestId, QueueTicketId, RouteId,
};
use brawler_server::queue::model::{QueueCommandDisposition, QueueCommandResult, MAX_QUEUE_TICKETS};
use brawler_server::queue::state::{QueueState, QueueTicketIdSource};
use brawler_server::session::{LobbyBuildIdentity, LobbySession};
use brawler_server::wire::{
    AdmittedBuild, BuildResolution, BuildSnapshot, GameTypeId, QueueCancelCommand, QueueCommand,
    QueueDecision, QueueJoinCommand, QueueRejection, ResolvedBuild,
};
use std::collections::BTreeSet;

struct SequentialTicketIds(u128);

impl QueueTicketIdSource for SequentialTicketIds {
    fn next(&mut self) -> Option<QueueTicketId> {
        let id = QueueTicketId::new(self.0)?;
        self.0 = self.0.checked_add(1)?;
        Some(id)
    }
}

struct FixedTicketSeed(u128);

impl QueueTicketIdSource for FixedTicketSeed {
    fn next(&mut self) -> Option<QueueTicketId> {
        QueueTicketId::new(self.0)
    }
}

fn rules(target: u16) -> ResolvedGameRules {
    ResolvedGameRules {
        objective_target: target,
        match_duration_ticks: 10_800,
        countdown_ticks: 180,
        respawn_ticks: 180,
        spawn_protection_ticks: 90,
        completed_input_lock_ticks: 60,
        wipeout_recent_hostile_damage_credit_ticks: 300,
        heist_critical_health_percent: 25,
    }
}

fn game(id: &str, revision: u32, name: &str, mode: u16, map: u16, players_per_team: u8) -> AdvertisedGameType {
    AdvertisedGameType {
        id: GameTypeId(id.to_string()),
        configuration_revision: revision,
        display_name: name.to_string(),
        mode_definition_id: mode,
        map_preset_ids: vec![MapPresetId(map)],
        team_count: 2,
        players_per_team,
        rules_summary: AdvertisedRulesSummary::Wipeout { target_score: 10, active_limit_ticks: 10_800 },
    }
}

/// The shape of the checked-in development catalog: two 2v2 pools first, then a 3v3 pool.
fn catalog() -> ResolvedLobbyCatalog {
    let game_types = vec![
        game("wipeout-2v2", 3, "Feature Yard Wipeout 2v2", 1, 7, 2),
        game("hot-zone-2v2", 2, "Feature Yard Hot Zone 2v2", 2, 8, 2),
        game("hot-zone-3v3", 5, "Feature Yard Hot Zone 3v3", 2, 11, 3),
        game("wipeout-3v3", 4, "Verdant Crossfire Wipeout 3v3", 1, 10, 3),
        game("hot-zone-1v1", 1, "Feature Yard Hot Zone 1v1", 2, 8, 1),
        game("heist-1v1", 1, "Feature Yard Heist 1v1", 3, 9, 1),
        game("heist-2v2", 1, "Feature Yard Heist 2v2", 3, 9, 2),
        game("heist-3v3", 6, "Feature Yard Heist 3v3", 3, 12, 3),
        game("wipeout-1v1", 1, "Feature Yard Wipeout 1v1", 1, 7, 1),
    ];
    let game_rules = game_types
        .iter()
        .map(|game| GameRulesEntry { game_type_id: game.id.clone(), rules: rules(10) })
        .collect();
    ResolvedLobbyCatalog {
        server_name: "Local PewPew Blitz".to_string(),
        revision: CatalogRevision(0x4fe0_8f5b_69cb_3d54_ac96_0e68_13ac_4a5c, 0x3518_cafb_e144_7672_ab55_c39c_b449_8832),
        game_types,
        policy_revision: CatalogRevision(1, 1),
        game_rules,
        map_admission_revisions: (7..=12).map(|id| MapAdmissionEntry { preset_id: MapPresetId(id), admission_revision: 1 }).collect(),
    }
}

fn session(value: u64) -> LobbySession {
    LobbySession {
        lobby_session_id: LobbySessionId::new(u128::from(value)).unwrap(),
        player_id: PlayerId::new(value).unwrap(),
        network_entity_id: NetworkEntityId(value),
        netcode_client_id: NetcodeClientId::new(value).unwrap(),
        route_id: RouteId::new(u128::from(value)).unwrap(),
        peer_id: PeerId::new(u128::from(value)).unwrap(),
        team: 0,
        build: LobbyBuildIdentity {
            recipe_fingerprint: 1,
            build_revision: 1,
            snapshot: snapshot(1),
        },
    }
}

fn snapshot(preset: u16) -> BuildSnapshot {
    BuildSnapshot {
        brawler_id: BrawlerId::new(u128::from(preset)).unwrap(),
        brawler_revision: 1,
        weapon_base_id: preset,
        ultimate_id: 1,
        passive_ids: [3, 4],
    }
}

fn join(catalog: &ResolvedLobbyCatalog, preset: u16) -> QueueCommand {
    join_pool(catalog, 0, preset)
}

fn join_pool(catalog: &ResolvedLobbyCatalog, pool: usize, preset: u16) -> QueueCommand {
    let game = &catalog.game_types[pool];
    QueueCommand::Join(QueueJoinCommand {
        catalog_revision: catalog.revision,
        game_type_id: game.id.clone(),
        game_type_configuration_revision: game.configuration_revision,
        brawler_id: BrawlerId::new(u128::from(preset)).unwrap(),
        brawler_revision: 1,
    })
}

/// Builds 1 through 4 are the embedded presets that resolve; any other saved brawler has no
/// admitted build.
fn admitted_for(command: &QueueCommand) -> Option<AdmittedBuild> {
    match command {
        QueueCommand::Join(join) => {
            let preset = u16::try_from(join.brawler_id.get()).unwrap_or(0);
            if !(1..=4).contains(&preset) {
                return None;
            }
            Some(AdmittedBuild {
                snapshot: snapshot(preset),
                resolution: BuildResolution::Resolved(ResolvedBuild {
                    recipe_fingerprint: 0xabc0 + u64::from(preset),
                    revision: 1,
                    source_build_preset_id: None,
                    total_points: 10,
                }),
            })
        }
        QueueCommand::Cancel(_) => None,
    }
}

fn submit<S: QueueTicketIdSource>(
    queue: &mut QueueState<S>,
    session: LobbySession,
    request: u64,
    command: QueueCommand,
    now: u64,
) -> QueueCommandResult {
    let admitted = admitted_for(&command);
    queue.command(&session, QueueRequestId::new(request).unwrap(), command, now, admitted)
}

fn cancel(ticket_id: QueueTicketId) -> QueueCommand {
    QueueCommand::Cancel(QueueCancelCommand { ticket_id })
}

fn request(value: u64) -> QueueRequestId {
    QueueRequestId::new(value).unwrap()
}

#[test]
fn join_ack_cancel_is_atomic_revisioned_and_bijective() {
    let catalog = catalog();
    let mut queue = QueueState::with_id_source(&catalog, SequentialTicketIds(10));
    let player = session(1);
    let result = submit(&mut queue, player, 1, join(&catalog, 1), 0);
    assert_eq!(
        result,
        QueueCommandResult { disposition: QueueCommandDisposition::OutcomeReady, snapshot_changed: true }
    );
    assert_eq!(queue.ticket_count(), 1);
    assert_eq!(queue.state_revision(), 2);
    assert!(queue.indexes_are_valid());
    let membership = match &queue.pending_outcome(player.lobby_session_id).unwrap().decision {
        QueueDecision::Joined(membership) => membership.clone(),
        decision => panic!("unexpected decision: {decision:?}"),
    };
    assert_eq!(membership.admitted_at_pool_state_revision, 2);
    assert_eq!(membership.accepted_build.source_build_preset_id, None);
    assert_eq!(queue.snapshot().pools[0].queued, 1);

    assert_eq!(queue.acknowledge(player.lobby_session_id, request(1)), QueueCommandResult::default());
    let result = submit(&mut queue, player, 2, cancel(membership.ticket_id), 0);
    assert!(result.outcome_ready() && result.snapshot_changed());
    assert_eq!(queue.ticket_count(), 0);
    assert_eq!(queue.state_revision(), 3);
    assert_eq!(queue.snapshot().pools[0].queued, 0);
    assert!(queue.indexes_are_valid());
}

#[test]
fn equivalent_new_join_reuses_ticket_and_admission_revision() {
    let catalog = catalog();
    let mut queue = QueueState::with_id_source(&catalog, SequentialTicketIds(10));
    let player = session(1);
    submit(&mut queue, player, 1, join(&catalog, 2), 0);
    let first = queue.ticket_for_session(player.lobby_session_id).unwrap();
    let first_id = first.ticket_id;
    let first_revision = first.admitted_at_pool_state_revision;
    queue.acknowledge(player.lobby_session_id, request(1));
    let result = submit(&mut queue, player, 2, join(&catalog, 2), 1_000);
    assert!(result.outcome_ready() && !result.snapshot_changed());
    let second = queue.ticket_for_session(player.lobby_session_id).unwrap();
    assert_eq!(second.ticket_id, first_id);
    assert_eq!(second.admitted_at_pool_state_revision, first_revision);
    assert_eq!(queue.state_revision(), first_revision);
}

#[test]
fn retired_ticket_identity_is_not_reused_within_one_worker_generation() {
    let catalog = catalog();
    let mut queue = QueueState::with_id_source(&catalog, FixedTicketSeed(10));
    let player = session(1);
    submit(&mut queue, player, 1, join(&catalog, 1), 0);
    let first = queue.ticket_for_session(player.lobby_session_id).unwrap().ticket_id;
    queue.acknowledge(player.lobby_session_id, request(1));
    submit(&mut queue, player, 2, cancel(first), 1_000);
    queue.acknowledge(player.lobby_session_id, request(2));

    submit(&mut queue, player, 3, join(&catalog, 1), 2_000);
    let second = queue.ticket_for_session(player.lobby_session_id).unwrap().ticket_id;
    assert_ne!(second, first);
    queue.acknowledge(player.lobby_session_id, request(3));
    let result = submit(&mut queue, player, 4, cancel(second), 3_000);
    assert!(result.outcome_ready() && result.snapshot_changed());
    assert_eq!(queue.ticket_count(), 0);
}

#[test]
fn sustained_join_cancel_churn_keeps_unique_ids_and_bounded_state() {
    let catalog = catalog();
    let mut queue = QueueState::with_id_source(&catalog, FixedTicketSeed(10));
    let player = session(1);
    let mut issued = BTreeSet::new();
    let mut request_id = 1_u64;
    for cycle in 0..128_u64 {
        submit(&mut queue, player, request_id, join(&catalog, 1), cycle.saturating_mul(2_000));
        let ticket = queue.ticket_for_session(player.lobby_session_id).unwrap().ticket_id;
        assert!(issued.insert(ticket));
        queue.acknowledge(player.lobby_session_id, request(request_id));
        request_id += 1;
        submit(
            &mut queue,
            player,
            request_id,
            cancel(ticket),
            cycle.saturating_mul(2_000).saturating_add(1_000),
        );
        queue.acknowledge(player.lobby_session_id, request(request_id));
        request_id += 1;
        assert_eq!(queue.ticket_count(), 0);
        assert_eq!(queue.pending_outcome_count(), 0);
        assert!(queue.indexes_are_valid());
    }
    assert_eq!(issued.len(), 128);
}

#[test]
fn pending_identical_retries_are_suppressed_and_early_abuse_disconnects() {
    let catalog = catalog();
    let mut queue = QueueState::with_id_source(&catalog, SequentialTicketIds(10));
    let player = session(1);
    let command = join(&catalog, 1);
    submit(&mut queue, player, 1, command.clone(), 0);
    for attempt in 1..4 {
        let result = submit(&mut queue, player, 1, command.clone(), attempt);
        assert!(result.early_identical_retry() && !result.disconnect());
    }
    let result = submit(&mut queue, player, 1, command, 4);
    assert!(result.disconnect());
    assert_eq!(queue.ticket_count(), 1, "abuse handling does not mutate membership directly");
    assert_eq!(queue.telemetry().early_identical_retries, 4);
}

#[test]
fn ten_second_identical_retry_is_token_and_wire_copy_neutral() {
    let catalog = catalog();
    let mut queue = QueueState::with_id_source(&catalog, SequentialTicketIds(10));
    let player = session(1);
    let command = join(&catalog, 1);
    submit(&mut queue, player, 1, command.clone(), 0);
    let result = submit(&mut queue, player, 1, command, 10_000);
    assert!(result.suppressed_identical_retry());
    assert!(!result.outcome_ready());
    assert_eq!(queue.ticket_count(), 1);
    assert_eq!(queue.telemetry().suppressed_identical_retries, 1);
}

#[test]
fn different_command_while_outcome_pending_is_protocol_abuse() {
    let catalog = catalog();
    let mut queue = QueueState::with_id_source(&catalog, SequentialTicketIds(10));
    let player = session(1);
    submit(&mut queue, player, 1, join(&catalog, 1), 0);
    let result = submit(&mut queue, player, 2, join(&catalog, 2), 0);
    assert!(result.disconnect());
    assert_eq!(queue.ticket_count(), 1);
    assert_eq!(queue.pending_outcome_count(), 1);
}

#[test]
fn stale_outcome_does_not_forget_the_highest_request_or_its_exact_replay() {
    let catalog = catalog();
    let mut queue = QueueState::with_id_source(&catalog, SequentialTicketIds(10));
    let player = session(1);
    let command = join(&catalog, 1);
    submit(&mut queue, player, 5, command.clone(), 0);
    let joined = queue.pending_outcome(player.lobby_session_id).unwrap().clone();
    queue.acknowledge(player.lobby_session_id, request(5));

    submit(&mut queue, player, 3, command.clone(), 0);
    assert!(matches!(
        queue.pending_outcome(player.lobby_session_id).unwrap().decision,
        QueueDecision::Rejected(QueueRejection::StaleRequest)
    ));
    queue.acknowledge(player.lobby_session_id, request(3));

    let replay = submit(&mut queue, player, 5, command, 0);
    assert!(replay.outcome_ready() && !replay.snapshot_changed());
    assert_eq!(queue.pending_outcome(player.lobby_session_id), Some(&joined));
    assert_eq!(queue.ticket_count(), 1);
    assert_eq!(queue.state_revision(), 2);
}

#[test]
fn disconnect_removes_exact_ticket_and_updates_aggregate() {
    let catalog = catalog();
    let mut queue = QueueState::with_id_source(&catalog, SequentialTicketIds(10));
    let first = session(1);
    let second = session(2);
    submit(&mut queue, first, 1, join(&catalog, 1), 0);
    submit(&mut queue, second, 1, join(&catalog, 1), 0);
    assert_eq!(queue.snapshot().pools[0].queued, 2);
    assert!(queue.remove_session(first.lobby_session_id));
    assert_eq!(queue.snapshot().pools[0].queued, 1);
    assert!(queue.ticket_for_session(second.lobby_session_id).is_some());
    assert!(queue.indexes_are_valid());
    assert_eq!(queue.telemetry().disconnect_removals, 1);
}

#[test]
fn middle_cancellation_preserves_fifo_and_cross_pool_snapshot_is_aggregate_only() {
    let catalog = catalog();
    let mut queue = QueueState::with_id_source(&catalog, SequentialTicketIds(10));
    let first = session(1);
    let middle = session(2);
    let last = session(3);
    let other_pool = session(4);
    for player in [first, middle, last] {
        submit(&mut queue, player, 1, join(&catalog, 1), 0);
    }
    submit(&mut queue, other_pool, 1, join_pool(&catalog, 1, 2), 0);
    let first_ticket = queue.ticket_for_session(first.lobby_session_id).unwrap();
    let first_id = first_ticket.ticket_id;
    let first_order = first_ticket.admission_order;
    let middle_id = queue.ticket_for_session(middle.lobby_session_id).unwrap().ticket_id;
    let last_ticket = queue.ticket_for_session(last.lobby_session_id).unwrap();
    let last_id = last_ticket.ticket_id;
    let last_order = last_ticket.admission_order;
    queue.acknowledge(middle.lobby_session_id, request(1));
    submit(&mut queue, middle, 2, cancel(middle_id), 1_000);

    assert_eq!(queue.pool(&catalog.game_types[0].id).unwrap(), &vec![first_id, last_id]);
    assert!(first_order < last_order);
    assert_eq!(queue.snapshot().pools[0].queued, 2);
    assert_eq!(queue.snapshot().pools[1].queued, 1);
    assert!(queue.indexes_are_valid());
}

#[test]
fn invalid_build_never_mutates_queue() {
    let catalog = catalog();
    let mut queue = QueueState::with_id_source(&catalog, SequentialTicketIds(10));
    let player = session(1);
    let result = submit(&mut queue, player, 1, join(&catalog, 999), 0);
    assert!(result.outcome_ready() && !result.snapshot_changed());
    assert_eq!(queue.ticket_count(), 0);
    assert_eq!(queue.state_revision(), 1);
    assert!(matches!(
        queue.pending_outcome(player.lobby_session_id).unwrap().decision,
        QueueDecision::Rejected(QueueRejection::InternalBuildResolution)
    ));
}

#[test]
fn saved_brawler_admission_does_not_apply_the_legacy_point_budget() {
    let catalog = catalog();
    let mut queue = QueueState::with_id_source(&catalog, SequentialTicketIds(10));
    submit(&mut queue, session(1), 1, join(&catalog, 1), 0);
    assert!(matches!(
        queue.pending_outcome(session(1).lobby_session_id).unwrap().decision,
        QueueDecision::Joined(_)
    ));
    assert_eq!(queue.ticket_count(), 1);
}

#[test]
fn outcome_and_snapshot_wire_shapes_stay_bounded_and_private() {
    let catalog = catalog();
    let mut queue = QueueState::with_id_source(&catalog, SequentialTicketIds(10));
    let player = session(1);
    submit(&mut queue, player, 1, join(&catalog, 1), 0);
    assert!(queue.pending_outcome(player.lobby_session_id).is_some());
    assert_eq!(queue.snapshot().pools.len(), catalog.game_types.len());
    assert_eq!(queue.telemetry().current_tickets, 1);
    assert_eq!(queue.telemetry().high_water_tickets, 1);
}

#[test]
fn first_semantic_rate_overflow_is_one_fail_soft_notice_then_abuse_disconnects() {
    let catalog = catalog();
    let mut queue = QueueState::with_id_source(&catalog, SequentialTicketIds(10));
    let player = session(1);
    let mut ticket = None;
    for request_id in 1..=4 {
        let command = if let Some(ticket_id) = ticket.take() { cancel(ticket_id) } else { join(&catalog, 1) };
        let result = submit(&mut queue, player, request_id, command, 0);
        assert!(result.outcome_ready() && !result.disconnect());
        if let Some(active) = queue.ticket_for_session(player.lobby_session_id) {
            ticket = Some(active.ticket_id);
        }
        queue.acknowledge(player.lobby_session_id, request(request_id));
    }
    let result = submit(&mut queue, player, 5, join(&catalog, 1), 0);
    assert!(result.outcome_ready() && !result.disconnect());
    assert!(matches!(
        queue.pending_outcome(player.lobby_session_id).unwrap().decision,
        QueueDecision::Rejected(QueueRejection::RateLimited { retry_after_millis: 1_000 })
    ));
    queue.acknowledge(player.lobby_session_id, request(5));
    let abusive = submit(&mut queue, player, 6, join(&catalog, 1), 500);
    assert!(abusive.disconnect() && !abusive.outcome_ready());
    assert_eq!(queue.telemetry().rate_limit_notices, 1);
}

#[test]
fn all_thirty_two_sessions_can_queue_in_one_fifo_pool() {
    let catalog = catalog();
    let mut queue = QueueState::with_id_source(&catalog, SequentialTicketIds(1));
    for value in 1..=u64::try_from(MAX_QUEUE_TICKETS).unwrap() {
        let player = session(value);
        let result = submit(&mut queue, player, 1, join(&catalog, 1), 0);
        assert!(result.outcome_ready() && result.snapshot_changed());
    }
    assert_eq!(queue.ticket_count(), MAX_QUEUE_TICKETS);
    assert_eq!(queue.snapshot().pools[0].queued, 32);
    assert_eq!(queue.pending_outcome_count(), 32);
    assert!(queue.indexes_are_valid());
    assert_eq!(queue.telemetry().high_water_tickets, 32);
}

#[test]
fn exact_acknowledged_roster_reserves_oldest_and_leaves_overflow_queued() {
    let catalog = catalog();
    let mut queue = QueueState::with_id_source(&catalog, SequentialTicketIds(1));
    for value in 1..=5 {
        let player = session(value);
        submit(&mut queue, player, 1, join(&catalog, 1), 0);
        if value <= 4 {
            queue.acknowledge(player.lobby_session_id, request(1));
        }
    }
    let reservation_id = MatchReservationId::new(9).unwrap();
    let live_sessions: Vec<LobbySessionId> = (1..=5).map(|value| LobbySessionId::new(value).unwrap()).collect();
    let reservation = queue
        .reserve_oldest_exact(&catalog, reservation_id, &live_sessions)
        .expect("four acknowledged 2v2 tickets form");
    assert_eq!(reservation.participants.len(), 4);
    assert_eq!(
        reservation.participants.iter().map(|participant| participant.team).collect::<Vec<_>>(),
        vec![0, 1, 0, 1]
    );
    assert_eq!(queue.snapshot().pools[0].queued, 1);
    assert!(queue.indexes_are_valid());

    let removed = queue.complete_reservation(reservation_id);
    assert_eq!(removed.len(), 4);
    assert_eq!(queue.reservation_count(), 0);
    assert_eq!(queue.snapshot().pools[0].queued, 1);
    assert!(queue.indexes_are_valid());
}

#[test]
fn oldest_complete_pool_wins_and_the_next_roster_can_start_after_completion() {
    let catalog = catalog();
    let mut queue = QueueState::with_id_source(&catalog, SequentialTicketIds(1));
    for value in 1..=4 {
        let player = session(value);
        submit(&mut queue, player, 1, join_pool(&catalog, 1, 1), 0);
        queue.acknowledge(player.lobby_session_id, request(1));
    }
    for value in 5..=8 {
        let player = session(value);
        submit(&mut queue, player, 1, join_pool(&catalog, 0, 1), 0);
        queue.acknowledge(player.lobby_session_id, request(1));
    }
    let live_sessions: Vec<LobbySessionId> = (1..=8).map(|value| LobbySessionId::new(value).unwrap()).collect();
    let first_id = MatchReservationId::new(30).unwrap();
    let first = queue.reserve_oldest_exact(&catalog, first_id, &live_sessions).unwrap();
    assert_eq!(first.game_type_id, catalog.game_types[1].id);
    assert_eq!(queue.complete_reservation(first_id).len(), 4);

    let second = queue
        .reserve_oldest_exact(&catalog, MatchReservationId::new(31).unwrap(), &live_sessions)
        .unwrap();
    assert_eq!(second.game_type_id, catalog.game_types[0].id);
    assert!(queue.indexes_are_valid());
}

#[test]
fn stale_disconnected_ticket_cannot_complete_a_live_roster() {
    let catalog = catalog();
    let mut queue = QueueState::with_id_source(&catalog, SequentialTicketIds(1));
    for value in 1..=4 {
        let player = session(value);
        submit(&mut queue, player, 1, join(&catalog, 1), 0);
        queue.acknowledge(player.lobby_session_id, request(1));
    }
    let live_sessions: Vec<LobbySessionId> = [1, 3, 4].map(|value| LobbySessionId::new(value).unwrap()).to_vec();

    assert!(
        queue
            .reserve_oldest_exact(&catalog, MatchReservationId::new(9).unwrap(), &live_sessions)
            .is_none(),
        "three live players plus one stale ticket must not form a 2v2 match"
    );
    assert_eq!(queue.reservation_count(), 0);
    assert_eq!(queue.snapshot().pools[0].queued, 4);
    assert!(queue.indexes_are_valid());
}

#[test]
fn exact_six_player_catalog_entry_forms_balanced_3v3() {
    let catalog = catalog();
    let mut queue = QueueState::with_id_source(&catalog, SequentialTicketIds(1));
    for value in 1..=6 {
        let player = session(value);
        submit(&mut queue, player, 1, join_pool(&catalog, 2, 1), 0);
        queue.acknowledge(player.lobby_session_id, request(1));
    }
    let live_sessions: Vec<LobbySessionId> = (1..=6).map(|value| LobbySessionId::new(value).unwrap()).collect();
    let reservation = queue
        .reserve_oldest_exact(&catalog, MatchReservationId::new(20).unwrap(), &live_sessions)
        .unwrap();
    assert_eq!(reservation.players_per_team, 3);
    assert_eq!(reservation.participants.iter().filter(|participant| participant.team == 0).count(), 3);
    assert_eq!(reservation.participants.iter().filter(|participant| participant.team == 1).count(), 3);
}

#[test]
fn revision_and_admission_order_exhaustion_do_not_partially_mutate() {
    let catalog = catalog();
    let player = session(1);
    let mut queue = QueueState::with_id_source(&catalog, SequentialTicketIds(1));
    queue.advance_counters(u64::MAX, 0);
    let result = submit(&mut queue, player, 1, join(&catalog, 1), 0);
    assert!(result.outcome_ready() && !result.snapshot_changed());
    assert_eq!(queue.ticket_count(), 0);
    assert!(queue.indexes_are_valid());

    let mut queue = QueueState::with_id_source(&catalog, SequentialTicketIds(1));
    queue.advance_counters(0, u64::MAX);
    let result = submit(&mut queue, player, 1, join(&catalog, 1), 0);
    assert!(result.outcome_ready() && !result.snapshot_changed());
    assert_eq!(queue.ticket_count(), 0);
    assert_eq!(queue.state_revision(), 1);
    assert!(queue.indexes_are_valid());
}

#[test]
fn disconnect_at_revision_exhaustion_cleans_internal_state_and_fails_generation() {
    let catalog = catalog();
    let player = session(1);
    let mut queue = QueueState::with_id_source(&catalog, SequentialTicketIds(1));
    submit(&mut queue, player, 1, join(&catalog, 1), 0);
    assert_eq!(queue.ticket_count(), 1);
    queue.advance_counters(u64::MAX, 0);

    assert!(queue.remove_session(player.lobby_session_id));

    assert_eq!(queue.ticket_count(), 0);
    assert_eq!(queue.snapshot().pools[0].queued, 0);
    assert_eq!(queue.state_revision(), u64::MAX);
    assert!(queue.revision_exhausted());
    assert!(queue.indexes_are_valid());
    assert_eq!(queue.telemetry().disconnect_removals, 1);
}

#[test]
fn advanced_counters_never_move_back() {
    let catalog = catalog();
    let mut queue = QueueState::with_id_source(&catalog, SequentialTicketIds(1));
    queue.advance_counters(7, 9);
    assert_eq!(queue.state_revision(), 7);
    assert_eq!(queue.next_admission_order(), 9);
    queue.advance_counters(3, 4);
    assert_eq!(queue.state_revision(), 7);
    assert_eq!(queue.next_admission_order(), 9);
    let player = session(1);
    let result = submit(&mut queue, player, 1, join(&catalog, 1), 0);
    assert!(result.outcome_ready() && result.snapshot_changed());
    assert_eq!(queue.state_revision(), 8);
    assert_eq!(queue.next_admission_order(), 10);
    assert!(queue.indexes_are_valid());
}
