use brawler_server::ids::{
    AllocationId, BrawlerId, LobbySessionId, MatchId, NetcodeClientId, PeerId, RequestId, RouteId,
};
use brawler_server::lobby::formation::ProductFormationState;
use brawler_server::lobby::model::{
    LobbyAllocationError, LobbyCompatibility, LobbyHello, LobbyManifest, LobbySessionError, M01MapPreset,
    M01Maps, MAX_AUTHENTICATED_LOBBY_SESSIONS, M01_PARTICIPANT_COUNT,
};
use brawler_server::lobby::routing::{
    ActivationBody, AllocationGrant, AllocationGrantedBody, AllocationRejectedBody, CodecError, ControlBody,
    ControlFrame, GameMode, LobbyCapacityBody, RouteCapability,
};
use brawler_server::lobby::model::{LobbyJoinRejection, RoutingModes};
use brawler_server::lobby::state::{LobbySessionIdSource, LobbyState, routing_mode_for_definition};
use brawler_server::session::LobbyBuildIdentity;
use brawler_server::wire::BuildSnapshot;
use std::collections::BTreeSet;

struct DeterministicSessionIds {
    next: u128,
}

impl LobbySessionIdSource for DeterministicSessionIds {
    fn next(&mut self) -> Option<LobbySessionId> {
        let id = LobbySessionId::new(self.next)?;
        self.next = self.next.checked_add(1)?;
        Some(id)
    }
}

struct RepeatingSessionIds(u128);

impl LobbySessionIdSource for RepeatingSessionIds {
    fn next(&mut self) -> Option<LobbySessionId> {
        LobbySessionId::new(self.0)
    }
}

fn manifest() -> LobbyManifest {
    LobbyManifest { protocol_registry_fingerprint: 7, content_fingerprint: 8, max_authenticated_sessions: 32 }
}

fn compatibility() -> LobbyCompatibility {
    LobbyCompatibility { protocol_version: 3, build_version: "0.1.0".to_string() }
}

fn build() -> LobbyBuildIdentity {
    LobbyBuildIdentity {
        recipe_fingerprint: 123,
        build_revision: 4,
        snapshot: BuildSnapshot {
            brawler_id: BrawlerId::new(1).unwrap(),
            brawler_revision: 1,
            weapon_base_id: 1,
            ultimate_id: 1,
            passive_ids: [3, 4],
        },
    }
}

fn maps() -> M01Maps {
    M01Maps {
        wipeout: M01MapPreset { preset: 7, admission_revision: Some(2) },
        hot_zone: M01MapPreset { preset: 8, admission_revision: Some(3) },
        heist: M01MapPreset { preset: 9, admission_revision: None },
    }
}

fn hello() -> LobbyHello {
    LobbyHello { protocol_version: 3, build_version: "0.1.0".to_string(), registry_fingerprint: 7, content_fingerprint: 8 }
}

/// The display-name candidates of a proposal: the proposal itself, then its numbered
/// duplicates.
fn names(base: &str) -> Vec<Option<String>> {
    let mut candidates = vec![Some(base.to_string())];
    for suffix in 2..=33 {
        candidates.push(Some(format!("{base} #{suffix}")));
    }
    candidates
}

fn state() -> LobbyState<DeterministicSessionIds> {
    LobbyState::with_id_source(manifest(), compatibility(), GameMode::Wipeout, build(), maps(), DeterministicSessionIds { next: 1 })
}

fn authenticate(state: &mut LobbyState<DeterministicSessionIds>, client: u64, route: u128, peer: u128) {
    state
        .accept_client(client, RouteId::new(route).unwrap(), PeerId::new(peer).unwrap(), &hello(), &names("Brawler-Test"))
        .unwrap();
}

fn admit_two(state: &mut LobbyState<DeterministicSessionIds>) {
    authenticate(state, 11, 20, 21);
    authenticate(state, 12, 22, 23);
}

fn capability(byte: u8) -> Option<RouteCapability> {
    Some(RouteCapability([byte; 32]))
}

fn grants_for(sessions: &[(u128, u128, u128)]) -> Vec<AllocationGrant> {
    sessions
        .iter()
        .map(|&(session, route, peer)| AllocationGrant {
            lobby_session_id: LobbySessionId::new(session).unwrap(),
            route_id: RouteId::new(route).unwrap(),
            peer_id: PeerId::new(peer).unwrap(),
            capability: capability(u8::try_from(session).unwrap()),
            activation_expiry_unix_ms: 100,
            route_expiry_unix_ms: 200,
        })
        .collect()
}

fn granted(request_id: RequestId, grants: Vec<AllocationGrant>) -> AllocationGrantedBody {
    AllocationGrantedBody {
        request_id,
        allocation_id: AllocationId::new(5).unwrap(),
        match_id: MatchId::new(6).unwrap(),
        grants,
    }
}

#[test]
fn mod_sessions_are_bounded_and_ids_are_fresh_nonzero() {
    let mut state = state();
    let mut ids = BTreeSet::new();
    for client in 1..=32 {
        let session = state
            .accept_client(
                client,
                RouteId::new(u128::from(client)).unwrap(),
                PeerId::new(u128::from(client)).unwrap(),
                &hello(),
                &names("Brawler-Test"),
            )
            .unwrap();
        assert!(ids.insert(session.lobby_session_id));
        assert_ne!(session.lobby_session_id.get(), 0);
    }
    assert_eq!(state.session_count(), MAX_AUTHENTICATED_LOBBY_SESSIONS);
    assert_eq!(state.accept_client(33, RouteId::new(33).unwrap(), PeerId::new(33).unwrap(), &hello(), &names("Brawler-Test")).err(), Some(LobbySessionError::ServerFull));
}

#[test]
fn lobby_sessions_are_bounded_and_ids_are_fresh_nonzero() {
    let mut state = state();
    let mut ids = BTreeSet::new();
    for client in 1..=32 {
        let session = state
            .accept_client(
                client,
                RouteId::new(u128::from(client)).unwrap(),
                PeerId::new(u128::from(client)).unwrap(),
                &hello(),
                &names("Brawler-Test"),
            )
            .unwrap();
        assert!(ids.insert(session.lobby_session_id));
        assert_ne!(session.lobby_session_id.get(), 0);
    }
    assert_eq!(state.session_count(), MAX_AUTHENTICATED_LOBBY_SESSIONS);
    assert_eq!(state.accept_client(33, RouteId::new(33).unwrap(), PeerId::new(33).unwrap(), &hello(), &names("Brawler-Test")).err(), Some(LobbySessionError::ServerFull));
}

#[test]
fn mod_compatibility_and_non_netcode_identity_are_rejected() {
    let mut state = state();
    let mut bad = hello();
    bad.protocol_version += 1;
    assert_eq!(state.accept_client(1, RouteId::new(1).unwrap(), PeerId::new(1).unwrap(), &bad, &names("Brawler-Test")).err(), Some(LobbySessionError::ProtocolVersionMismatch));
    assert_eq!(state.accept_client(0, RouteId::new(1).unwrap(), PeerId::new(1).unwrap(), &hello(), &names("Brawler-Test")).err(), Some(LobbySessionError::InvalidClientId));
}

#[test]
fn lobby_compatibility_and_non_netcode_identity_are_rejected() {
    let mut state = state();
    let mut bad = hello();
    bad.protocol_version += 1;
    assert_eq!(state.accept_client(1, RouteId::new(1).unwrap(), PeerId::new(1).unwrap(), &bad, &names("Brawler-Test")).err(), Some(LobbySessionError::ProtocolVersionMismatch));
    assert_eq!(state.accept_client(0, RouteId::new(1).unwrap(), PeerId::new(1).unwrap(), &hello(), &names("Brawler-Test")).err(), Some(LobbySessionError::InvalidClientId));
}

#[test]
fn every_compatibility_mismatch_has_its_error() {
    let mut state = state();
    let route = RouteId::new(1).unwrap();
    let peer = PeerId::new(1).unwrap();
    let mut build_version = hello();
    build_version.build_version = "0.2.0".to_string();
    assert_eq!(state.accept_client(1, route, peer, &build_version, &names("A")).err(), Some(LobbySessionError::BuildVersionMismatch));
    let mut registry = hello();
    registry.registry_fingerprint = 70;
    assert_eq!(state.accept_client(1, route, peer, &registry, &names("A")).err(), Some(LobbySessionError::RegistryMismatch));
    let mut content = hello();
    content.content_fingerprint = 80;
    assert_eq!(state.accept_client(1, route, peer, &content, &names("A")).err(), Some(LobbySessionError::ContentMismatch));
    assert_eq!(state.accept_client(1, route, peer, &hello(), &Vec::new()).err(), Some(LobbySessionError::InvalidName));
    assert_eq!(state.accept_client(1, route, peer, &hello(), &vec![None]).err(), Some(LobbySessionError::InvalidName));
    assert_eq!(state.session_count(), 0);
}

#[test]
fn exhausted_session_identities_are_reported() {
    let mut state = LobbyState::with_id_source(
        manifest(),
        compatibility(),
        GameMode::Wipeout,
        build(),
        maps(),
        RepeatingSessionIds(9),
    );
    state.accept_client(1, RouteId::new(1).unwrap(), PeerId::new(1).unwrap(), &hello(), &names("A")).unwrap();
    assert_eq!(state.accept_client(2, RouteId::new(2).unwrap(), PeerId::new(2).unwrap(), &hello(), &names("B")).err(), Some(LobbySessionError::IdentifierExhausted));
    assert_eq!(state.session_count(), 1);
}

#[test]
fn repeated_hello_returns_the_same_session() {
    let mut state = state();
    let first = state
        .accept_client(11, RouteId::new(20).unwrap(), PeerId::new(21).unwrap(), &hello(), &names("Brawler-Test"))
        .unwrap();
    let again = state
        .accept_client(11, RouteId::new(90).unwrap(), PeerId::new(91).unwrap(), &hello(), &names("Other"))
        .unwrap();
    assert!(first == again);
    assert_eq!(state.session_count(), 1);
    assert!(state.session_for_client(11) == Some(&first));
    assert!(state.session_for_client(0).is_none());
}

#[test]
fn sessions_alternate_teams() {
    let mut state = state();
    authenticate(&mut state, 11, 20, 21);
    authenticate(&mut state, 12, 22, 23);
    authenticate(&mut state, 13, 24, 25);
    assert_eq!(state.session_for_client(11).unwrap().team, 0);
    assert_eq!(state.session_for_client(12).unwrap().team, 1);
    assert_eq!(state.session_for_client(13).unwrap().team, 0);
    assert_eq!(state.session_for_client(13).unwrap().player_id.get(), 3);
    assert_eq!(state.session_for_client(13).unwrap().network_entity_id.get(), 3);
}

#[test]
fn mod_exact_two_roster_emits_one_idempotent_request() {
    let mut state = state();
    admit_two(&mut state);
    let first = state.pending_allocate_request().unwrap().unwrap();
    let second = state.pending_allocate_request().unwrap().unwrap();
    assert_eq!(first, second);
    let body = first;
    assert_eq!(body.participants.len(), M01_PARTICIPANT_COUNT);
    assert_eq!(body.request_id.get(), 1);
    assert_eq!(body.participants[0].lobby_session_id.get(), 1);
    assert_eq!(body.participants[1].lobby_session_id.get(), 2);
    assert_eq!(body.map_preset, 7);
    assert_eq!(body.map_revision, 2);
    assert_eq!(body.objective_target, 10);
    assert_eq!(body.match_duration_ticks, 10_800);
    assert_eq!(body.participants[1].display_name, "Brawler-Test #2");
}

#[test]
fn lobby_exact_two_roster_emits_one_idempotent_request() {
    let mut state = state();
    admit_two(&mut state);
    let first = state.pending_allocate_request().unwrap().unwrap();
    let second = state.pending_allocate_request().unwrap().unwrap();
    assert_eq!(first, second);
    let body = first;
    assert_eq!(body.participants.len(), M01_PARTICIPANT_COUNT);
    assert_eq!(body.request_id.get(), 1);
    assert_eq!(body.participants[0].lobby_session_id.get(), 1);
    assert_eq!(body.participants[1].lobby_session_id.get(), 2);
    assert_eq!(body.map_preset, 7);
    assert_eq!(body.map_revision, 2);
    assert_eq!(body.objective_target, 10);
    assert_eq!(body.match_duration_ticks, 10_800);
    assert_eq!(body.participants[1].display_name, "Brawler-Test #2");
}

#[test]
fn request_is_handed_to_the_outbox_once() {
    let mut state = state();
    admit_two(&mut state);
    assert!(state.unsent_allocate_request().unwrap().is_some());
    assert!(state.mark_allocate_request_queued());
    assert!(!state.mark_allocate_request_queued());
    assert!(state.unsent_allocate_request().unwrap().is_none());
    assert!(state.pending_allocate_request().unwrap().is_some());
}

#[test]
fn unadmitted_map_refuses_the_automatic_request() {
    let mut state = LobbyState::with_id_source(
        manifest(),
        compatibility(),
        GameMode::Heist,
        build(),
        maps(),
        DeterministicSessionIds { next: 1 },
    );
    state.accept_client(11, RouteId::new(20).unwrap(), PeerId::new(21).unwrap(), &hello(), &names("A")).unwrap();
    state.accept_client(12, RouteId::new(22).unwrap(), PeerId::new(23).unwrap(), &hello(), &names("B")).unwrap();
    assert_eq!(state.pending_allocate_request(), Err(CodecError::InvalidValue));
}

#[test]
fn accepted_names_suffix_deterministically_and_welcome_is_once_per_session() {
    let mut state = state();
    for client_id in [11, 12, 13] {
        authenticate(&mut state, client_id, u128::from(client_id) + 10, u128::from(client_id) + 20);
    }
    assert_eq!(state.accepted_name(NetcodeClientId::new(11).unwrap()), Some("Brawler-Test"));
    assert_eq!(state.accepted_name(NetcodeClientId::new(12).unwrap()), Some("Brawler-Test #2"));
    let third = NetcodeClientId::new(13).unwrap();
    assert_eq!(state.accepted_name(third), Some("Brawler-Test #3"));
    assert!(state.mark_welcome_sent(third));
    assert!(!state.mark_welcome_sent(third));
    assert!(state.remove_client(13).is_some());
    assert!(state.mark_welcome_sent(third));
}

#[test]
fn mod_matching_grants_are_delivered_once_to_authenticated_clients() {
    let mut state = state();
    admit_two(&mut state);
    let request = state.pending_allocate_request().unwrap().unwrap();
    let request_id = request.request_id;
    state.apply_allocation_granted(granted(request_id, grants_for(&[(1, 31, 41), (2, 32, 42)]))).unwrap();
    let first = state.take_route_grant(11).unwrap();
    assert_eq!(first.request_id, request_id);
    assert_eq!(first.route_id.get(), 31);
    assert!(state.take_route_grant(11).is_none());
    assert_eq!(state.take_route_grant(12).unwrap().route_id.get(), 32);
    assert!(state.pending_allocate_request().unwrap().is_none());
}

#[test]
fn lobby_matching_grants_are_delivered_once_to_authenticated_clients() {
    let mut state = state();
    admit_two(&mut state);
    let request = state.pending_allocate_request().unwrap().unwrap();
    let request_id = request.request_id;
    state.apply_allocation_granted(granted(request_id, grants_for(&[(1, 31, 41), (2, 32, 42)]))).unwrap();
    let first = state.take_route_grant(11).unwrap();
    assert_eq!(first.request_id, request_id);
    assert_eq!(first.route_id.get(), 31);
    assert!(state.take_route_grant(11).is_none());
    assert_eq!(state.take_route_grant(12).unwrap().route_id.get(), 32);
    assert!(state.pending_allocate_request().unwrap().is_none());
}

#[test]
fn mod_completed_clients_can_return_to_fresh_lobby_without_implicit_requeue() {
    let mut state = state();
    admit_two(&mut state);
    let request_id = state.pending_allocate_request().unwrap().unwrap().request_id;
    state.apply_allocation_granted(granted(request_id, grants_for(&[(1, 31, 41), (2, 32, 42)]))).unwrap();

    assert!(state.remove_client(11).is_some());
    assert!(state.remove_client(12).is_some());
    authenticate(&mut state, 11, 50, 51);
    authenticate(&mut state, 12, 52, 53);
    assert!(state.pending_allocate_request().unwrap().is_none());

    assert!(state.remove_client(11).is_some());
    assert!(state.remove_client(12).is_some());
    authenticate(&mut state, 13, 60, 61);
    authenticate(&mut state, 14, 62, 63);
    let request = state.pending_allocate_request().unwrap().unwrap();
    assert_eq!(
        request.participants.iter().map(|participant| participant.netcode_client_id.get()).collect::<Vec<_>>(),
        vec![13, 14]
    );
}

#[test]
fn lobby_completed_clients_can_return_to_fresh_lobby_without_implicit_requeue() {
    let mut state = state();
    admit_two(&mut state);
    let request_id = state.pending_allocate_request().unwrap().unwrap().request_id;
    state.apply_allocation_granted(granted(request_id, grants_for(&[(1, 31, 41), (2, 32, 42)]))).unwrap();

    assert!(state.remove_client(11).is_some());
    assert!(state.remove_client(12).is_some());
    authenticate(&mut state, 11, 50, 51);
    authenticate(&mut state, 12, 52, 53);
    assert!(state.pending_allocate_request().unwrap().is_none());

    assert!(state.remove_client(11).is_some());
    assert!(state.remove_client(12).is_some());
    authenticate(&mut state, 13, 60, 61);
    authenticate(&mut state, 14, 62, 63);
    let request = state.pending_allocate_request().unwrap().unwrap();
    assert_eq!(
        request.participants.iter().map(|participant| participant.netcode_client_id.get()).collect::<Vec<_>>(),
        vec![13, 14]
    );
}

#[test]
fn mod_mismatched_allocation_response_does_not_consume_request() {
    let mut state = state();
    admit_two(&mut state);
    let request = state.pending_allocate_request().unwrap().unwrap();
    let request_id = request.request_id;
    let error = state
        .apply_allocation_rejected(AllocationRejectedBody {
            request_id: RequestId::new(request_id.get() + 1).unwrap(),
            reason: 1,
            retry_after_ms: 10,
        })
        .unwrap_err();
    assert_eq!(error, LobbyAllocationError::RequestMismatch);
    assert!(state.pending_allocate_request().unwrap().is_some());
}

#[test]
fn lobby_mismatched_allocation_response_does_not_consume_request() {
    let mut state = state();
    admit_two(&mut state);
    let request = state.pending_allocate_request().unwrap().unwrap();
    let request_id = request.request_id;
    let error = state
        .apply_allocation_rejected(AllocationRejectedBody {
            request_id: RequestId::new(request_id.get() + 1).unwrap(),
            reason: 1,
            retry_after_ms: 10,
        })
        .unwrap_err();
    assert_eq!(error, LobbyAllocationError::RequestMismatch);
    assert!(state.pending_allocate_request().unwrap().is_some());
}

#[test]
fn mod_disconnect_revokes_pending_transaction_once() {
    let mut state = state();
    admit_two(&mut state);
    assert!(state.pending_allocate_request().unwrap().is_some());
    assert!(state.remove_client(11).is_some());
    assert!(state.remove_client(11).is_none());
    assert!(state.pending_allocate_request().unwrap().is_none());
    assert_eq!(state.session_count(), 1);
}

#[test]
fn lobby_disconnect_revokes_pending_transaction_once() {
    let mut state = state();
    admit_two(&mut state);
    assert!(state.pending_allocate_request().unwrap().is_some());
    assert!(state.remove_client(11).is_some());
    assert!(state.remove_client(11).is_none());
    assert!(state.pending_allocate_request().unwrap().is_none());
    assert_eq!(state.session_count(), 1);
}

#[test]
fn grant_responses_are_validated_in_order() {
    let mut state = state();
    assert_eq!(
        state.apply_allocation_granted(granted(RequestId::new(1).unwrap(), Vec::new())),
        Err(LobbyAllocationError::NoPendingRequest)
    );
    admit_two(&mut state);
    let request_id = state.pending_allocate_request().unwrap().unwrap().request_id;
    assert_eq!(
        state.apply_allocation_granted(granted(request_id, grants_for(&[(1, 31, 41)]))),
        Err(LobbyAllocationError::InvalidGrantCount)
    );
    assert_eq!(
        state.apply_allocation_granted(granted(request_id, grants_for(&[(1, 31, 41), (1, 32, 42)]))),
        Err(LobbyAllocationError::DuplicateSession)
    );
    assert_eq!(
        state.apply_allocation_granted(granted(request_id, grants_for(&[(1, 31, 41), (9, 32, 42)]))),
        Err(LobbyAllocationError::UnknownSession)
    );
    let mut no_capability = grants_for(&[(1, 31, 41), (2, 32, 42)]);
    no_capability[1].capability = None;
    assert_eq!(
        state.apply_allocation_granted(granted(request_id, no_capability)),
        Err(LobbyAllocationError::InvalidCapability)
    );
    let mut late_activation = grants_for(&[(1, 31, 41), (2, 32, 42)]);
    late_activation[0].activation_expiry_unix_ms = 300;
    assert_eq!(
        state.apply_allocation_granted(granted(request_id, late_activation)),
        Err(LobbyAllocationError::InvalidExpiry)
    );
    assert!(state.pending_allocate_request().unwrap().is_some());
    state.apply_allocation_granted(granted(request_id, grants_for(&[(2, 32, 42), (1, 31, 41)]))).unwrap();
}

#[test]
fn rejection_allows_a_retry_with_a_fresh_request_identity() {
    let mut state = state();
    admit_two(&mut state);
    let first = state.pending_allocate_request().unwrap().unwrap().request_id;
    state.apply_allocation_rejected(AllocationRejectedBody { request_id: first, reason: 1, retry_after_ms: 10 }).unwrap();
    assert!(state.take_allocation_rejected());
    assert!(!state.take_allocation_rejected());
    let second = state.pending_allocate_request().unwrap().unwrap().request_id;
    assert_eq!(second.get(), first.get() + 1);
}

#[test]
fn control_frames_drive_activation_and_capacity() {
    let mut state = state();
    admit_two(&mut state);
    let request_id = state.pending_allocate_request().unwrap().unwrap().request_id;
    let frame = ControlFrame {
        body: ControlBody::AllocationGranted(granted(request_id, grants_for(&[(1, 31, 41), (2, 32, 42)]))),
    };
    state.apply_control_frame(frame).unwrap();
    let activation = ActivationBody {
        request_id,
        allocation_id: AllocationId::new(5).unwrap(),
        match_id: MatchId::new(6).unwrap(),
    };
    let other = ActivationBody { match_id: MatchId::new(60).unwrap(), ..activation };
    assert_eq!(
        state.apply_control_frame(ControlFrame { body: ControlBody::Activated(other) }),
        Err(LobbyAllocationError::RequestMismatch)
    );
    state.apply_control_frame(ControlFrame { body: ControlBody::Activated(activation) }).unwrap();
    assert!(state.take_product_activated());
    assert!(!state.take_product_activated());
    state.apply_control_frame(ControlFrame { body: ControlBody::ActivationDissolved(activation) }).unwrap();
    assert!(state.take_product_dissolved());
    state
        .apply_control_frame(ControlFrame { body: ControlBody::LobbyCapacity(LobbyCapacityBody { free_match_slots: 3 }) })
        .unwrap();
    assert_eq!(state.free_match_slots(), 3);
    assert_eq!(state.apply_control_frame(ControlFrame { body: ControlBody::Other }), Err(LobbyAllocationError::RequestMismatch));
}

#[test]
fn product_cancellation_before_activation_waits_for_the_activation() {
    let mut state = state();
    admit_two(&mut state);
    let request_id = state.unsent_allocate_request().unwrap().unwrap().request_id;
    assert!(state.mark_allocate_request_queued());
    assert_eq!(state.cancel_product_allocation(), None);
    assert_eq!(state.take_deferred_product_cancel(), None);
    state.apply_allocation_granted(granted(request_id, grants_for(&[(1, 31, 41), (2, 32, 42)]))).unwrap();
    let fact = state.take_deferred_product_cancel().unwrap();
    assert_eq!(fact.request_id, request_id);
    assert!(state.take_route_grant(11).is_none());
    assert_eq!(state.take_deferred_product_cancel(), None);
}

#[test]
fn completing_activation_clears_grants_and_transaction() {
    let mut state = state();
    admit_two(&mut state);
    let request_id = state.pending_allocate_request().unwrap().unwrap().request_id;
    state.apply_allocation_granted(granted(request_id, grants_for(&[(1, 31, 41), (2, 32, 42)]))).unwrap();
    state.complete_product_activation();
    assert!(state.take_route_grant(11).is_none());
    assert_eq!(state.cancel_product_allocation(), None);
}

#[test]
fn detached_client_keeps_its_grant() {
    let mut state = state();
    admit_two(&mut state);
    let request_id = state.pending_allocate_request().unwrap().unwrap().request_id;
    state.apply_allocation_granted(granted(request_id, grants_for(&[(1, 31, 41), (2, 32, 42)]))).unwrap();
    let detached = state.detach_client(11).unwrap();
    assert_eq!(detached.lobby_session_id.get(), 1);
    assert!(state.detach_client(11).is_none());
    assert_eq!(state.session_count(), 1);
    assert_eq!(state.accepted_name(NetcodeClientId::new(11).unwrap()), None);
    assert!(state.take_route_grant(11).is_some());
}

#[test]
fn lobby_identities_are_listed_and_found() {
    let mut state = state();
    admit_two(&mut state);
    let ids: Vec<u128> = state.authenticated_session_ids().iter().map(|id| id.get()).collect();
    assert_eq!(ids, vec![1, 2]);
    assert_eq!(state.session_by_lobby_id(LobbySessionId::new(2).unwrap()).unwrap().netcode_client_id.get(), 12);
    assert!(state.session_by_lobby_id(LobbySessionId::new(3).unwrap()).is_none());
    assert_eq!(state.mode(), GameMode::Wipeout);
    assert_eq!(state.manifest().max_authenticated_sessions, 32);
}

#[test]
fn formation_sequences_start_at_one_per_session() {
    let mut formation = ProductFormationState::new();
    let first = LobbySessionId::new(1).unwrap();
    let second = LobbySessionId::new(2).unwrap();
    assert_eq!(formation.next_sequence(first), 1);
    assert_eq!(formation.next_sequence(first), 2);
    assert_eq!(formation.next_sequence(second), 1);
    formation.loading_deadline_millis = Some(30_000);
    formation.clear_active();
    assert!(formation.active.is_none());
    assert!(formation.loading_deadline_millis.is_none());
    assert_eq!(formation.next_sequence(first), 3);
}

#[test]
fn session_errors_map_to_join_rejections() {
    assert_eq!(LobbySessionError::ProtocolVersionMismatch.rejection(), LobbyJoinRejection::ProtocolVersionMismatch);
    assert_eq!(LobbySessionError::InvalidName.rejection(), LobbyJoinRejection::InvalidName);
    assert_eq!(LobbySessionError::IdentifierExhausted.rejection(), LobbyJoinRejection::IdentifierExhausted);
    assert_eq!(LobbySessionError::NotRouted.rejection(), LobbyJoinRejection::ServerFull);
    assert_eq!(LobbySessionError::InvalidClientId.rejection(), LobbyJoinRejection::ServerFull);
}

#[test]
fn only_routed_mode_definitions_have_a_mode() {
    let modes = RoutingModes { wipeout: 1, hot_zone: 2, heist: 3 };
    assert_eq!(routing_mode_for_definition(modes, 2), Some(GameMode::HotZone));
    assert_eq!(routing_mode_for_definition(modes, 3), Some(GameMode::Heist));
    assert_eq!(routing_mode_for_definition(modes, 9), None);
}
