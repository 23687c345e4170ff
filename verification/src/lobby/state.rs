//! The executable lobby authority.

use vstd::prelude::*;
use crate::ids::{
    LobbySessionId, MatchReservationId, NetcodeClientId, NetworkEntityId, PeerId, PlayerId, RequestId, RouteId,
};
use crate::session::{LobbyBuildIdentity, LobbySession};
use crate::catalog::{AdvertisedGameType, ResolvedLobbyCatalog};
use crate::wire::{AcceptedBuildSummary, GameTypeId, same_game};
use crate::lobby::practice::{
    practice_bot_rows, practice_request_created, PracticeStartRejection, PracticeStartRequest,
    ReservationStarted,
};
use crate::queue::state::{QueueState, QueueTicketIdSource};
use crate::queue::model::{QueueReservation, as_value, found_at, lemma_first_index_at, lemma_first_index_facts, lemma_first_index_none};
use crate::lobby::routing::{
    ActivationBody, AllocateParticipant, AllocateRequestBody, AllocationGrantedBody, AllocationRejectedBody,
    BotView, CodecError, ControlBody, ControlFrame, GameMode, MatchRouteGrant, RequestView,
};
use crate::lobby::model::{
    accepted, hello_error, name_from, name_used, NAME_CANDIDATES, request_created, roster_allocated_before,
    ordered_pair, participant_of, m01_objective, M01_PARTICIPANT_COUNT, granted, rejected, control_applied,
    grants_error, grant_client, route_grant_of, new_identity_count, grants_recorded, with_client, with_grant,
    lemma_grants_error_sticky, RoutingModes, routing_mode, game_index, product_request_created, reserved_rows,
    lemma_reserved_rows_none, MAX_ALLOCATED_LOBBY_CLIENT_IDS,
    ClientGrant, LobbyAllocationError, LobbyCompatibility, LobbyHello, LobbyManifest, LobbySessionError, LobbyView,
    M01Maps, MAX_AUTHENTICATED_LOBBY_SESSIONS, SESSION_ID_DRAWS, activation_completed, client_detached,
    client_position, client_removed, deferred_cancel_taken, grant_index, grant_taken, lobby_id_index,
    lobby_id_used, name_index, name_of, pending_body, product_cancelled, queued_marked, session_index,
    session_of, unsent_body, welcome_marked, without_client, };

verus! {

/// The routed game mode of mode definition `definition`, if it is routed.
pub fn routing_mode_for_definition(modes: RoutingModes, definition: u16) -> (mode: Option<GameMode>)
    ensures
        mode == routing_mode(modes, definition),
{
    if definition == modes.wipeout {
        Some(GameMode::Wipeout)
    } else if definition == modes.hot_zone {
        Some(GameMode::HotZone)
    } else if definition == modes.heist {
        Some(GameMode::Heist)
    } else {
        None
    }
}

/// Source of fresh nonzero lobby-session identities.
pub trait LobbySessionIdSource: Send + Sync {
    fn next(&mut self) -> Option<LobbySessionId>;
}

/// The allocation request of the open transaction and whether it was handed to the outbox.
struct PendingAllocation {
    body: AllocateRequestBody,
    sent: bool,
}

/// The accepted display name of one client.
struct AcceptedName {
    client: NetcodeClientId,
    name: String,
}

/// Marker linking a client link to one authenticated lobby session.
#[derive(Clone, Copy, PartialEq, Eq, Structural)]
pub struct LobbyClient {
    pub client_id: NetcodeClientId,
    pub lobby_session_id: LobbySessionId,
}

/// Pure, bounded lobby state: the authenticated roster and its supervisor allocation
/// transaction.
pub struct LobbyState<S> {
    manifest: LobbyManifest,
    compatibility: LobbyCompatibility,
    mode: GameMode,
    build: LobbyBuildIdentity,
    m01_maps: M01Maps,
    next_player_id: u64,
    next_network_entity_id: u64,
    next_request_id: u64,
    session_ids: S,
    sessions: Vec<LobbySession>,
    accepted_names: Vec<AcceptedName>,
    welcomed_clients: Vec<NetcodeClientId>,
    /// Clients that took part in an automatic allocation. These survive session teardown: the
    /// authenticated client identity is what keeps a returning client from being allocated
    /// again automatically.
    allocated_clients: Vec<NetcodeClientId>,
    pending: Option<PendingAllocation>,
    allocation_completed: bool,
    active_allocation: Option<ActivationBody>,
    allocation_rejected: bool,
    product_activated: bool,
    product_dissolved: bool,
    product_cancel_requested: bool,
    product_request: bool,
    free_match_slots: u8,
    grants: Vec<ClientGrant>,
}

/// The abstract value of the accepted names.
spec fn names_view(names: Seq<AcceptedName>) -> Seq<(NetcodeClientId, Seq<char>)> {
    names.map_values(|n: AcceptedName| (n.client, n.name@))
}

/// The abstract value of an optional request.
pub open spec fn body_view(body: Option<AllocateRequestBody>) -> Option<RequestView> {
    match body {
        Some(b) => Some(b@),
        None => None,
    }
}

/// The abstract value of display-name candidates.
pub open spec fn candidates_view(names: Seq<Option<String>>) -> Seq<Option<Seq<char>>> {
    names.map_values(
        |o: Option<String>|
            match o {
                Some(s) => Some(s@),
                None => None,
            },
    )
}

impl<S> View for LobbyState<S> {
    type V = LobbyView;

    closed spec fn view(&self) -> LobbyView {
        LobbyView {
            manifest: self.manifest,
            protocol_version: self.compatibility.protocol_version,
            build_version: self.compatibility.build_version@,
            mode: self.mode,
            build: self.build,
            m01_maps: self.m01_maps,
            next_player_id: self.next_player_id,
            next_network_entity_id: self.next_network_entity_id,
            next_request_id: self.next_request_id,
            sessions: self.sessions@,
            names: names_view(self.accepted_names@),
            welcomed: self.welcomed_clients@,
            allocated: self.allocated_clients@,
            pending: match self.pending {
                Some(p) => Some((p.body@, p.sent)),
                None => None,
            },
            allocation_completed: self.allocation_completed,
            active_allocation: self.active_allocation,
            allocation_rejected: self.allocation_rejected,
            product_activated: self.product_activated,
            product_dissolved: self.product_dissolved,
            product_cancel_requested: self.product_cancel_requested,
            product_request: self.product_request,
            free_match_slots: self.free_match_slots,
            grants: self.grants@,
        }
    }
}

/// The lobby of a worker that has authenticated nobody yet.
pub open spec fn initial_lobby(
    manifest: LobbyManifest,
    compatibility: LobbyCompatibility,
    mode: GameMode,
    build: LobbyBuildIdentity,
    m01_maps: M01Maps,
) -> LobbyView {
    LobbyView {
        manifest: manifest,
        protocol_version: compatibility.protocol_version,
        build_version: compatibility.build_version@,
        mode: mode,
        build: build,
        m01_maps: m01_maps,
        next_player_id: 1,
        next_network_entity_id: 1,
        next_request_id: 1,
        sessions: Seq::empty(),
        names: Seq::empty(),
        welcomed: Seq::empty(),
        allocated: Seq::empty(),
        pending: None,
        allocation_completed: false,
        active_allocation: None,
        allocation_rejected: false,
        product_activated: false,
        product_dissolved: false,
        product_cancel_requested: false,
        product_request: false,
        free_match_slots: 0,
        grants: Seq::empty(),
    }
}

impl<S: LobbySessionIdSource> LobbyState<S> {
    /// A lobby for `mode` that authenticates clients against `manifest` and `compatibility`,
    /// carries `build` in automatic allocations over `m01_maps`, and draws lobby-session
    /// identities from `session_ids`.
    pub fn with_id_source(
        manifest: LobbyManifest,
        compatibility: LobbyCompatibility,
        mode: GameMode,
        build: LobbyBuildIdentity,
        m01_maps: M01Maps,
        session_ids: S,
    ) -> (lobby: Self)
        ensures
            lobby@ == initial_lobby(manifest, compatibility, mode, build, m01_maps),
    {
        let lobby = LobbyState {
            manifest: manifest,
            compatibility: compatibility,
            mode: mode,
            build: build,
            m01_maps: m01_maps,
            next_player_id: 1,
            next_network_entity_id: 1,
            next_request_id: 1,
            session_ids: session_ids,
            sessions: Vec::new(),
            accepted_names: Vec::new(),
            welcomed_clients: Vec::new(),
            allocated_clients: Vec::new(),
            pending: None,
            allocation_completed: false,
            active_allocation: None,
            allocation_rejected: false,
            product_activated: false,
            product_dissolved: false,
            product_cancel_requested: false,
            product_request: false,
            free_match_slots: 0,
            grants: Vec::new(),
        };
        assert(names_view(lobby.accepted_names@) =~= Seq::empty());
        assert(lobby@ =~= initial_lobby(manifest, compatibility, mode, build, m01_maps));
        lobby
    }

    // -----------------------------------------------------------------------------------------
    // Lookups
    // -----------------------------------------------------------------------------------------

    fn find_session(&self, client: NetcodeClientId) -> (found: Option<usize>)
        ensures
            found_at(found, session_index(self@.sessions, client), self@.sessions.len() as int),
    {
        let mut i: usize = 0;
        while i < self.sessions.len()
            invariant
                i <= self.sessions@.len(),
                forall|j: int| 0 <= j < i ==> (#[trigger] self.sessions@[j]).netcode_client_id != client,
            decreases self.sessions@.len() - i,
        {
            if self.sessions[i].netcode_client_id == client {
                proof {
                    lemma_first_index_at(self.sessions@, |s: LobbySession| s.netcode_client_id == client, i as int);
                }
                return Some(i);
            }
            i = i + 1;
        }
        proof {
            lemma_first_index_none(self.sessions@, |s: LobbySession| s.netcode_client_id == client);
        }
        None
    }

    fn find_lobby_id(&self, id: LobbySessionId) -> (found: Option<usize>)
        ensures
            found_at(found, lobby_id_index(self@.sessions, id), self@.sessions.len() as int),
    {
        let mut i: usize = 0;
        while i < self.sessions.len()
            invariant
                i <= self.sessions@.len(),
                forall|j: int| 0 <= j < i ==> (#[trigger] self.sessions@[j]).lobby_session_id != id,
            decreases self.sessions@.len() - i,
        {
            if self.sessions[i].lobby_session_id == id {
                proof {
                    lemma_first_index_at(self.sessions@, |s: LobbySession| s.lobby_session_id == id, i as int);
                }
                return Some(i);
            }
            i = i + 1;
        }
        proof {
            lemma_first_index_none(self.sessions@, |s: LobbySession| s.lobby_session_id == id);
        }
        None
    }

    fn find_name(&self, client: NetcodeClientId) -> (found: Option<usize>)
        ensures
            found_at(found, name_index(self@.names, client), self@.names.len() as int),
    {
        let ghost names = self@.names;
        assert forall|j: int| 0 <= j < names.len() implies (#[trigger] names[j]).0 == self.accepted_names@[j].client by {}
        let mut i: usize = 0;
        while i < self.accepted_names.len()
            invariant
                i <= self.accepted_names@.len(),
                names == self@.names,
                names.len() == self.accepted_names@.len(),
                forall|j: int| 0 <= j < names.len() ==> (#[trigger] names[j]).0 == self.accepted_names@[j].client,
                forall|j: int| 0 <= j < i ==> (#[trigger] names[j]).0 != client,
            decreases self.accepted_names@.len() - i,
        {
            if self.accepted_names[i].client == client {
                proof {
                    assert(names[i as int].0 == client);
                    assert forall|j: int| 0 <= j < i implies !(|n: (NetcodeClientId, Seq<char>)| n.0 == client)(#[trigger] names[j]) by {
                        assert(names[j].0 != client);
                    }
                    lemma_first_index_at(names, |n: (NetcodeClientId, Seq<char>)| n.0 == client, i as int);
                    assert(names == self@.names);
                }
                return Some(i);
            }
            i = i + 1;
        }
        proof {
            lemma_first_index_none(names, |n: (NetcodeClientId, Seq<char>)| n.0 == client);
        }
        None
    }

    fn find_client(clients: &Vec<NetcodeClientId>, client: NetcodeClientId) -> (found: Option<usize>)
        ensures
            found_at(found, client_position(clients@, client), clients@.len() as int),
    {
        let mut i: usize = 0;
        while i < clients.len()
            invariant
                i <= clients@.len(),
                forall|j: int| 0 <= j < i ==> (#[trigger] clients@[j]) != client,
            decreases clients@.len() - i,
        {
            if clients[i] == client {
                proof {
                    lemma_first_index_at(clients@, |c: NetcodeClientId| c == client, i as int);
                }
                return Some(i);
            }
            i = i + 1;
        }
        proof {
            lemma_first_index_none(clients@, |c: NetcodeClientId| c == client);
        }
        None
    }

    fn find_grant(&self, client: NetcodeClientId) -> (found: Option<usize>)
        ensures
            found_at(found, grant_index(self@.grants, client), self@.grants.len() as int),
    {
        let mut i: usize = 0;
        while i < self.grants.len()
            invariant
                i <= self.grants@.len(),
                forall|j: int| 0 <= j < i ==> (#[trigger] self.grants@[j]).client != client,
            decreases self.grants@.len() - i,
        {
            if self.grants[i].client == client {
                proof {
                    lemma_first_index_at(self.grants@, |g: ClientGrant| g.client == client, i as int);
                }
                return Some(i);
            }
            i = i + 1;
        }
        proof {
            lemma_first_index_none(self.grants@, |g: ClientGrant| g.client == client);
        }
        None
    }

    // -----------------------------------------------------------------------------------------
    // Read-only accessors
    // -----------------------------------------------------------------------------------------

    /// The worker manifest the lobby authenticates against.
    pub fn manifest(&self) -> (manifest: &LobbyManifest)
        ensures
            *manifest == self@.manifest,
    {
        &self.manifest
    }

    /// The game mode of the lobby.
    pub fn mode(&self) -> (mode: GameMode)
        ensures
            mode == self@.mode,
    {
        self.mode
    }

    /// The number of authenticated sessions.
    pub fn session_count(&self) -> (count: usize)
        ensures
            count == self@.sessions.len(),
    {
        self.sessions.len()
    }

    /// The free match capacity the supervisor last reported.
    pub fn free_match_slots(&self) -> (slots: u8)
        ensures
            slots == self@.free_match_slots,
    {
        self.free_match_slots
    }

    /// The session of client `client_id`, if it is authenticated.
    pub fn session_for_client(&self, client_id: u64) -> (session: Option<&LobbySession>)
        ensures
            as_value(session) == session_of(self@, client_id),
    {
        if client_id == 0 {
            return None;
        }
        match self.find_session(NetcodeClientId(client_id)) {
            Some(i) => Some(&self.sessions[i]),
            None => None,
        }
    }

    /// The lobby identities of the authenticated sessions.
    pub fn authenticated_session_ids(&self) -> (ids: Vec<LobbySessionId>)
        ensures
            ids@ == self@.sessions.map_values(|s: LobbySession| s.lobby_session_id),
    {
        let mut ids: Vec<LobbySessionId> = Vec::new();
        let mut i: usize = 0;
        while i < self.sessions.len()
            invariant
                i <= self.sessions@.len(),
                ids@ == self@.sessions.map_values(|s: LobbySession| s.lobby_session_id).take(i as int),
            decreases self.sessions@.len() - i,
        {
            ids.push(self.sessions[i].lobby_session_id);
            i = i + 1;
            assert(ids@ =~= self@.sessions.map_values(|s: LobbySession| s.lobby_session_id).take(i as int));
        }
        assert(ids@ =~= self@.sessions.map_values(|s: LobbySession| s.lobby_session_id));
        ids
    }

    /// The session with lobby identity `id`, if it is authenticated.
    pub fn session_by_lobby_id(&self, id: LobbySessionId) -> (session: Option<LobbySession>)
        ensures
            session == (if lobby_id_index(self@.sessions, id) >= 0 {
                Some(self@.sessions[lobby_id_index(self@.sessions, id)])
            } else {
                None
            }),
    {
        match self.find_lobby_id(id) {
            Some(i) => Some(self.sessions[i]),
            None => None,
        }
    }

    /// The accepted display name of client `client`, if any.
    pub fn accepted_name(&self, client: NetcodeClientId) -> (name: Option<&str>)
        ensures
            match name {
                Some(n) => name_of(self@, client) == Some(n@),
                None => name_of(self@, client) is None,
            },
    {
        match self.find_name(client) {
            Some(i) => Some(self.accepted_names[i].name.as_str()),
            None => None,
        }
    }

    /// The identity of the pending request, if any.
    pub fn pending_request_id(&self) -> (id: Option<RequestId>)
        ensures
            id == (match pending_body(self@) {
                Some(body) => Some(body.request_id),
                None => None,
            }),
    {
        match &self.pending {
            Some(p) => Some(p.body.request_id),
            None => None,
        }
    }

    // -----------------------------------------------------------------------------------------
    // Session lifecycle
    // -----------------------------------------------------------------------------------------

    /// Record the welcome of client `client`: whether this is its first welcome.
    pub fn mark_welcome_sent(&mut self, client: NetcodeClientId) -> (first: bool)
        ensures
            (final(self)@, first) == welcome_marked(old(self)@, client),
    {
        proof {
            reveal(welcome_marked);
            lemma_first_index_facts(self@.welcomed, |c: NetcodeClientId| c == client);
        }
        match Self::find_client(&self.welcomed_clients, client) {
            Some(_) => {
                proof {
                    let i = client_position(self@.welcomed, client);
                    assert(self@.welcomed[i] == client);
                }
                false
            },
            None => {
                proof {
                    assert(!self@.welcomed.contains(client)) by {
                        if self@.welcomed.contains(client) {
                            let i = choose|i: int| 0 <= i < self@.welcomed.len() && self@.welcomed[i] == client;
                            assert((|c: NetcodeClientId| c == client)(self@.welcomed[i]));
                        }
                    }
                }
                self.welcomed_clients.push(client);
                true
            },
        }
    }

    /// Forget client `client`'s session, accepted name and welcome.
    fn forget_client(&mut self, client: NetcodeClientId)
        ensures
            final(self)@ == without_client(old(self)@, client),
    {
        let ghost v = self@;
        let ghost target = without_client(v, client);
        if let Some(s) = self.find_session(client) {
            self.sessions.remove(s);
        }
        assert(self.sessions@ == target.sessions);
        if let Some(n) = self.find_name(client) {
            let ghost before = self.accepted_names@;
            self.accepted_names.remove(n);
            proof {
                assert(names_view(self.accepted_names@) =~= names_view(before).remove(n as int));
            }
        }
        assert(names_view(self.accepted_names@) == target.names);
        if let Some(w) = Self::find_client(&self.welcomed_clients, client) {
            self.welcomed_clients.remove(w);
        }
        assert(self.welcomed_clients@ == target.welcomed);
    }

    /// Remove a disconnected client and revoke its grant. A pending allocation is cancelled
    /// locally, and a late supervisor response for it is ignored.
    pub fn remove_client(&mut self, client_id: u64) -> (removed: Option<LobbySession>)
        ensures
            (final(self)@, removed) == client_removed(old(self)@, client_id),
    {
        proof {
            reveal(client_removed);
        }
        if client_id == 0 {
            return None;
        }
        let client = NetcodeClientId(client_id);
        let session = match self.find_session(client) {
            Some(i) => self.sessions[i],
            None => return None,
        };
        self.forget_client(client);
        if let Some(g) = self.find_grant(client) {
            self.grants.remove(g);
        }
        self.pending = None;
        self.allocation_completed = false;
        Some(session)
    }

    /// Detach a client whose link went away: its session, name and welcome go, while grants and
    /// the allocation transaction stay.
    pub fn detach_client(&mut self, client_id: u64) -> (detached: Option<LobbySession>)
        ensures
            (final(self)@, detached) == client_detached(old(self)@, client_id),
    {
        proof {
            reveal(client_detached);
        }
        if client_id == 0 {
            return None;
        }
        let client = NetcodeClientId(client_id);
        let session = match self.find_session(client) {
            Some(i) => self.sessions[i],
            None => return None,
        };
        self.forget_client(client);
        Some(session)
    }

    // -----------------------------------------------------------------------------------------
    // Grants and the product allocation lifecycle
    // -----------------------------------------------------------------------------------------

    /// Take the grant of client `client_id`. A grant is delivered at most once.
    pub fn take_route_grant(&mut self, client_id: u64) -> (grant: Option<MatchRouteGrant>)
        ensures
            (final(self)@, grant) == grant_taken(old(self)@, client_id),
    {
        proof {
            reveal(grant_taken);
        }
        if client_id == 0 {
            return None;
        }
        match self.find_grant(NetcodeClientId(client_id)) {
            Some(g) => {
                let taken = self.grants.remove(g);
                Some(taken.grant)
            },
            None => None,
        }
    }

    /// Cancel the product allocation: a request already sent and not yet activated is cancelled
    /// once its activation arrives; otherwise the transaction closes now and its activation, if
    /// any, is returned for dissolution.
    pub fn cancel_product_allocation(&mut self) -> (activation: Option<ActivationBody>)
        ensures
            (final(self)@, activation) == product_cancelled(old(self)@),
    {
        proof {
            reveal(product_cancelled);
        }
        let sent = match &self.pending {
            Some(p) => p.sent,
            None => false,
        };
        if self.active_allocation.is_none() && sent {
            self.product_cancel_requested = true;
            self.grants = Vec::new();
            return None;
        }
        self.pending = None;
        self.allocation_completed = false;
        self.grants = Vec::new();
        let taken = self.active_allocation;
        self.active_allocation = None;
        taken
    }

    /// Take the activation of a cancelled request once it has arrived.
    pub fn take_deferred_product_cancel(&mut self) -> (activation: Option<ActivationBody>)
        ensures
            (final(self)@, activation) == deferred_cancel_taken(old(self)@),
    {
        proof {
            reveal(deferred_cancel_taken);
        }
        if !self.product_cancel_requested {
            return None;
        }
        let fact = match self.active_allocation {
            Some(fact) => fact,
            None => return None,
        };
        self.active_allocation = None;
        self.product_cancel_requested = false;
        self.allocation_completed = false;
        self.grants = Vec::new();
        Some(fact)
    }

    /// Whether a rejection arrived since the last call.
    pub fn take_allocation_rejected(&mut self) -> (rejected: bool)
        ensures
            rejected == old(self)@.allocation_rejected,
            final(self)@ == (LobbyView { allocation_rejected: false, ..old(self)@ }),
    {
        let rejected = self.allocation_rejected;
        self.allocation_rejected = false;
        rejected
    }

    /// Whether the product allocation was activated since the last call.
    pub fn take_product_activated(&mut self) -> (activated: bool)
        ensures
            activated == old(self)@.product_activated,
            final(self)@ == (LobbyView { product_activated: false, ..old(self)@ }),
    {
        let activated = self.product_activated;
        self.product_activated = false;
        activated
    }

    /// Whether the product allocation was dissolved since the last call.
    pub fn take_product_dissolved(&mut self) -> (dissolved: bool)
        ensures
            dissolved == old(self)@.product_dissolved,
            final(self)@ == (LobbyView { product_dissolved: false, ..old(self)@ }),
    {
        let dissolved = self.product_dissolved;
        self.product_dissolved = false;
        dissolved
    }

    /// Close the activated product allocation: the transaction and every grant are cleared.
    pub fn complete_product_activation(&mut self)
        ensures
            final(self)@ == activation_completed(old(self)@),
    {
        self.pending = None;
        self.allocation_completed = false;
        self.active_allocation = None;
        self.grants = Vec::new();
        self.product_cancel_requested = false;
        self.product_request = false;
    }
    // -----------------------------------------------------------------------------------------
    // Authentication
    // -----------------------------------------------------------------------------------------

    /// Check a hello against the lobby's compatibility. `names` lists the display-name
    /// candidates of the hello: the normalized proposal, then its numbered duplicates; an empty
    /// list, or an absent first candidate, means the proposal does not normalize.
    pub fn validate_hello(&self, hello: &LobbyHello, names: &Vec<Option<String>>) -> (checked: Result<(), LobbySessionError>)
        ensures
            checked == (match hello_error(self@, *hello, candidates_view(names@)) {
                Some(error) => Err(error),
                None => Ok(()),
            }),
    {
        if hello.protocol_version != self.compatibility.protocol_version {
            return Err(LobbySessionError::ProtocolVersionMismatch);
        }
        if hello.build_version != self.compatibility.build_version {
            return Err(LobbySessionError::BuildVersionMismatch);
        }
        if hello.registry_fingerprint != self.manifest.protocol_registry_fingerprint {
            return Err(LobbySessionError::RegistryMismatch);
        }
        if hello.content_fingerprint != self.manifest.content_fingerprint {
            return Err(LobbySessionError::ContentMismatch);
        }
        if names.len() == 0 || names[0].is_none() {
            return Err(LobbySessionError::InvalidName);
        }
        Ok(())
    }

    /// Whether some accepted name is `name`.
    fn name_in_use(&self, name: &String) -> (used: bool)
        ensures
            used == name_used(self@.names, name@),
    {
        let ghost names = self@.names;
        let mut i: usize = 0;
        while i < self.accepted_names.len()
            invariant
                i <= self.accepted_names@.len(),
                names == names_view(self.accepted_names@),
                forall|j: int| 0 <= j < i ==> (#[trigger] names[j]).1 != name@,
            decreases self.accepted_names@.len() - i,
        {
            if self.accepted_names[i].name == *name {
                assert(names[i as int].1 == name@);
                return true;
            }
            i = i + 1;
        }
        false
    }

    /// The first free display name among the candidates.
    fn fresh_accepted_name(&self, names: &Vec<Option<String>>) -> (name: Result<String, LobbySessionError>)
        ensures
            match name_from(candidates_view(names@), self@.names, 0) {
                Ok(n) => name matches Ok(s) && s@ == n,
                Err(error) => name == Err::<String, LobbySessionError>(error),
            },
    {
        let ghost cands = candidates_view(names@);
        let mut k: usize = 0;
        while k < NAME_CANDIDATES
            invariant
                k <= NAME_CANDIDATES,
                cands == candidates_view(names@),
                name_from(cands, self@.names, 0) == name_from(cands, self@.names, k as int),
            decreases NAME_CANDIDATES - k,
        {
            if k >= names.len() {
                return Err(LobbySessionError::InvalidName);
            }
            match &names[k] {
                None => {
                    return Err(LobbySessionError::InvalidName);
                },
                Some(candidate) => {
                    if !self.name_in_use(candidate) {
                        return Ok(candidate.clone());
                    }
                },
            }
            k = k + 1;
        }
        Err(LobbySessionError::IdentifierExhausted)
    }

    /// Whether a drawn identity can be handed out: it is nonzero and no session of `sessions`
    /// uses it.
    fn is_fresh_lobby_id(id: LobbySessionId, sessions: &Vec<LobbySession>) -> (fresh: bool)
        ensures
            fresh == (id.0 != 0 && !lobby_id_used(sessions@, id)),
    {
        if id.0 == 0 {
            return false;
        }
        let mut i: usize = 0;
        while i < sessions.len()
            invariant
                i <= sessions@.len(),
                forall|j: int| 0 <= j < i ==> (#[trigger] sessions@[j]).lobby_session_id != id,
            decreases sessions@.len() - i,
        {
            if sessions[i].lobby_session_id == id {
                assert(sessions@[i as int].lobby_session_id == id);
                return false;
            }
            i = i + 1;
        }
        true
    }

    /// Draw a fresh nonzero lobby identity that none of `sessions` uses, trying a bounded
    /// number of draws from `source`.
    fn draw_fresh_id(source: &mut S, sessions: &Vec<LobbySession>) -> (id: Option<LobbySessionId>)
        ensures
            id matches Some(x) ==> x.0 != 0 && !lobby_id_used(sessions@, x),
    {
        let mut attempt: usize = 0;
        while attempt < SESSION_ID_DRAWS
            decreases SESSION_ID_DRAWS - attempt,
        {
            let id = match source.next() {
                Some(id) => id,
                None => return None,
            };
            if Self::is_fresh_lobby_id(id, sessions) {
                return Some(id);
            }
            attempt = attempt + 1;
        }
        None
    }

    /// Draw a fresh nonzero lobby identity that no session uses.
    fn fresh_lobby_session_id(&mut self) -> (id: Option<LobbySessionId>)
        ensures
            final(self)@ == old(self)@,
            id matches Some(x) ==> x.0 != 0 && !lobby_id_used(old(self)@.sessions, x),
    {
        Self::draw_fresh_id(&mut self.session_ids, &self.sessions)
    }

    fn accept_with_draw(
        &mut self,
        client_id: u64,
        route_id: RouteId,
        peer_id: PeerId,
        hello: &LobbyHello,
        names: &Vec<Option<String>>,
    ) -> (outcome: (Result<LobbySession, LobbySessionError>, Ghost<Option<LobbySessionId>>))
        ensures
            outcome.1@ matches Some(x) ==> x.0 != 0 && !lobby_id_used(old(self)@.sessions, x),
            (final(self)@, outcome.0) == accepted(
                old(self)@,
                client_id,
                route_id,
                peer_id,
                *hello,
                candidates_view(names@),
                outcome.1@,
            ),
    {
        proof {
            reveal(accepted);
        }
        if let Err(error) = self.validate_hello(hello, names) {
            return (Err(error), Ghost(None));
        }
        if client_id == 0 {
            return (Err(LobbySessionError::InvalidClientId), Ghost(None));
        }
        let client = NetcodeClientId(client_id);
        if let Some(i) = self.find_session(client) {
            return (Ok(self.sessions[i]), Ghost(None));
        }
        let configured: usize = self.manifest.max_authenticated_sessions as usize;
        let maximum: usize = if configured < MAX_AUTHENTICATED_LOBBY_SESSIONS {
            configured
        } else {
            MAX_AUTHENTICATED_LOBBY_SESSIONS
        };
        if self.sessions.len() >= maximum {
            return (Err(LobbySessionError::ServerFull), Ghost(None));
        }
        let id = match self.fresh_lobby_session_id() {
            Some(id) => id,
            None => return (Err(LobbySessionError::IdentifierExhausted), Ghost(None)),
        };
        if self.next_player_id == 0 || self.next_player_id == u64::MAX {
            return (Err(LobbySessionError::IdentifierExhausted), Ghost(Some(id)));
        }
        let player_id = PlayerId(self.next_player_id);
        self.next_player_id = self.next_player_id + 1;
        if self.next_network_entity_id == 0 || self.next_network_entity_id == u64::MAX {
            return (Err(LobbySessionError::IdentifierExhausted), Ghost(Some(id)));
        }
        let entity = NetworkEntityId(self.next_network_entity_id);
        self.next_network_entity_id = self.next_network_entity_id + 1;
        let team = (self.sessions.len() % 2) as u8;
        let session = LobbySession {
            lobby_session_id: id,
            player_id: player_id,
            network_entity_id: entity,
            netcode_client_id: client,
            route_id: route_id,
            peer_id: peer_id,
            team: team,
            build: self.build,
        };
        let name = match self.fresh_accepted_name(names) {
            Ok(name) => name,
            Err(error) => return (Err(error), Ghost(Some(id))),
        };
        let ghost before = self.accepted_names@;
        self.sessions.push(session);
        self.accepted_names.push(AcceptedName { client: client, name: name });
        proof {
            assert(names_view(self.accepted_names@) =~= names_view(before).push((client, name@)));
        }
        (Ok(session), Ghost(Some(id)))
    }

    /// Authenticate one routed client and allocate its lobby identities exactly once. A
    /// repeated hello from the same client returns its session after compatibility validation.
    /// `names` lists the display-name candidates of the hello: the normalized proposal, then its
    /// numbered duplicates; an empty list means the proposal does not normalize.
    pub fn accept_client(
        &mut self,
        client_id: u64,
        route_id: RouteId,
        peer_id: PeerId,
        hello: &LobbyHello,
        names: &Vec<Option<String>>,
    ) -> (accepted_session: Result<LobbySession, LobbySessionError>)
        ensures
            exists|drawn: Option<LobbySessionId>|
                (drawn matches Some(x) ==> x.0 != 0 && !lobby_id_used(old(self)@.sessions, x)) && (
                final(self)@,
                accepted_session,
            ) == accepted(old(self)@, client_id, route_id, peer_id, *hello, candidates_view(names@), drawn),
    {
        let (outcome, Ghost(drawn)) = self.accept_with_draw(client_id, route_id, peer_id, hello, names);
        assert((drawn matches Some(x) ==> x.0 != 0 && !lobby_id_used(old(self)@.sessions, x)) && (self@, outcome)
            == accepted(old(self)@, client_id, route_id, peer_id, *hello, candidates_view(names@), drawn));
        outcome
    }
    // -----------------------------------------------------------------------------------------
    // The automatic allocation request
    // -----------------------------------------------------------------------------------------

    /// Whether some session's client took part in an earlier automatic allocation.
    fn roster_allocated_before(&self) -> (allocated: bool)
        ensures
            allocated == roster_allocated_before(self@),
    {
        let mut k: usize = 0;
        while k < self.sessions.len()
            invariant
                k <= self.sessions@.len(),
                forall|j: int| 0 <= j < k ==> !self@.allocated.contains(#[trigger] self@.sessions[j].netcode_client_id),
            decreases self.sessions@.len() - k,
        {
            let client = self.sessions[k].netcode_client_id;
            if Self::find_client(&self.allocated_clients, client).is_some() {
                proof {
                    lemma_first_index_facts(self@.allocated, |c: NetcodeClientId| c == client);
                    let i = client_position(self@.allocated, client);
                    assert(self@.allocated[i] == client);
                    assert(self@.allocated.contains(self@.sessions[k as int].netcode_client_id));
                }
                return true;
            }
            proof {
                lemma_first_index_facts(self@.allocated, |c: NetcodeClientId| c == client);
                if self@.allocated.contains(client) {
                    let i = choose|i: int| 0 <= i < self@.allocated.len() && self@.allocated[i] == client;
                    assert((|c: NetcodeClientId| c == client)(self@.allocated[i]));
                }
            }
            k = k + 1;
        }
        false
    }

    /// The accepted name of `client`, copied.
    fn name_copy(&self, client: NetcodeClientId) -> (name: Option<String>)
        ensures
            match name {
                Some(n) => name_of(self@, client) == Some(n@),
                None => name_of(self@, client) is None,
            },
    {
        match self.find_name(client) {
            Some(i) => Some(self.accepted_names[i].name.clone()),
            None => None,
        }
    }

    /// The participant row of `session` under display name `name`.
    fn participant(session: LobbySession, name: String) -> (row: AllocateParticipant)
        ensures
            row@ == participant_of(session, name@),
    {
        AllocateParticipant {
            lobby_session_id: session.lobby_session_id,
            player_id: session.player_id,
            netcode_client_id: session.netcode_client_id,
            team: session.team,
            display_name: name,
            recipe_fingerprint: session.build.recipe_fingerprint,
            build_revision: session.build.build_revision,
            build_snapshot: session.build.snapshot,
        }
    }

    /// The automatic allocation request for the ordered pair `first`, `second`.
    fn m01_body(
        mode: GameMode,
        request_id: RequestId,
        first: LobbySession,
        second: LobbySession,
        first_name: String,
        second_name: String,
        preset: u16,
        revision: u16,
    ) -> (body: AllocateRequestBody)
        ensures
            body@ == (RequestView {
                request_id: request_id,
                lobby_session_id: first.lobby_session_id,
                mode: mode,
                map_preset: preset,
                map_revision: revision,
                rules_profile: 1,
                objective_target: m01_objective(mode),
                match_duration_ticks: 10_800,
                countdown_ticks: 180,
                respawn_ticks: 180,
                team_count: 2,
                players_per_team: 1,
                participants: seq![participant_of(first, first_name@), participant_of(second, second_name@)],
                bots: Seq::empty(),
            }),
    {
        let objective: u16 = match mode {
            GameMode::Wipeout => 10,
            GameMode::HotZone => 1_800,
            GameMode::Heist => 2_000,
        };
        let mut participants: Vec<AllocateParticipant> = Vec::new();
        participants.push(Self::participant(first, first_name));
        participants.push(Self::participant(second, second_name));
        let body = AllocateRequestBody {
            request_id: request_id,
            lobby_session_id: first.lobby_session_id,
            mode: mode,
            map_preset: preset,
            map_revision: revision,
            rules_profile: 1,
            objective_target: objective,
            match_duration_ticks: 10_800,
            countdown_ticks: 180,
            respawn_ticks: 180,
            team_count: 2,
            players_per_team: 1,
            participants: participants,
            bots: Vec::new(),
        };
        assert(body@.participants =~= seq![participant_of(first, first_name@), participant_of(second, second_name@)]);
        assert(body@.bots =~= Seq::<BotView>::empty());
        body
    }

    /// Open the automatic allocation request when no transaction is open and exactly two
    /// sessions that never took part in an allocation are present.
    #[verifier::rlimit(40)]
    fn create_pending_request(&mut self) -> (created: Result<(), CodecError>)
        ensures
            (final(self)@, created) == request_created(old(self)@),
    {
        proof {
            reveal(request_created);
        }
        if self.pending.is_some() || self.allocation_completed || self.sessions.len() != M01_PARTICIPANT_COUNT {
            return Ok(());
        }
        if self.roster_allocated_before() {
            return Ok(());
        }
        if self.allocated_clients.len() > MAX_ALLOCATED_LOBBY_CLIENT_IDS - M01_PARTICIPANT_COUNT {
            return Ok(());
        }
        if self.next_request_id == 0 {
            return Err(CodecError::ZeroId);
        }
        if self.next_request_id == u64::MAX {
            return Err(CodecError::Oversize);
        }
        let request_id = RequestId(self.next_request_id);
        self.next_request_id = self.next_request_id + 1;
        let (first, second) = if self.sessions[1].lobby_session_id.0 < self.sessions[0].lobby_session_id.0 {
            (self.sessions[1], self.sessions[0])
        } else {
            (self.sessions[0], self.sessions[1])
        };
        let first_name = match self.name_copy(first.netcode_client_id) {
            Some(name) => name,
            None => return Err(CodecError::InvalidValue),
        };
        let second_name = match self.name_copy(second.netcode_client_id) {
            Some(name) => name,
            None => return Err(CodecError::InvalidValue),
        };
        let map = match self.mode {
            GameMode::Wipeout => self.m01_maps.wipeout,
            GameMode::HotZone => self.m01_maps.hot_zone,
            GameMode::Heist => self.m01_maps.heist,
        };
        let revision = match map.admission_revision {
            Some(revision) => revision,
            None => return Err(CodecError::InvalidValue),
        };
        let body = Self::m01_body(self.mode, request_id, first, second, first_name, second_name, map.preset, revision);
        proof {
            let pair = ordered_pair(old(self)@.sessions);
            assert(pair[0] == first && pair[1] == second);
        }
        self.pending = Some(PendingAllocation { body: body, sent: false });
        self.product_request = false;
        Ok(())
    }

    /// The one stable allocation request of the current exact-two roster, opening it first if
    /// needed.
    pub fn pending_allocate_request(&mut self) -> (request: Result<Option<AllocateRequestBody>, CodecError>)
        ensures
            ({
                let (v, created) = request_created(old(self)@);
                &&& final(self)@ == v
                &&& match created {
                    Err(error) => request == Err::<Option<AllocateRequestBody>, CodecError>(error),
                    Ok(()) => request matches Ok(body) && body_view(body) == pending_body(v),
                }
            }),
    {
        if let Err(error) = self.create_pending_request() {
            return Err(error);
        }
        match &self.pending {
            Some(p) => Ok(Some(p.body.duplicate())),
            None => Ok(None),
        }
    }

    /// The request while it still needs handing to the worker outbox, opening it first if
    /// needed.
    pub fn unsent_allocate_request(&mut self) -> (request: Result<Option<AllocateRequestBody>, CodecError>)
        ensures
            ({
                let (v, created) = request_created(old(self)@);
                &&& final(self)@ == v
                &&& match created {
                    Err(error) => request == Err::<Option<AllocateRequestBody>, CodecError>(error),
                    Ok(()) => request matches Ok(body) && body_view(body) == unsent_body(v),
                }
            }),
    {
        if let Err(error) = self.create_pending_request() {
            return Err(error);
        }
        Ok(self.unsent_existing_request())
    }

    /// The open request while it still needs handing to the worker outbox.
    pub fn unsent_existing_request(&self) -> (request: Option<AllocateRequestBody>)
        ensures
            body_view(request) == unsent_body(self@),
    {
        match &self.pending {
            Some(p) => if p.sent {
                None
            } else {
                Some(p.body.duplicate())
            },
            None => None,
        }
    }

    /// Mark the open request as handed to the worker outbox: true the first time.
    pub fn mark_allocate_request_queued(&mut self) -> (marked: bool)
        ensures
            (final(self)@, marked) == queued_marked(old(self)@),
    {
        let sent = match &self.pending {
            Some(p) => p.sent,
            None => return false,
        };
        if sent {
            return false;
        }
        if let Some(p) = &mut self.pending {
            p.sent = true;
        }
        true
    }
    // -----------------------------------------------------------------------------------------
    // Allocation responses
    // -----------------------------------------------------------------------------------------

    /// Remember `client` as allocated.
    fn remember_allocated(&mut self, client: NetcodeClientId)
        ensures
            final(self)@ == (LobbyView { allocated: with_client(old(self)@.allocated, client), ..old(self)@ }),
    {
        proof {
            lemma_first_index_facts(self@.allocated, |c: NetcodeClientId| c == client);
        }
        if Self::find_client(&self.allocated_clients, client).is_none() {
            proof {
                if self@.allocated.contains(client) {
                    let i = choose|i: int| 0 <= i < self@.allocated.len() && self@.allocated[i] == client;
                    assert((|c: NetcodeClientId| c == client)(self@.allocated[i]));
                }
            }
            self.allocated_clients.push(client);
        } else {
            proof {
                let i = client_position(self@.allocated, client);
                assert(self@.allocated[i] == client);
            }
        }
    }

    /// Store `grant` as `client`'s grant.
    fn store_grant(&mut self, client: NetcodeClientId, grant: MatchRouteGrant)
        ensures
            final(self)@ == (LobbyView { grants: with_grant(old(self)@.grants, client, grant), ..old(self)@ }),
    {
        match self.find_grant(client) {
            Some(g) => {
                self.grants.set(g, ClientGrant { client: client, grant: grant });
            },
            None => {
                self.grants.push(ClientGrant { client: client, grant: grant });
            },
        }
    }

    /// Check grant `k` of a response whose earlier grants passed, and convert it to its
    /// client's route grant.
    fn check_grant(&self, request_id: RequestId, body: &AllocationGrantedBody, k: usize) -> (checked: Result<ClientGrant, LobbyAllocationError>)
        requires
            k < body.grants@.len(),
            grants_error(self@.sessions, body.grants@, k as int) is None,
        ensures
            match grants_error(self@.sessions, body.grants@, k + 1) {
                Some(error) => checked == Err::<ClientGrant, LobbyAllocationError>(error),
                None => checked == Ok::<ClientGrant, LobbyAllocationError>(ClientGrant {
                    client: grant_client(self@.sessions, body.grants@[k as int]),
                    grant: route_grant_of(self@, request_id, *body, body.grants@[k as int]),
                }),
            },
    {
        let ghost grants = body.grants@;
        let grant = body.grants[k];
        let mut duplicate = false;
        let mut j: usize = 0;
        while j < k
            invariant
                j <= k,
                k < grants.len(),
                grants == body.grants@,
                duplicate == exists|i: int| 0 <= i < j && #[trigger] grants[i].lobby_session_id == grant.lobby_session_id,
            decreases k - j,
        {
            if body.grants[j].lobby_session_id == grant.lobby_session_id {
                duplicate = true;
            }
            j = j + 1;
        }
        if duplicate {
            return Err(LobbyAllocationError::DuplicateSession);
        }
        let s = match self.find_lobby_id(grant.lobby_session_id) {
            Some(s) => s,
            None => return Err(LobbyAllocationError::UnknownSession),
        };
        let capability = match grant.capability {
            Some(c) => c,
            None => return Err(LobbyAllocationError::InvalidCapability),
        };
        if grant.activation_expiry_unix_ms > grant.route_expiry_unix_ms {
            return Err(LobbyAllocationError::InvalidExpiry);
        }
        Ok(ClientGrant {
            client: self.sessions[s].netcode_client_id,
            grant: MatchRouteGrant {
                request_id: request_id,
                allocation_id: body.allocation_id,
                match_id: body.match_id,
                route_id: grant.route_id,
                peer_id: grant.peer_id,
                game_mode: self.mode,
                capability: capability,
                activation_expiry_unix_ms: grant.activation_expiry_unix_ms,
                route_expiry_unix_ms: grant.route_expiry_unix_ms,
            },
        })
    }

    /// Validate the grants of a response for the pending request and convert each to its
    /// client's route grant.
    #[verifier::spinoff_prover]
    #[verifier::rlimit(30)]
    fn convert_grants(&self, request_id: RequestId, body: &AllocationGrantedBody) -> (converted: Result<Vec<ClientGrant>, LobbyAllocationError>)
        ensures
            match grants_error(self@.sessions, body.grants@, body.grants@.len() as int) {
                Some(error) => converted == Err::<Vec<ClientGrant>, LobbyAllocationError>(error),
                None => converted matches Ok(c) && c@.len() == body.grants@.len() && forall|j: int|
                    0 <= j < c@.len() ==> #[trigger] c@[j] == (ClientGrant {
                        client: grant_client(self@.sessions, body.grants@[j]),
                        grant: route_grant_of(self@, request_id, *body, body.grants@[j]),
                    }),
            },
    {
        let ghost grants = body.grants@;
        let ghost sessions = self@.sessions;
        let mut converted: Vec<ClientGrant> = Vec::new();
        let mut k: usize = 0;
        while k < body.grants.len()
            invariant
                k <= grants.len(),
                grants == body.grants@,
                sessions == self@.sessions,
                grants_error(sessions, grants, k as int) is None,
                converted@.len() == k,
                forall|j: int|
                    0 <= j < k ==> #[trigger] converted@[j] == (ClientGrant {
                        client: grant_client(sessions, grants[j]),
                        grant: route_grant_of(self@, request_id, *body, grants[j]),
                    }),
            decreases grants.len() - k,
        {
            match self.check_grant(request_id, body, k) {
                Ok(entry) => {
                    converted.push(entry);
                },
                Err(error) => {
                    proof {
                        lemma_grants_error_sticky(sessions, grants, k as int + 1, grants.len() as int);
                    }
                    return Err(error);
                },
            }
            k = k + 1;
        }
        Ok(converted)
    }

    /// Validate and accept the supervisor's grant of the pending request: one valid grant per
    /// participant, each for a distinct known session.
    #[verifier::rlimit(40)]
    pub fn apply_allocation_granted(&mut self, body: AllocationGrantedBody) -> (applied: Result<(), LobbyAllocationError>)
        ensures
            (final(self)@, applied) == granted(old(self)@, body),
    {
        proof {
            reveal(granted);
        }
        let ghost v = self@;
        let (request_id, expected) = match &self.pending {
            None => return Err(LobbyAllocationError::NoPendingRequest),
            Some(p) => (p.body.request_id, p.body.participants.len()),
        };
        if body.request_id != request_id {
            return Err(LobbyAllocationError::RequestMismatch);
        }
        if body.grants.len() != expected {
            return Err(LobbyAllocationError::InvalidGrantCount);
        }
        let converted = match self.convert_grants(request_id, &body) {
            Ok(converted) => converted,
            Err(error) => return Err(error),
        };
        let ghost grants = body.grants@;
        if !self.product_request {
            let mut count: usize = 0;
            let mut j: usize = 0;
            while j < converted.len()
                invariant
                    j <= converted@.len(),
                    converted@.len() == grants.len(),
                    self@ == v,
                    count <= j,
                    count == new_identity_count(v, grants, j as int),
                    forall|i: int|
                        0 <= i < converted@.len() ==> (#[trigger] converted@[i]).client == grant_client(v.sessions, grants[i]),
                decreases converted@.len() - j,
            {
                let client = converted[j].client;
                proof {
                    lemma_first_index_facts(v.allocated, |c: NetcodeClientId| c == client);
                    if v.allocated.contains(client) {
                        let i = choose|i: int| 0 <= i < v.allocated.len() && v.allocated[i] == client;
                        assert((|c: NetcodeClientId| c == client)(v.allocated[i]));
                    }
                }
                if Self::find_client(&self.allocated_clients, client).is_none() {
                    count = count + 1;
                } else {
                    proof {
                        let i = client_position(v.allocated, client);
                        assert(v.allocated[i] == client);
                    }
                }
                j = j + 1;
            }
            if self.allocated_clients.len() > MAX_ALLOCATED_LOBBY_CLIENT_IDS
                || count > MAX_ALLOCATED_LOBBY_CLIENT_IDS - self.allocated_clients.len() {
                return Err(LobbyAllocationError::AllocationIdentityMemoryFull);
            }
        }
        let product_request = self.product_request;
        let mut j: usize = 0;
        while j < converted.len()
            invariant
                j <= converted@.len(),
                converted@.len() == grants.len(),
                grants == body.grants@,
                product_request == v.product_request,
                self@ == grants_recorded(v, request_id, body, j as int),
                forall|i: int|
                    0 <= i < converted@.len() ==> #[trigger] converted@[i] == (ClientGrant {
                        client: grant_client(v.sessions, grants[i]),
                        grant: route_grant_of(v, request_id, body, grants[i]),
                    }),
            decreases converted@.len() - j,
        {
            let entry = converted[j];
            if !product_request {
                self.remember_allocated(entry.client);
            }
            self.store_grant(entry.client, entry.grant);
            j = j + 1;
        }
        self.active_allocation = Some(
            ActivationBody { request_id: request_id, allocation_id: body.allocation_id, match_id: body.match_id },
        );
        self.pending = None;
        self.allocation_completed = true;
        self.product_request = false;
        Ok(())
    }

    /// Accept a rejection of the pending request, closing it for a later retry with a fresh
    /// request identity.
    pub fn apply_allocation_rejected(&mut self, body: AllocationRejectedBody) -> (applied: Result<(), LobbyAllocationError>)
        ensures
            (final(self)@, applied) == rejected(old(self)@, body),
    {
        proof {
            reveal(rejected);
        }
        let request_id = match &self.pending {
            None => return Err(LobbyAllocationError::NoPendingRequest),
            Some(p) => p.body.request_id,
        };
        if body.request_id != request_id {
            return Err(LobbyAllocationError::RequestMismatch);
        }
        self.pending = None;
        self.allocation_rejected = true;
        self.product_cancel_requested = false;
        self.product_request = false;
        Ok(())
    }

    /// Apply one decoded worker control body.
    pub fn apply_control_frame(&mut self, frame: ControlFrame) -> (applied: Result<(), LobbyAllocationError>)
        ensures
            (final(self)@, applied) == control_applied(old(self)@, frame),
    {
        proof {
            reveal(control_applied);
        }
        match frame.body {
            ControlBody::AllocationGranted(body) => self.apply_allocation_granted(body),
            ControlBody::AllocationRejected(body) => self.apply_allocation_rejected(body),
            ControlBody::Activated(body) => {
                if self.active_allocation == Some(body) {
                    self.product_activated = true;
                    Ok(())
                } else {
                    Err(LobbyAllocationError::RequestMismatch)
                }
            },
            ControlBody::ActivationDissolved(body) => {
                if self.active_allocation == Some(body) {
                    self.product_dissolved = true;
                    self.active_allocation = None;
                    self.allocation_completed = false;
                    Ok(())
                } else {
                    Err(LobbyAllocationError::RequestMismatch)
                }
            },
            ControlBody::LobbyCapacity(body) => {
                self.free_match_slots = body.free_match_slots;
                Ok(())
            },
            ControlBody::Other => Err(LobbyAllocationError::RequestMismatch),
        }
    }
    // -----------------------------------------------------------------------------------------
    // The product allocation request
    // -----------------------------------------------------------------------------------------

    /// Index of the first advertised game type with identity `id`.
    fn find_game(catalog: &ResolvedLobbyCatalog, id: &GameTypeId) -> (found: Option<usize>)
        ensures
            found_at(found, game_index(catalog.game_types@, *id), catalog.game_types@.len() as int),
    {
        let mut i: usize = 0;
        while i < catalog.game_types.len()
            invariant
                i <= catalog.game_types@.len(),
                forall|j: int| 0 <= j < i ==> !same_game((#[trigger] catalog.game_types@[j]).id, *id),
            decreases catalog.game_types@.len() - i,
        {
            if catalog.game_types[i].id.same_as(id) {
                proof {
                    lemma_first_index_at(
                        catalog.game_types@,
                        |g: AdvertisedGameType| same_game(g.id, *id),
                        i as int,
                    );
                }
                return Some(i);
            }
            i = i + 1;
        }
        proof {
            lemma_first_index_none(catalog.game_types@, |g: AdvertisedGameType| same_game(g.id, *id));
        }
        None
    }

    /// The participant rows of a reservation's participants.
    #[verifier::spinoff_prover]
    #[verifier::rlimit(60)]
    fn reserved_participants<T: QueueTicketIdSource>(
        &self,
        reservation: &QueueReservation,
        queue: &QueueState<T>,
    ) -> (rows: Option<Vec<AllocateParticipant>>)
        ensures
            match reserved_rows(self@, queue@, reservation.participants@) {
                None => rows is None,
                Some(expected) => rows matches Some(r) && r@.map_values(|p: AllocateParticipant| p@) == expected,
            },
    {
        let ghost parts = reservation.participants@;
        let mut rows: Vec<AllocateParticipant> = Vec::new();
        let mut k: usize = 0;
        while k < reservation.participants.len()
            invariant
                k <= parts.len(),
                parts == reservation.participants@,
                reserved_rows(self@, queue@, parts.take(k as int)) == Some(rows@.map_values(|p: AllocateParticipant| p@)),
            decreases parts.len() - k,
        {
            let reserved = reservation.participants[k];
            proof {
                assert(parts.take(k as int + 1).drop_last() =~= parts.take(k as int));
                assert(parts.take(k as int + 1).last() == parts[k as int]);
            }
            let ticket = match queue.ticket(reserved.ticket_id) {
                Some(t) => t,
                None => {
                    proof {
                        lemma_reserved_rows_none(self@, queue@, parts, k as int + 1, parts.len() as int);
                        assert(parts.take(parts.len() as int) =~= parts);
                    }
                    return None;
                },
            };
            let name = match self.name_copy(ticket.netcode_client_id) {
                Some(name) => name,
                None => {
                    proof {
                        lemma_reserved_rows_none(self@, queue@, parts, k as int + 1, parts.len() as int);
                        assert(parts.take(parts.len() as int) =~= parts);
                    }
                    return None;
                },
            };
            let row = AllocateParticipant {
                lobby_session_id: ticket.lobby_session_id,
                player_id: ticket.player_id,
                netcode_client_id: ticket.netcode_client_id,
                team: reserved.team,
                display_name: name,
                recipe_fingerprint: ticket.accepted_build.recipe_fingerprint,
                build_revision: ticket.accepted_build.revision,
                build_snapshot: ticket.build_snapshot,
            };
            let ghost before = rows@;
            rows.push(row);
            proof {
                assert(rows@.map_values(|p: AllocateParticipant| p@) =~= before.map_values(|p: AllocateParticipant| p@).push(
                    row@,
                ));
            }
            k = k + 1;
        }
        proof {
            assert(parts.take(parts.len() as int) =~= parts);
        }
        Some(rows)
    }

    /// Open the allocation request of a reserved queue roster when no transaction is open: the
    /// reserved tickets' sessions, teams, names and builds, with the reserved game's rules,
    /// routed mode and map revision. `modes` names the routed modes' definitions and
    /// `rules_profile` the production rules profile.
    #[verifier::rlimit(40)]
    pub fn create_product_request<T: QueueTicketIdSource>(
        &mut self,
        reservation: &QueueReservation,
        queue: &QueueState<T>,
        catalog: &ResolvedLobbyCatalog,
        modes: RoutingModes,
        rules_profile: u8,
    ) -> (created: Result<(), CodecError>)
        ensures
            (final(self)@, created) == product_request_created(
                old(self)@,
                queue@,
                reservation.model(),
                *catalog,
                modes,
                rules_profile,
            ),
    {
        proof {
            reveal(product_request_created);
        }
        if self.pending.is_some() || self.allocation_completed {
            return Ok(());
        }
        let g = match Self::find_game(catalog, &reservation.game_type_id) {
            Some(g) => g,
            None => return Err(CodecError::InvalidValue),
        };
        if self.next_request_id == 0 {
            return Err(CodecError::ZeroId);
        }
        if self.next_request_id == u64::MAX {
            return Err(CodecError::Oversize);
        }
        let request_id = RequestId(self.next_request_id);
        let rows = self.reserved_participants(reservation, queue);
        self.next_request_id = self.next_request_id + 1;
        let participants = match rows {
            Some(rows) => rows,
            None => return Err(CodecError::InvalidValue),
        };
        if participants.len() == 0 {
            return Err(CodecError::InvalidValue);
        }
        let lobby_session_id = participants[0].lobby_session_id;
        let rules = match catalog.rules(&reservation.game_type_id) {
            Some(rules) => rules,
            None => return Err(CodecError::InvalidValue),
        };
        let mode = match routing_mode_for_definition(modes, catalog.game_types[g].mode_definition_id) {
            Some(mode) => mode,
            None => return Err(CodecError::InvalidValue),
        };
        let map_revision = match catalog.map_admission_revision(reservation.map_preset_id) {
            Some(revision) => revision,
            None => return Err(CodecError::InvalidValue),
        };
        let body = AllocateRequestBody {
            request_id: request_id,
            lobby_session_id: lobby_session_id,
            mode: mode,
            map_preset: reservation.map_preset_id.0,
            map_revision: map_revision,
            rules_profile: rules_profile,
            objective_target: rules.objective_target,
            match_duration_ticks: rules.match_duration_ticks,
            countdown_ticks: rules.countdown_ticks,
            respawn_ticks: rules.respawn_ticks,
            team_count: reservation.team_count,
            players_per_team: reservation.players_per_team,
            participants: participants,
            bots: Vec::new(),
        };
        assert(body@.bots =~= Seq::<BotView>::empty());
        self.pending = Some(PendingAllocation { body: body, sent: false });
        self.product_request = true;
        self.allocation_rejected = false;
        Ok(())
    }

    // -----------------------------------------------------------------------------------------
    // The practice allocation request
    // -----------------------------------------------------------------------------------------

    /// Open the allocation request of a practice match for `session`, as `command` asks: the
    /// player alone against bots of the practice build `bot_build`, with its admitted build
    /// `human` summarized as `accepted_build`. `reservation_entropy` is the reservation
    /// identity drawn for the match, `modes` names the routed modes' definitions and
    /// `rules_profile` the production rules profile.
    #[verifier::rlimit(40)]
    pub fn create_practice_request(
        &mut self,
        session: &LobbySession,
        command: &PracticeStartRequest,
        catalog: &ResolvedLobbyCatalog,
        human: &LobbyBuildIdentity,
        accepted_build: AcceptedBuildSummary,
        bot_build: Option<LobbyBuildIdentity>,
        reservation_entropy: Option<u128>,
        modes: RoutingModes,
        rules_profile: u8,
    ) -> (started: Result<ReservationStarted, PracticeStartRejection>)
        requires
            catalog.well_formed(),
        ensures
            (final(self)@, started) == practice_request_created(
                old(self)@,
                *session,
                *command,
                *catalog,
                *human,
                accepted_build,
                bot_build,
                reservation_entropy,
                modes,
                rules_profile,
            ),
    {
        proof {
            reveal(practice_request_created);
        }
        if self.pending.is_some() || self.allocation_completed {
            return Err(PracticeStartRejection::Busy);
        }
        if self.free_match_slots == 0 {
            return Err(PracticeStartRejection::CapacityUnavailable);
        }
        if command.catalog_revision != catalog.revision {
            return Err(PracticeStartRejection::StaleCatalog);
        }
        let g = match Self::find_game(catalog, &command.game_type_id) {
            Some(g) => g,
            None => return Err(PracticeStartRejection::UnknownGameType),
        };
        let game = &catalog.game_types[g];
        if game.configuration_revision != command.game_type_configuration_revision {
            return Err(PracticeStartRejection::StaleGameConfiguration);
        }
        if human.snapshot.brawler_id != command.brawler_id || human.snapshot.brawler_revision
            != command.brawler_revision {
            return Err(PracticeStartRejection::InvalidBuild);
        }
        if self.next_request_id == 0 || self.next_request_id == u64::MAX {
            return Err(PracticeStartRejection::Internal);
        }
        let request_id = RequestId(self.next_request_id);
        self.next_request_id = self.next_request_id + 1;
        let entropy = match reservation_entropy {
            Some(entropy) => entropy,
            None => return Err(PracticeStartRejection::Internal),
        };
        let name = match self.name_copy(session.netcode_client_id) {
            Some(name) => name,
            None => return Err(PracticeStartRejection::Internal),
        };
        if entropy == 0 {
            return Err(PracticeStartRejection::Internal);
        }
        let roster = (game.team_count as usize) * (game.players_per_team as usize);
        let bots = match bot_build {
            Some(build) => practice_bot_rows(game.team_count, game.players_per_team, &build),
            None => {
                if roster > 1 {
                    return Err(PracticeStartRejection::Internal);
                }
                Vec::new()
            },
        };
        let rules = match catalog.rules(&game.id) {
            Some(rules) => rules,
            None => return Err(PracticeStartRejection::Internal),
        };
        let mode = match routing_mode_for_definition(modes, game.mode_definition_id) {
            Some(mode) => mode,
            None => return Err(PracticeStartRejection::Internal),
        };
        let map_preset = game.map_preset_ids[0];
        let map_revision = match catalog.map_admission_revision(map_preset) {
            Some(revision) => revision,
            None => return Err(PracticeStartRejection::Internal),
        };
        let human_row = AllocateParticipant {
            lobby_session_id: session.lobby_session_id,
            player_id: session.player_id,
            netcode_client_id: session.netcode_client_id,
            team: 0,
            display_name: name,
            recipe_fingerprint: human.recipe_fingerprint,
            build_revision: human.build_revision,
            build_snapshot: human.snapshot,
        };
        let mut participants: Vec<AllocateParticipant> = Vec::new();
        participants.push(human_row);
        let body = AllocateRequestBody {
            request_id: request_id,
            lobby_session_id: session.lobby_session_id,
            mode: mode,
            map_preset: map_preset.0,
            map_revision: map_revision,
            rules_profile: rules_profile,
            objective_target: rules.objective_target,
            match_duration_ticks: rules.match_duration_ticks,
            countdown_ticks: rules.countdown_ticks,
            respawn_ticks: rules.respawn_ticks,
            team_count: game.team_count,
            players_per_team: game.players_per_team,
            participants: participants,
            bots: bots,
        };
        proof {
            assert(body@.participants =~= seq![body@.participants[0]]);
            if bot_build is None {
                assert(body@.bots =~= Seq::<BotView>::empty());
            }
        }
        self.pending = Some(PendingAllocation { body: body, sent: false });
        self.product_request = true;
        self.allocation_rejected = false;
        Ok(ReservationStarted {
            reservation_id: MatchReservationId(entropy),
            ticket_id: None,
            game_type_id: game.id.duplicate(),
            map_preset_id: map_preset,
            team_count: game.team_count,
            players_per_team: game.players_per_team,
            accepted_build: accepted_build,
            loading_deadline_millis: 30_000,
        })
    }
}

} // verus!
