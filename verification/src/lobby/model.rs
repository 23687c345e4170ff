//! The abstract lobby state and the transitions every lobby operation performs on it.

use vstd::prelude::*;
use crate::ids::{LobbySessionId, NetcodeClientId, NetworkEntityId, PeerId, PlayerId, RequestId, RouteId};
use crate::session::{LobbyBuildIdentity, LobbySession};
use crate::queue::model::first_index;
use crate::lobby::routing::{
    ActivationBody, AllocationGrant, AllocationGrantedBody, AllocationRejectedBody, CodecError, ControlBody,
    ControlFrame, GameMode, MatchRouteGrant, ParticipantView, RequestView,
};

verus! {

/// The hard upper bound of authenticated lobby sessions.
pub const MAX_AUTHENTICATED_LOBBY_SESSIONS: usize = 32;

/// The automatic allocation is made only for exactly this many authenticated sessions.
pub const M01_PARTICIPANT_COUNT: usize = 2;

/// The bound of the process-lifetime memory of clients that took part in an allocation.
pub const MAX_ALLOCATED_LOBBY_CLIENT_IDS: usize = 256;

/// How many session identities are drawn before the identity space counts as exhausted.
pub const SESSION_ID_DRAWS: usize = 64;

/// How many display-name candidates (the name itself and its numbered duplicates) are tried.
pub const NAME_CANDIDATES: usize = 33;

/// Why an unauthenticated hello cannot become a lobby session.
#[derive(Clone, Copy, Debug, PartialEq, Eq, Structural)]
pub enum LobbySessionError {
    InvalidClientId,
    NotRouted,
    ServerFull,
    ProtocolVersionMismatch,
    BuildVersionMismatch,
    RegistryMismatch,
    ContentMismatch,
    InvalidName,
    IdentifierExhausted,
}

/// Why a client's hello was answered with a rejection.
#[derive(Clone, Copy, Debug, PartialEq, Eq, Structural)]
pub enum LobbyJoinRejection {
    ProtocolVersionMismatch,
    BuildVersionMismatch,
    RegistryMismatch,
    ContentMismatch,
    InvalidName,
    IdentifierExhausted,
    ServerFull,
    InvalidAccount,
    AccountInUse,
    StorageUnavailable,
}

impl LobbySessionError {
    /// The rejection a client receives for this error: the compatibility, name and identity
    /// errors name themselves, and every other refusal reads as a full server.
    pub fn rejection(self) -> (rejection: LobbyJoinRejection)
        ensures
            rejection == (match self {
                LobbySessionError::ProtocolVersionMismatch => LobbyJoinRejection::ProtocolVersionMismatch,
                LobbySessionError::BuildVersionMismatch => LobbyJoinRejection::BuildVersionMismatch,
                LobbySessionError::RegistryMismatch => LobbyJoinRejection::RegistryMismatch,
                LobbySessionError::ContentMismatch => LobbyJoinRejection::ContentMismatch,
                LobbySessionError::InvalidName => LobbyJoinRejection::InvalidName,
                LobbySessionError::IdentifierExhausted => LobbyJoinRejection::IdentifierExhausted,
                _ => LobbyJoinRejection::ServerFull,
            }),
    {
        match self {
            LobbySessionError::ProtocolVersionMismatch => LobbyJoinRejection::ProtocolVersionMismatch,
            LobbySessionError::BuildVersionMismatch => LobbyJoinRejection::BuildVersionMismatch,
            LobbySessionError::RegistryMismatch => LobbyJoinRejection::RegistryMismatch,
            LobbySessionError::ContentMismatch => LobbyJoinRejection::ContentMismatch,
            LobbySessionError::InvalidName => LobbyJoinRejection::InvalidName,
            LobbySessionError::IdentifierExhausted => LobbyJoinRejection::IdentifierExhausted,
            LobbySessionError::InvalidClientId | LobbySessionError::NotRouted | LobbySessionError::ServerFull => {
                LobbyJoinRejection::ServerFull
            },
        }
    }
}

/// Why an allocation response was not accepted by the current lobby transaction.
#[derive(Clone, Copy, Debug, PartialEq, Eq, Structural)]
pub enum LobbyAllocationError {
    NoPendingRequest,
    RequestMismatch,
    InvalidGrantCount,
    UnknownSession,
    DuplicateSession,
    InvalidCapability,
    InvalidExpiry,
    AllocationIdentityMemoryFull,
}

/// What the lobby reads of its worker manifest.
#[derive(Clone, Copy, Debug, PartialEq, Eq, Structural)]
pub struct LobbyManifest {
    pub protocol_registry_fingerprint: u64,
    pub content_fingerprint: u64,
    pub max_authenticated_sessions: u16,
}

/// The compatibility a hello must match: the server's protocol and build versions.
#[derive(Clone, Debug, PartialEq, Eq)]
pub struct LobbyCompatibility {
    pub protocol_version: u16,
    pub build_version: String,
}

/// The compatibility claims of a client's hello.
#[derive(Clone, Debug, PartialEq, Eq)]
pub struct LobbyHello {
    pub protocol_version: u16,
    pub build_version: String,
    pub registry_fingerprint: u64,
    pub content_fingerprint: u64,
}

/// The map preset of one mode for the automatic allocation, with its admission revision when
/// the map catalog admits it.
#[derive(Clone, Copy, Debug, PartialEq, Eq, Structural)]
pub struct M01MapPreset {
    pub preset: u16,
    pub admission_revision: Option<u16>,
}

/// The automatic allocation's map preset for each mode.
#[derive(Clone, Copy, Debug, PartialEq, Eq, Structural)]
pub struct M01Maps {
    pub wipeout: M01MapPreset,
    pub hot_zone: M01MapPreset,
    pub heist: M01MapPreset,
}

/// A client's one-shot route grant.
#[derive(Clone, Copy, PartialEq, Eq)]
pub struct ClientGrant {
    pub client: NetcodeClientId,
    pub grant: MatchRouteGrant,
}

/// The abstract state of the lobby.
pub struct LobbyView {
    pub manifest: LobbyManifest,
    pub protocol_version: u16,
    pub build_version: Seq<char>,
    pub mode: GameMode,
    pub build: LobbyBuildIdentity,
    pub m01_maps: M01Maps,
    pub next_player_id: u64,
    pub next_network_entity_id: u64,
    pub next_request_id: u64,
    pub sessions: Seq<LobbySession>,
    pub names: Seq<(NetcodeClientId, Seq<char>)>,
    pub welcomed: Seq<NetcodeClientId>,
    pub allocated: Seq<NetcodeClientId>,
    pub pending: Option<(RequestView, bool)>,
    pub allocation_completed: bool,
    pub active_allocation: Option<ActivationBody>,
    pub allocation_rejected: bool,
    pub product_activated: bool,
    pub product_dissolved: bool,
    pub product_cancel_requested: bool,
    pub product_request: bool,
    pub free_match_slots: u8,
    pub grants: Seq<ClientGrant>,
}

// ---------------------------------------------------------------------------------------------
// Lookups
// ---------------------------------------------------------------------------------------------

/// Index of the session of client `client`.
pub open spec fn session_index(sessions: Seq<LobbySession>, client: NetcodeClientId) -> int {
    first_index(sessions, |s: LobbySession| s.netcode_client_id == client)
}

/// Index of the session with lobby identity `id`.
pub open spec fn lobby_id_index(sessions: Seq<LobbySession>, id: LobbySessionId) -> int {
    first_index(sessions, |s: LobbySession| s.lobby_session_id == id)
}

/// Index of the accepted name of client `client`.
pub open spec fn name_index(names: Seq<(NetcodeClientId, Seq<char>)>, client: NetcodeClientId) -> int {
    first_index(names, |n: (NetcodeClientId, Seq<char>)| n.0 == client)
}

/// Index of client `client` in a client list.
pub open spec fn client_position(clients: Seq<NetcodeClientId>, client: NetcodeClientId) -> int {
    first_index(clients, |c: NetcodeClientId| c == client)
}

/// Index of the grant of client `client`.
pub open spec fn grant_index(grants: Seq<ClientGrant>, client: NetcodeClientId) -> int {
    first_index(grants, |g: ClientGrant| g.client == client)
}

/// The session of the nonzero client `client_id`, if any.
pub open spec fn session_of(v: LobbyView, client_id: u64) -> Option<LobbySession> {
    let i = session_index(v.sessions, NetcodeClientId(client_id));
    if client_id != 0 && i >= 0 {
        Some(v.sessions[i])
    } else {
        None
    }
}

/// The accepted name of client `client`, if any.
pub open spec fn name_of(v: LobbyView, client: NetcodeClientId) -> Option<Seq<char>> {
    let i = name_index(v.names, client);
    if i >= 0 {
        Some(v.names[i].1)
    } else {
        None
    }
}

/// Whether some accepted name is `name`.
pub open spec fn name_used(names: Seq<(NetcodeClientId, Seq<char>)>, name: Seq<char>) -> bool {
    exists|i: int| 0 <= i < names.len() && #[trigger] names[i].1 == name
}

/// Whether a session uses lobby identity `id`.
pub open spec fn lobby_id_used(sessions: Seq<LobbySession>, id: LobbySessionId) -> bool {
    exists|i: int| 0 <= i < sessions.len() && #[trigger] sessions[i].lobby_session_id == id
}

// ---------------------------------------------------------------------------------------------
// Authentication
// ---------------------------------------------------------------------------------------------

/// The compatibility error of a hello, if any. An empty candidate list, or one whose first
/// candidate is absent, stands for a proposed display name that does not normalize.
pub open spec fn hello_error(v: LobbyView, hello: LobbyHello, names: Seq<Option<Seq<char>>>) -> Option<LobbySessionError> {
    if hello.protocol_version != v.protocol_version {
        Some(LobbySessionError::ProtocolVersionMismatch)
    } else if hello.build_version@ != v.build_version {
        Some(LobbySessionError::BuildVersionMismatch)
    } else if hello.registry_fingerprint != v.manifest.protocol_registry_fingerprint {
        Some(LobbySessionError::RegistryMismatch)
    } else if hello.content_fingerprint != v.manifest.content_fingerprint {
        Some(LobbySessionError::ContentMismatch)
    } else if names.len() == 0 || names[0] is None {
        Some(LobbySessionError::InvalidName)
    } else {
        None
    }
}

/// The first free display name among candidates `k..NAME_CANDIDATES`: an absent candidate
/// cannot be formed, and running out of candidates exhausts the identifiers.
pub open spec fn name_from(names: Seq<Option<Seq<char>>>, used: Seq<(NetcodeClientId, Seq<char>)>, k: int) -> Result<
    Seq<char>,
    LobbySessionError,
>
    decreases NAME_CANDIDATES - k,
{
    if k < 0 || k >= NAME_CANDIDATES {
        Err(LobbySessionError::IdentifierExhausted)
    } else if k >= names.len() || names[k] is None {
        Err(LobbySessionError::InvalidName)
    } else if !name_used(used, names[k]->0) {
        Ok(names[k]->0)
    } else {
        name_from(names, used, k + 1)
    }
}

/// The maximum number of sessions the lobby admits.
pub open spec fn session_capacity(v: LobbyView) -> int {
    if v.manifest.max_authenticated_sessions < MAX_AUTHENTICATED_LOBBY_SESSIONS {
        v.manifest.max_authenticated_sessions as int
    } else {
        MAX_AUTHENTICATED_LOBBY_SESSIONS as int
    }
}

/// The accept transition. `names` lists the display-name candidates of the hello (the
/// normalized proposal, then its numbered duplicates) and `drawn` is the fresh lobby identity
/// drawn for a new session, if one could be drawn.
#[verifier::opaque]
pub open spec fn accepted(
    v: LobbyView,
    client_id: u64,
    route_id: RouteId,
    peer_id: PeerId,
    hello: LobbyHello,
    names: Seq<Option<Seq<char>>>,
    drawn: Option<LobbySessionId>,
) -> (LobbyView, Result<LobbySession, LobbySessionError>) {
    if let Some(error) = hello_error(v, hello, names) {
        (v, Err(error))
    } else if client_id == 0 {
        (v, Err(LobbySessionError::InvalidClientId))
    } else if let Some(session) = session_of(v, client_id) {
        (v, Ok(session))
    } else if v.sessions.len() >= session_capacity(v) {
        (v, Err(LobbySessionError::ServerFull))
    } else if drawn is None {
        (v, Err(LobbySessionError::IdentifierExhausted))
    } else if v.next_player_id == 0 || v.next_player_id == u64::MAX {
        (v, Err(LobbySessionError::IdentifierExhausted))
    } else {
        let v1 = LobbyView { next_player_id: (v.next_player_id + 1) as u64, ..v };
        if v1.next_network_entity_id == 0 || v1.next_network_entity_id == u64::MAX {
            (v1, Err(LobbySessionError::IdentifierExhausted))
        } else {
            let v2 = LobbyView { next_network_entity_id: (v1.next_network_entity_id + 1) as u64, ..v1 };
            let session = LobbySession {
                lobby_session_id: drawn->0,
                player_id: PlayerId(v.next_player_id),
                network_entity_id: NetworkEntityId(v.next_network_entity_id),
                netcode_client_id: NetcodeClientId(client_id),
                route_id: route_id,
                peer_id: peer_id,
                team: (v.sessions.len() % 2) as u8,
                build: v.build,
            };
            match name_from(names, v.names, 0) {
                Err(error) => (v2, Err(error)),
                Ok(name) => (
                    LobbyView {
                        sessions: v2.sessions.push(session),
                        names: v2.names.push((NetcodeClientId(client_id), name)),
                        ..v2
                    },
                    Ok(session),
                ),
            }
        }
    }
}

/// The welcome transition: whether this is the first welcome of the client.
#[verifier::opaque]
pub open spec fn welcome_marked(v: LobbyView, client: NetcodeClientId) -> (LobbyView, bool) {
    if v.welcomed.contains(client) {
        (v, false)
    } else {
        (LobbyView { welcomed: v.welcomed.push(client), ..v }, true)
    }
}

/// The state with client `client`'s session, name and welcome forgotten.
pub open spec fn without_client(v: LobbyView, client: NetcodeClientId) -> LobbyView {
    let s = session_index(v.sessions, client);
    let n = name_index(v.names, client);
    let w = client_position(v.welcomed, client);
    LobbyView {
        sessions: if s >= 0 { v.sessions.remove(s) } else { v.sessions },
        names: if n >= 0 { v.names.remove(n) } else { v.names },
        welcomed: if w >= 0 { v.welcomed.remove(w) } else { v.welcomed },
        ..v
    }
}

/// The state with client `client`'s grant revoked.
pub open spec fn without_grant(v: LobbyView, client: NetcodeClientId) -> LobbyView {
    let g = grant_index(v.grants, client);
    LobbyView { grants: if g >= 0 { v.grants.remove(g) } else { v.grants }, ..v }
}

/// The removal transition of a disconnected client: its session, name, welcome and grant go,
/// and any pending allocation is cancelled locally.
#[verifier::opaque]
pub open spec fn client_removed(v: LobbyView, client_id: u64) -> (LobbyView, Option<LobbySession>) {
    match session_of(v, client_id) {
        None => (v, None),
        Some(session) => {
            let client = NetcodeClientId(client_id);
            (
                LobbyView {
                    pending: None,
                    allocation_completed: false,
                    ..without_grant(without_client(v, client), client)
                },
                Some(session),
            )
        },
    }
}

/// The detach transition: the client's session, name and welcome go; grants and the allocation
/// transaction stay.
#[verifier::opaque]
pub open spec fn client_detached(v: LobbyView, client_id: u64) -> (LobbyView, Option<LobbySession>) {
    match session_of(v, client_id) {
        None => (v, None),
        Some(session) => (without_client(v, NetcodeClientId(client_id)), Some(session)),
    }
}

// ---------------------------------------------------------------------------------------------
// The automatic allocation request
// ---------------------------------------------------------------------------------------------

/// The map preset of the automatic allocation for `mode`.
pub open spec fn m01_map(maps: M01Maps, mode: GameMode) -> M01MapPreset {
    match mode {
        GameMode::Wipeout => maps.wipeout,
        GameMode::HotZone => maps.hot_zone,
        GameMode::Heist => maps.heist,
    }
}

/// The objective target of the automatic allocation for `mode`.
pub open spec fn m01_objective(mode: GameMode) -> u16 {
    match mode {
        GameMode::Wipeout => 10,
        GameMode::HotZone => 1_800,
        GameMode::Heist => 2_000,
    }
}

/// The sessions ordered by lobby identity (there are two of them).
pub open spec fn ordered_pair(sessions: Seq<LobbySession>) -> Seq<LobbySession> {
    if sessions[1].lobby_session_id.0 < sessions[0].lobby_session_id.0 {
        seq![sessions[1], sessions[0]]
    } else {
        seq![sessions[0], sessions[1]]
    }
}

/// The participant row of `session` under display name `name`.
pub open spec fn participant_of(session: LobbySession, name: Seq<char>) -> ParticipantView {
    ParticipantView {
        lobby_session_id: session.lobby_session_id,
        player_id: session.player_id,
        netcode_client_id: session.netcode_client_id,
        team: session.team,
        display_name: name,
        recipe_fingerprint: session.build.recipe_fingerprint,
        build_revision: session.build.build_revision,
        build_snapshot: session.build.snapshot,
    }
}

/// Whether some session's client took part in an earlier allocation.
pub open spec fn roster_allocated_before(v: LobbyView) -> bool {
    exists|i: int| 0 <= i < v.sessions.len() && v.allocated.contains(#[trigger] v.sessions[i].netcode_client_id)
}

/// The request-creation transition: with no transaction open and exactly two fresh sessions
/// present, open one automatic allocation request at the next request identity.
#[verifier::opaque]
pub open spec fn request_created(v: LobbyView) -> (LobbyView, Result<(), CodecError>) {
    if v.pending is Some || v.allocation_completed || v.sessions.len() != M01_PARTICIPANT_COUNT {
        (v, Ok(()))
    } else if roster_allocated_before(v) {
        (v, Ok(()))
    } else if v.allocated.len() + M01_PARTICIPANT_COUNT > MAX_ALLOCATED_LOBBY_CLIENT_IDS {
        (v, Ok(()))
    } else if v.next_request_id == 0 {
        (v, Err(CodecError::ZeroId))
    } else if v.next_request_id == u64::MAX {
        (v, Err(CodecError::Oversize))
    } else {
        let v1 = LobbyView { next_request_id: (v.next_request_id + 1) as u64, ..v };
        let pair = ordered_pair(v.sessions);
        match (name_of(v, pair[0].netcode_client_id), name_of(v, pair[1].netcode_client_id)) {
            (Some(first), Some(second)) => {
                let map = m01_map(v.m01_maps, v.mode);
                match map.admission_revision {
                    None => (v1, Err(CodecError::InvalidValue)),
                    Some(revision) => {
                        let body = RequestView {
                            request_id: RequestId(v.next_request_id),
                            lobby_session_id: pair[0].lobby_session_id,
                            mode: v.mode,
                            map_preset: map.preset,
                            map_revision: revision,
                            rules_profile: 1,
                            objective_target: m01_objective(v.mode),
                            match_duration_ticks: 10_800,
                            countdown_ticks: 180,
                            respawn_ticks: 180,
                            team_count: 2,
                            players_per_team: 1,
                            participants: seq![participant_of(pair[0], first), participant_of(pair[1], second)],
                            bots: Seq::empty(),
                        };
                        (LobbyView { pending: Some((body, false)), product_request: false, ..v1 }, Ok(()))
                    },
                }
            },
            _ => (v1, Err(CodecError::InvalidValue)),
        }
    }
}

/// The pending request body, if any.
pub open spec fn pending_body(v: LobbyView) -> Option<RequestView> {
    match v.pending {
        Some((body, _)) => Some(body),
        None => None,
    }
}

/// The pending request body while it still needs handing to the worker outbox.
pub open spec fn unsent_body(v: LobbyView) -> Option<RequestView> {
    match v.pending {
        Some((body, false)) => Some(body),
        _ => None,
    }
}

/// The queued-marking transition.
pub open spec fn queued_marked(v: LobbyView) -> (LobbyView, bool) {
    match v.pending {
        Some((body, false)) => (LobbyView { pending: Some((body, true)), ..v }, true),
        _ => (v, false),
    }
}

// ---------------------------------------------------------------------------------------------
// Allocation responses
// ---------------------------------------------------------------------------------------------

/// The route grant converted from `grant` for the pending request.
pub open spec fn route_grant_of(v: LobbyView, request_id: RequestId, body: AllocationGrantedBody, grant: AllocationGrant) -> MatchRouteGrant {
    MatchRouteGrant {
        request_id: request_id,
        allocation_id: body.allocation_id,
        match_id: body.match_id,
        route_id: grant.route_id,
        peer_id: grant.peer_id,
        game_mode: v.mode,
        capability: grant.capability->0,
        activation_expiry_unix_ms: grant.activation_expiry_unix_ms,
        route_expiry_unix_ms: grant.route_expiry_unix_ms,
    }
}

/// The first error among the first `k` grants, checked in order: a repeated session, an
/// unknown session, an invalid capability, or an activation expiring after its route.
pub open spec fn grants_error(sessions: Seq<LobbySession>, grants: Seq<AllocationGrant>, k: int) -> Option<LobbyAllocationError>
    decreases k,
{
    if k <= 0 {
        None
    } else {
        match grants_error(sessions, grants, k - 1) {
            Some(error) => Some(error),
            None => {
                let grant = grants[k - 1];
                if exists|j: int| 0 <= j < k - 1 && #[trigger] grants[j].lobby_session_id == grant.lobby_session_id {
                    Some(LobbyAllocationError::DuplicateSession)
                } else if lobby_id_index(sessions, grant.lobby_session_id) < 0 {
                    Some(LobbyAllocationError::UnknownSession)
                } else if grant.capability is None {
                    Some(LobbyAllocationError::InvalidCapability)
                } else if grant.activation_expiry_unix_ms > grant.route_expiry_unix_ms {
                    Some(LobbyAllocationError::InvalidExpiry)
                } else {
                    None
                }
            },
        }
    }
}

/// The client of the session a grant names.
pub open spec fn grant_client(sessions: Seq<LobbySession>, grant: AllocationGrant) -> NetcodeClientId {
    sessions[lobby_id_index(sessions, grant.lobby_session_id)].netcode_client_id
}

/// The number of the first `k` grants whose client has not taken part in an allocation before.
pub open spec fn new_identity_count(v: LobbyView, grants: Seq<AllocationGrant>, k: int) -> int
    decreases k,
{
    if k <= 0 {
        0
    } else {
        new_identity_count(v, grants, k - 1) + if v.allocated.contains(grant_client(v.sessions, grants[k - 1])) {
            0int
        } else {
            1int
        }
    }
}

/// The client list with `client` added when absent.
pub open spec fn with_client(clients: Seq<NetcodeClientId>, client: NetcodeClientId) -> Seq<NetcodeClientId> {
    if clients.contains(client) {
        clients
    } else {
        clients.push(client)
    }
}

/// The grants with `client`'s grant set to `grant`.
pub open spec fn with_grant(grants: Seq<ClientGrant>, client: NetcodeClientId, grant: MatchRouteGrant) -> Seq<ClientGrant> {
    let g = grant_index(grants, client);
    if g >= 0 {
        grants.update(g, ClientGrant { client: client, grant: grant })
    } else {
        grants.push(ClientGrant { client: client, grant: grant })
    }
}

/// The state after recording the first `k` grants: each client's route grant is stored and,
/// for an automatic allocation, its client is remembered as allocated.
pub open spec fn grants_recorded(v: LobbyView, request_id: RequestId, body: AllocationGrantedBody, k: int) -> LobbyView
    decreases k,
{
    if k <= 0 {
        v
    } else {
        let w = grants_recorded(v, request_id, body, k - 1);
        let grant = body.grants@[k - 1];
        let client = grant_client(v.sessions, grant);
        LobbyView {
            allocated: if v.product_request {
                w.allocated
            } else {
                with_client(w.allocated, client)
            },
            grants: with_grant(w.grants, client, route_grant_of(v, request_id, body, grant)),
            ..w
        }
    }
}

/// The grant transition: a response for the pending request with one valid grant per
/// participant stores every route grant, records the activation and closes the transaction.
#[verifier::opaque]
pub open spec fn granted(v: LobbyView, body: AllocationGrantedBody) -> (LobbyView, Result<(), LobbyAllocationError>) {
    match v.pending {
        None => (v, Err(LobbyAllocationError::NoPendingRequest)),
        Some((pending, _)) => {
            let grants = body.grants@;
            if body.request_id != pending.request_id {
                (v, Err(LobbyAllocationError::RequestMismatch))
            } else if grants.len() != pending.participants.len() {
                (v, Err(LobbyAllocationError::InvalidGrantCount))
            } else if let Some(error) = grants_error(v.sessions, grants, grants.len() as int) {
                (v, Err(error))
            } else if !v.product_request && v.allocated.len() + new_identity_count(v, grants, grants.len() as int)
                > MAX_ALLOCATED_LOBBY_CLIENT_IDS {
                (v, Err(LobbyAllocationError::AllocationIdentityMemoryFull))
            } else {
                let w = grants_recorded(v, pending.request_id, body, grants.len() as int);
                (
                    LobbyView {
                        active_allocation: Some(
                            ActivationBody {
                                request_id: pending.request_id,
                                allocation_id: body.allocation_id,
                                match_id: body.match_id,
                            },
                        ),
                        pending: None,
                        allocation_completed: true,
                        product_request: false,
                        ..w
                    },
                    Ok(()),
                )
            }
        },
    }
}

/// The rejection transition: a rejection of the pending request closes it for a later retry.
#[verifier::opaque]
pub open spec fn rejected(v: LobbyView, body: AllocationRejectedBody) -> (LobbyView, Result<(), LobbyAllocationError>) {
    match v.pending {
        None => (v, Err(LobbyAllocationError::NoPendingRequest)),
        Some((pending, _)) => if body.request_id != pending.request_id {
            (v, Err(LobbyAllocationError::RequestMismatch))
        } else {
            (
                LobbyView {
                    pending: None,
                    allocation_rejected: true,
                    product_cancel_requested: false,
                    product_request: false,
                    ..v
                },
                Ok(()),
            )
        },
    }
}

/// The control-frame transition.
#[verifier::opaque]
pub open spec fn control_applied(v: LobbyView, frame: ControlFrame) -> (LobbyView, Result<(), LobbyAllocationError>) {
    match frame.body {
        ControlBody::AllocationGranted(body) => granted(v, body),
        ControlBody::AllocationRejected(body) => rejected(v, body),
        ControlBody::Activated(body) => if v.active_allocation == Some(body) {
            (LobbyView { product_activated: true, ..v }, Ok(()))
        } else {
            (v, Err(LobbyAllocationError::RequestMismatch))
        },
        ControlBody::ActivationDissolved(body) => if v.active_allocation == Some(body) {
            (
                LobbyView { product_dissolved: true, active_allocation: None, allocation_completed: false, ..v },
                Ok(()),
            )
        } else {
            (v, Err(LobbyAllocationError::RequestMismatch))
        },
        ControlBody::LobbyCapacity(body) => (LobbyView { free_match_slots: body.free_match_slots, ..v }, Ok(())),
        ControlBody::Other => (v, Err(LobbyAllocationError::RequestMismatch)),
    }
}

/// The grant-delivery transition: the client's grant is taken out, at most once.
#[verifier::opaque]
pub open spec fn grant_taken(v: LobbyView, client_id: u64) -> (LobbyView, Option<MatchRouteGrant>) {
    let client = NetcodeClientId(client_id);
    let g = grant_index(v.grants, client);
    if client_id == 0 || g < 0 {
        (v, None)
    } else {
        (LobbyView { grants: v.grants.remove(g), ..v }, Some(v.grants[g].grant))
    }
}

// ---------------------------------------------------------------------------------------------
// Product allocation lifecycle
// ---------------------------------------------------------------------------------------------

/// The cancel transition of a product allocation: a request already sent and not yet activated
/// is cancelled once its activation arrives; otherwise the transaction closes now and its
/// activation, if any, is returned for dissolution.
#[verifier::opaque]
pub open spec fn product_cancelled(v: LobbyView) -> (LobbyView, Option<ActivationBody>) {
    if v.active_allocation is None && v.pending matches Some((_, true)) {
        (LobbyView { product_cancel_requested: true, grants: Seq::empty(), ..v }, None)
    } else {
        (
            LobbyView {
                pending: None,
                allocation_completed: false,
                grants: Seq::empty(),
                active_allocation: None,
                ..v
            },
            v.active_allocation,
        )
    }
}

/// The deferred-cancel transition: once the activation of a cancelled request arrives, it is
/// returned for dissolution.
#[verifier::opaque]
pub open spec fn deferred_cancel_taken(v: LobbyView) -> (LobbyView, Option<ActivationBody>) {
    if !v.product_cancel_requested || v.active_allocation is None {
        (v, None)
    } else {
        (
            LobbyView {
                active_allocation: None,
                product_cancel_requested: false,
                allocation_completed: false,
                grants: Seq::empty(),
                ..v
            },
            v.active_allocation,
        )
    }
}

/// The activation-completion transition: the transaction and every grant are cleared.
pub open spec fn activation_completed(v: LobbyView) -> LobbyView {
    LobbyView {
        pending: None,
        allocation_completed: false,
        active_allocation: None,
        grants: Seq::empty(),
        product_cancel_requested: false,
        product_request: false,
        ..v
    }
}

/// Once a grant fails, the first failure stays the answer for every longer prefix.
pub proof fn lemma_grants_error_sticky(sessions: Seq<LobbySession>, grants: Seq<AllocationGrant>, k: int, n: int)
    requires
        0 <= k <= n,
        grants_error(sessions, grants, k) is Some,
    ensures
        grants_error(sessions, grants, n) == grants_error(sessions, grants, k),
    decreases n - k,
{
    if k < n {
        lemma_grants_error_sticky(sessions, grants, k, n - 1);
    }
}

/// A prefix of grants without error names known sessions.
pub proof fn lemma_grants_known(sessions: Seq<LobbySession>, grants: Seq<AllocationGrant>, k: int, j: int)
    requires
        0 <= j < k,
        grants_error(sessions, grants, k) is None,
    ensures
        lobby_id_index(sessions, grants[j].lobby_session_id) >= 0,
        grants[j].capability is Some,
    decreases k,
{
    if j < k - 1 {
        lemma_grants_known(sessions, grants, k - 1, j);
    }
}

// ---------------------------------------------------------------------------------------------
// The product allocation request
// ---------------------------------------------------------------------------------------------

/// The mode-definition identities of the routed game modes.
#[derive(Clone, Copy, Debug, PartialEq, Eq, Structural)]
pub struct RoutingModes {
    pub wipeout: u16,
    pub hot_zone: u16,
    pub heist: u16,
}

/// The routed game mode of mode definition `definition`, if it is routed.
pub open spec fn routing_mode(modes: RoutingModes, definition: u16) -> Option<GameMode> {
    if definition == modes.wipeout {
        Some(GameMode::Wipeout)
    } else if definition == modes.hot_zone {
        Some(GameMode::HotZone)
    } else if definition == modes.heist {
        Some(GameMode::Heist)
    } else {
        None
    }
}

/// Index of the first advertised game type with identity `id`.
pub open spec fn game_index(games: Seq<crate::catalog::AdvertisedGameType>, id: crate::wire::GameTypeId) -> int {
    first_index(games, |g: crate::catalog::AdvertisedGameType| crate::wire::same_game(g.id, id))
}

/// The participant row of a reserved ticket: the ticket's session, the reserved team, the
/// client's accepted name and the ticket's accepted build.
pub open spec fn reserved_row(t: crate::queue::model::QueueTicket, team: u8, name: Seq<char>) -> ParticipantView {
    ParticipantView {
        lobby_session_id: t.lobby_session_id,
        player_id: t.player_id,
        netcode_client_id: t.netcode_client_id,
        team: team,
        display_name: name,
        recipe_fingerprint: t.accepted_build.recipe_fingerprint,
        build_revision: t.accepted_build.revision,
        build_snapshot: t.build_snapshot,
    }
}

/// The participant rows of the reserved participants, or `None` when a ticket is no longer held
/// or its client has no accepted name.
pub open spec fn reserved_rows(
    v: LobbyView,
    q: crate::queue::model::QueueView,
    parts: Seq<crate::queue::model::ReservedParticipant>,
) -> Option<Seq<ParticipantView>>
    decreases parts.len(),
{
    if parts.len() == 0 {
        Some(Seq::empty())
    } else {
        match reserved_rows(v, q, parts.drop_last()) {
            None => None,
            Some(rows) => match crate::queue::model::ticket_with_id(q, parts.last().ticket_id) {
                None => None,
                Some(t) => match name_of(v, t.netcode_client_id) {
                    None => None,
                    Some(name) => Some(rows.push(reserved_row(t, parts.last().team, name))),
                },
            },
        }
    }
}

/// The product-request transition: with no transaction open, open the allocation request of
/// reservation `r` at the next request identity, with its game's rules, routed mode and map
/// revision.
#[verifier::opaque]
pub open spec fn product_request_created(
    v: LobbyView,
    q: crate::queue::model::QueueView,
    r: crate::queue::model::ReservationView,
    catalog: crate::catalog::ResolvedLobbyCatalog,
    modes: RoutingModes,
    rules_profile: u8,
) -> (LobbyView, Result<(), CodecError>) {
    let games = catalog.game_types@;
    let g = game_index(games, r.game_type_id);
    if v.pending is Some || v.allocation_completed {
        (v, Ok(()))
    } else if g < 0 {
        (v, Err(CodecError::InvalidValue))
    } else if v.next_request_id == 0 {
        (v, Err(CodecError::ZeroId))
    } else if v.next_request_id == u64::MAX {
        (v, Err(CodecError::Oversize))
    } else {
        let v1 = LobbyView { next_request_id: (v.next_request_id + 1) as u64, ..v };
        match reserved_rows(v, q, r.participants) {
            None => (v1, Err(CodecError::InvalidValue)),
            Some(rows) => if rows.len() == 0 {
                (v1, Err(CodecError::InvalidValue))
            } else {
                match crate::catalog::rules_lookup(catalog.game_rules@, r.game_type_id) {
                    None => (v1, Err(CodecError::InvalidValue)),
                    Some(rules) => match routing_mode(modes, games[g].mode_definition_id) {
                        None => (v1, Err(CodecError::InvalidValue)),
                        Some(mode) => match crate::catalog::map_revision_lookup(
                            catalog.map_admission_revisions@,
                            r.map_preset_id,
                        ) {
                            None => (v1, Err(CodecError::InvalidValue)),
                            Some(revision) => {
                                let body = RequestView {
                                    request_id: RequestId(v.next_request_id),
                                    lobby_session_id: rows[0].lobby_session_id,
                                    mode: mode,
                                    map_preset: r.map_preset_id.0,
                                    map_revision: revision,
                                    rules_profile: rules_profile,
                                    objective_target: rules.objective_target,
                                    match_duration_ticks: rules.match_duration_ticks,
                                    countdown_ticks: rules.countdown_ticks,
                                    respawn_ticks: rules.respawn_ticks,
                                    team_count: r.team_count,
                                    players_per_team: r.players_per_team,
                                    participants: rows,
                                    bots: Seq::empty(),
                                };
                                (
                                    LobbyView {
                                        pending: Some((body, false)),
                                        product_request: true,
                                        allocation_rejected: false,
                                        ..v1
                                    },
                                    Ok(()),
                                )
                            },
                        },
                    },
                }
            },
        }
    }
}

/// Once a reserved participant cannot be rowed, no longer prefix can be.
pub proof fn lemma_reserved_rows_none(
    v: LobbyView,
    q: crate::queue::model::QueueView,
    parts: Seq<crate::queue::model::ReservedParticipant>,
    k: int,
    n: int,
)
    requires
        0 <= k <= n <= parts.len(),
        reserved_rows(v, q, parts.take(k)) is None,
    ensures
        reserved_rows(v, q, parts.take(n)) is None,
    decreases n - k,
{
    if k < n {
        lemma_reserved_rows_none(v, q, parts, k, n - 1);
        assert(parts.take(n).drop_last() =~= parts.take(n - 1));
    }
}

} // verus!
