//! An authenticated lobby session, as the lobby and the queue see it.

use vstd::prelude::*;
use crate::ids::{LobbySessionId, NetcodeClientId, NetworkEntityId, PeerId, PlayerId, RouteId};
use crate::wire::BuildSnapshot;

verus! {

/// Build identity carried in allocation requests.
#[derive(Clone, Copy, Debug, PartialEq, Eq)]
pub struct LobbyBuildIdentity {
    pub recipe_fingerprint: u64,
    pub build_revision: u16,
    pub snapshot: BuildSnapshot,
}

/// One authenticated lobby participant.
#[derive(Clone, Copy, PartialEq, Eq)]
pub struct LobbySession {
    pub lobby_session_id: LobbySessionId,
    pub player_id: PlayerId,
    pub network_entity_id: NetworkEntityId,
    pub netcode_client_id: NetcodeClientId,
    pub route_id: RouteId,
    pub peer_id: PeerId,
    pub team: u8,
    pub build: LobbyBuildIdentity,
}

} // verus!
