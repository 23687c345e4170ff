//! The values the lobby exchanges with its supervisor over the control plane: allocation
//! requests, grants, rejections and activation facts.

use vstd::prelude::*;
use crate::ids::{
    AllocationId, LobbySessionId, MatchId, NetcodeClientId, PeerId, PlayerId, RequestId, RouteId,
};
use crate::wire::BuildSnapshot;

verus! {

/// The game mode a lobby worker allocates matches for.
#[derive(Clone, Copy, Debug, PartialEq, Eq, Structural)]
pub enum GameMode {
    Wipeout,
    HotZone,
    Heist,
}

/// Why an allocation request could not be encoded.
#[derive(Clone, Copy, Debug, PartialEq, Eq, Structural)]
pub enum CodecError {
    ZeroId,
    Oversize,
    InvalidValue,
}

/// One human participant of an allocation request.
#[derive(Clone, Debug, PartialEq, Eq)]
pub struct AllocateParticipant {
    pub lobby_session_id: LobbySessionId,
    pub player_id: PlayerId,
    pub netcode_client_id: NetcodeClientId,
    pub team: u8,
    pub display_name: String,
    pub recipe_fingerprint: u64,
    pub build_revision: u16,
    pub build_snapshot: BuildSnapshot,
}

/// The abstract value of a participant: its display name as text.
pub struct ParticipantView {
    pub lobby_session_id: LobbySessionId,
    pub player_id: PlayerId,
    pub netcode_client_id: NetcodeClientId,
    pub team: u8,
    pub display_name: Seq<char>,
    pub recipe_fingerprint: u64,
    pub build_revision: u16,
    pub build_snapshot: BuildSnapshot,
}

impl View for AllocateParticipant {
    type V = ParticipantView;

    open spec fn view(&self) -> ParticipantView {
        ParticipantView {
            lobby_session_id: self.lobby_session_id,
            player_id: self.player_id,
            netcode_client_id: self.netcode_client_id,
            team: self.team,
            display_name: self.display_name@,
            recipe_fingerprint: self.recipe_fingerprint,
            build_revision: self.build_revision,
            build_snapshot: self.build_snapshot,
        }
    }
}

impl AllocateParticipant {
    /// A copy of the participant.
    pub fn duplicate(&self) -> (copy: Self)
        ensures
            copy@ == self@,
    {
        AllocateParticipant {
            lobby_session_id: self.lobby_session_id,
            player_id: self.player_id,
            netcode_client_id: self.netcode_client_id,
            team: self.team,
            display_name: self.display_name.clone(),
            recipe_fingerprint: self.recipe_fingerprint,
            build_revision: self.build_revision,
            build_snapshot: self.build_snapshot,
        }
    }
}

/// One computer-controlled participant of an allocation request.
#[derive(Clone, Debug, PartialEq, Eq)]
pub struct AllocateBot {
    pub player_id: PlayerId,
    pub team: u8,
    pub display_name: String,
    pub recipe_fingerprint: u64,
    pub build_revision: u16,
    pub build_snapshot: BuildSnapshot,
}

/// The abstract value of a bot: its display name as text.
pub struct BotView {
    pub player_id: PlayerId,
    pub team: u8,
    pub display_name: Seq<char>,
    pub recipe_fingerprint: u64,
    pub build_revision: u16,
    pub build_snapshot: BuildSnapshot,
}

impl View for AllocateBot {
    type V = BotView;

    open spec fn view(&self) -> BotView {
        BotView {
            player_id: self.player_id,
            team: self.team,
            display_name: self.display_name@,
            recipe_fingerprint: self.recipe_fingerprint,
            build_revision: self.build_revision,
            build_snapshot: self.build_snapshot,
        }
    }
}

impl AllocateBot {
    /// A copy of the bot.
    pub fn duplicate(&self) -> (copy: Self)
        ensures
            copy@ == self@,
    {
        AllocateBot {
            player_id: self.player_id,
            team: self.team,
            display_name: self.display_name.clone(),
            recipe_fingerprint: self.recipe_fingerprint,
            build_revision: self.build_revision,
            build_snapshot: self.build_snapshot,
        }
    }
}

/// A request to the supervisor for one match allocation.
#[derive(Clone, Debug, PartialEq, Eq)]
pub struct AllocateRequestBody {
    pub request_id: RequestId,
    pub lobby_session_id: LobbySessionId,
    pub mode: GameMode,
    pub map_preset: u16,
    pub map_revision: u16,
    pub rules_profile: u8,
    pub objective_target: u16,
    pub match_duration_ticks: u64,
    pub countdown_ticks: u64,
    pub respawn_ticks: u64,
    pub team_count: u8,
    pub players_per_team: u8,
    pub participants: Vec<AllocateParticipant>,
    pub bots: Vec<AllocateBot>,
}

/// The abstract value of an allocation request.
pub struct RequestView {
    pub request_id: RequestId,
    pub lobby_session_id: LobbySessionId,
    pub mode: GameMode,
    pub map_preset: u16,
    pub map_revision: u16,
    pub rules_profile: u8,
    pub objective_target: u16,
    pub match_duration_ticks: u64,
    pub countdown_ticks: u64,
    pub respawn_ticks: u64,
    pub team_count: u8,
    pub players_per_team: u8,
    pub participants: Seq<ParticipantView>,
    pub bots: Seq<BotView>,
}

impl View for AllocateRequestBody {
    type V = RequestView;

    open spec fn view(&self) -> RequestView {
        RequestView {
            request_id: self.request_id,
            lobby_session_id: self.lobby_session_id,
            mode: self.mode,
            map_preset: self.map_preset,
            map_revision: self.map_revision,
            rules_profile: self.rules_profile,
            objective_target: self.objective_target,
            match_duration_ticks: self.match_duration_ticks,
            countdown_ticks: self.countdown_ticks,
            respawn_ticks: self.respawn_ticks,
            team_count: self.team_count,
            players_per_team: self.players_per_team,
            participants: self.participants@.map_values(|p: AllocateParticipant| p@),
            bots: self.bots@.map_values(|b: AllocateBot| b@),
        }
    }
}

impl AllocateRequestBody {
    /// A copy of the request.
    pub fn duplicate(&self) -> (copy: Self)
        ensures
            copy@ == self@,
    {
        let mut participants: Vec<AllocateParticipant> = Vec::new();
        let mut i: usize = 0;
        while i < self.participants.len()
            invariant
                i <= self.participants@.len(),
                participants@.len() == i,
                forall|j: int| 0 <= j < i ==> (#[trigger] participants@[j])@ == self.participants@[j]@,
            decreases self.participants@.len() - i,
        {
            participants.push(self.participants[i].duplicate());
            i = i + 1;
        }
        assert(participants@.map_values(|p: AllocateParticipant| p@) =~= self.participants@.map_values(
            |p: AllocateParticipant| p@,
        ));
        let mut bots: Vec<AllocateBot> = Vec::new();
        let mut k: usize = 0;
        while k < self.bots.len()
            invariant
                k <= self.bots@.len(),
                bots@.len() == k,
                forall|j: int| 0 <= j < k ==> (#[trigger] bots@[j])@ == self.bots@[j]@,
            decreases self.bots@.len() - k,
        {
            bots.push(self.bots[k].duplicate());
            k = k + 1;
        }
        assert(bots@.map_values(|b: AllocateBot| b@) =~= self.bots@.map_values(|b: AllocateBot| b@));
        AllocateRequestBody {
            request_id: self.request_id,
            lobby_session_id: self.lobby_session_id,
            mode: self.mode,
            map_preset: self.map_preset,
            map_revision: self.map_revision,
            rules_profile: self.rules_profile,
            objective_target: self.objective_target,
            match_duration_ticks: self.match_duration_ticks,
            countdown_ticks: self.countdown_ticks,
            respawn_ticks: self.respawn_ticks,
            team_count: self.team_count,
            players_per_team: self.players_per_team,
            participants: participants,
            bots: bots,
        }
    }
}

/// A validated route capability: the secret a client presents to its match route.
#[derive(Clone, Copy, PartialEq, Eq)]
pub struct RouteCapability(pub [u8; 32]);

/// One participant's grant in an allocation response. The capability is absent when the
/// supervisor's bytes are not a valid route capability.
#[derive(Clone, Copy, PartialEq, Eq)]
pub struct AllocationGrant {
    pub lobby_session_id: LobbySessionId,
    pub route_id: RouteId,
    pub peer_id: PeerId,
    pub capability: Option<RouteCapability>,
    pub activation_expiry_unix_ms: u64,
    pub route_expiry_unix_ms: u64,
}

/// The supervisor's grant of an allocation request.
#[derive(Clone, PartialEq, Eq)]
pub struct AllocationGrantedBody {
    pub request_id: RequestId,
    pub allocation_id: AllocationId,
    pub match_id: MatchId,
    pub grants: Vec<AllocationGrant>,
}

/// The supervisor's rejection of an allocation request.
#[derive(Clone, Copy, Debug, PartialEq, Eq, Structural)]
pub struct AllocationRejectedBody {
    pub request_id: RequestId,
    pub reason: u8,
    pub retry_after_ms: u32,
}

/// The identity of an activated allocation.
#[derive(Clone, Copy, Debug, PartialEq, Eq, Structural)]
pub struct ActivationBody {
    pub request_id: RequestId,
    pub allocation_id: AllocationId,
    pub match_id: MatchId,
}

/// The free match capacity the supervisor reports.
#[derive(Clone, Copy, Debug, PartialEq, Eq, Structural)]
pub struct LobbyCapacityBody {
    pub free_match_slots: u8,
}

/// One decoded worker control body.
#[derive(Clone, PartialEq, Eq)]
pub enum ControlBody {
    AllocationGranted(AllocationGrantedBody),
    AllocationRejected(AllocationRejectedBody),
    Activated(ActivationBody),
    ActivationDissolved(ActivationBody),
    LobbyCapacity(LobbyCapacityBody),
    /// Any control body that the lobby does not consume.
    Other,
}

/// One decoded worker control frame.
#[derive(Clone, PartialEq, Eq)]
pub struct ControlFrame {
    pub body: ControlBody,
}

/// A one-shot route grant delivered to one authenticated client.
#[derive(Clone, Copy, PartialEq, Eq)]
pub struct MatchRouteGrant {
    pub request_id: RequestId,
    pub allocation_id: AllocationId,
    pub match_id: MatchId,
    pub route_id: RouteId,
    pub peer_id: PeerId,
    pub game_mode: GameMode,
    pub capability: RouteCapability,
    pub activation_expiry_unix_ms: u64,
    pub route_expiry_unix_ms: u64,
}

} // verus!
