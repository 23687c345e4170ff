//! Practice matches: one player against computer-controlled bots, started from the lobby
//! without the queue.

use vstd::prelude::*;
use crate::catalog::{map_revision_lookup, rules_lookup, ResolvedLobbyCatalog};
use crate::decimal::{decimal_text, push_decimal};
use crate::ids::{
    BrawlerId, CatalogRevision, LobbySessionId, MapPresetId, MatchReservationId, PlayerId, PracticeRequestId,
    QueueTicketId, RequestId,
};
use crate::lobby::model::{game_index, name_of, routing_mode, LobbyView, RoutingModes};
use crate::lobby::routing::{AllocateBot, BotView, ParticipantView, RequestView};
use crate::session::{LobbyBuildIdentity, LobbySession};
use crate::wire::{AcceptedBuildSummary, GameTypeId};

verus! {

/// A player's request to start a practice match of one game type with one saved brawler.
#[derive(Clone, Debug, PartialEq, Eq)]
pub struct PracticeStartRequest {
    pub request_id: PracticeRequestId,
    pub catalog_revision: CatalogRevision,
    pub game_type_id: GameTypeId,
    pub game_type_configuration_revision: u32,
    pub brawler_id: BrawlerId,
    pub brawler_revision: u32,
}

/// Why a practice match was not started.
#[derive(Clone, Copy, Debug, PartialEq, Eq, Structural)]
pub enum PracticeStartRejection {
    Busy,
    CapacityUnavailable,
    StaleCatalog,
    UnknownGameType,
    StaleGameConfiguration,
    InvalidBuild,
    IncompatibleBuild,
    Internal,
}

/// What a player is told when its match starts forming.
#[derive(Clone, Debug, PartialEq, Eq)]
pub struct ReservationStarted {
    pub reservation_id: MatchReservationId,
    pub ticket_id: Option<QueueTicketId>,
    pub game_type_id: GameTypeId,
    pub map_preset_id: MapPresetId,
    pub team_count: u8,
    pub players_per_team: u8,
    pub accepted_build: AcceptedBuildSummary,
    pub loading_deadline_millis: u64,
}

impl ReservationStarted {
    /// A copy of the notice.
    pub fn duplicate(&self) -> (copy: Self)
        ensures
            copy == *self,
    {
        ReservationStarted {
            reservation_id: self.reservation_id,
            ticket_id: self.ticket_id,
            game_type_id: self.game_type_id.duplicate(),
            map_preset_id: self.map_preset_id,
            team_count: self.team_count,
            players_per_team: self.players_per_team,
            accepted_build: self.accepted_build,
            loading_deadline_millis: self.loading_deadline_millis,
        }
    }
}

/// The practice match being formed: whose request it answers, and what it was told.
#[derive(Clone, Debug, PartialEq, Eq)]
pub struct PracticeFormation {
    pub request_id: PracticeRequestId,
    pub session_id: LobbySessionId,
    pub started: ReservationStarted,
}

/// The bot in seat `ordinal + 1` of a practice roster: player identities count down from
/// `u64::MAX`, seats fill the teams in order, and bots are named `Bot 1`, `Bot 2`, ...
pub open spec fn practice_bot(ordinal: int, players_per_team: u8, build: LobbyBuildIdentity) -> BotView {
    BotView {
        player_id: PlayerId((u64::MAX - ordinal) as u64),
        team: ((ordinal + 1) / (players_per_team as int)) as u8,
        display_name: "Bot "@ + decimal_text((ordinal + 1) as nat),
        recipe_fingerprint: build.recipe_fingerprint,
        build_revision: build.build_revision,
        build_snapshot: build.snapshot,
    }
}

/// The number of bots that fill a practice roster of `team_count` teams of `players_per_team`
/// around the one human in the first seat.
pub open spec fn practice_bot_count(team_count: u8, players_per_team: u8) -> int {
    let roster = (team_count as int) * (players_per_team as int);
    if roster == 0 {
        0
    } else {
        roster - 1
    }
}

/// The bots that fill a practice roster of `team_count` teams of `players_per_team` around
/// the one human in the first seat, all with the practice bot build `build`.
pub open spec fn practice_bots(team_count: u8, players_per_team: u8, build: LobbyBuildIdentity) -> Seq<BotView> {
    Seq::new(
        practice_bot_count(team_count, players_per_team) as nat,
        |i: int| practice_bot(i, players_per_team, build),
    )
}

/// The bots of a practice roster of `team_count` teams of `players_per_team`.
pub fn practice_bot_rows(team_count: u8, players_per_team: u8, build: &LobbyBuildIdentity) -> (bots: Vec<
    AllocateBot,
>)
    ensures
        bots@.map_values(|b: AllocateBot| b@) == practice_bots(team_count, players_per_team, *build),
{
    assert((team_count as int) * (players_per_team as int) <= 255 * 255) by (nonlinear_arith)
        requires
            team_count < 256,
            players_per_team < 256,
    ;
    let roster = (team_count as usize) * (players_per_team as usize);
    let count = if roster == 0 {
        0
    } else {
        roster - 1
    };
    let ghost rows = practice_bots(team_count, players_per_team, *build);
    let mut bots: Vec<AllocateBot> = Vec::new();
    let mut ordinal: usize = 0;
    while ordinal < count
        invariant
            count == rows.len(),
            roster == (team_count as int) * (players_per_team as int),
            count == (if roster == 0 { 0 } else { roster - 1 }),
            rows == practice_bots(team_count, players_per_team, *build),
            ordinal <= count,
            bots@.len() == ordinal,
            forall|j: int| 0 <= j < ordinal ==> (#[trigger] bots@[j])@ == rows[j],
        decreases count - ordinal,
    {
        let seat = ordinal + 1;
        assert(players_per_team > 0) by (nonlinear_arith)
            requires
                roster == (team_count as int) * (players_per_team as int),
                ordinal < roster - 1,
        ;
        assert(seat / (players_per_team as usize) < 256) by (nonlinear_arith)
            requires
                roster == (team_count as int) * (players_per_team as int),
                seat < roster,
                players_per_team > 0,
                team_count < 256,
        ;
        let team = (seat / (players_per_team as usize)) as u8;
        let mut name = "Bot ".to_owned();
        push_decimal(&mut name, seat as u64);
        let bot = AllocateBot {
            player_id: PlayerId(u64::MAX - ordinal as u64),
            team: team,
            display_name: name,
            recipe_fingerprint: build.recipe_fingerprint,
            build_revision: build.build_revision,
            build_snapshot: build.snapshot,
        };
        assert(bot@ == rows[ordinal as int]);
        bots.push(bot);
        ordinal = ordinal + 1;
    }
    assert(bots@.map_values(|b: AllocateBot| b@) =~= rows);
    bots
}

/// The practice-request transition. With no transaction open, free match capacity, the
/// current catalog and game configuration, and the player's own admitted build, it opens an
/// allocation request at the next request identity: the player alone on team 0 under its
/// accepted name, the roster's other seats filled with practice bots, the game's first map,
/// rules and routed mode. `reservation_entropy` is the reservation identity drawn for it
/// (none when drawing failed), `bot_build` the practice bot build (none when it could not be
/// resolved). A failure after the request identity is taken leaves it taken.
#[verifier::opaque]
pub open spec fn practice_request_created(
    v: LobbyView,
    session: LobbySession,
    command: PracticeStartRequest,
    catalog: ResolvedLobbyCatalog,
    human: LobbyBuildIdentity,
    accepted_build: AcceptedBuildSummary,
    bot_build: Option<LobbyBuildIdentity>,
    reservation_entropy: Option<u128>,
    modes: RoutingModes,
    rules_profile: u8,
) -> (LobbyView, Result<ReservationStarted, PracticeStartRejection>) {
    let games = catalog.game_types@;
    let g = game_index(games, command.game_type_id);
    if v.pending is Some || v.allocation_completed {
        (v, Err(PracticeStartRejection::Busy))
    } else if v.free_match_slots == 0 {
        (v, Err(PracticeStartRejection::CapacityUnavailable))
    } else if command.catalog_revision != catalog.revision {
        (v, Err(PracticeStartRejection::StaleCatalog))
    } else if g < 0 {
        (v, Err(PracticeStartRejection::UnknownGameType))
    } else if games[g].configuration_revision != command.game_type_configuration_revision {
        (v, Err(PracticeStartRejection::StaleGameConfiguration))
    } else if human.snapshot.brawler_id != command.brawler_id || human.snapshot.brawler_revision
        != command.brawler_revision {
        (v, Err(PracticeStartRejection::InvalidBuild))
    } else if v.next_request_id == 0 || v.next_request_id == u64::MAX {
        (v, Err(PracticeStartRejection::Internal))
    } else {
        let v1 = LobbyView { next_request_id: (v.next_request_id + 1) as u64, ..v };
        let game = games[g];
        let bots_needed = practice_bot_count(game.team_count, game.players_per_team) > 0;
        match (reservation_entropy, name_of(v, session.netcode_client_id)) {
            (Some(entropy), Some(name)) => if entropy == 0 || (bots_needed && bot_build is None) {
                (v1, Err(PracticeStartRejection::Internal))
            } else {
                match (
                    rules_lookup(catalog.game_rules@, game.id),
                    routing_mode(modes, game.mode_definition_id),
                    map_revision_lookup(catalog.map_admission_revisions@, game.map_preset_ids@[0]),
                ) {
                    (Some(rules), Some(mode), Some(revision)) => {
                        let human_row = ParticipantView {
                            lobby_session_id: session.lobby_session_id,
                            player_id: session.player_id,
                            netcode_client_id: session.netcode_client_id,
                            team: 0,
                            display_name: name,
                            recipe_fingerprint: human.recipe_fingerprint,
                            build_revision: human.build_revision,
                            build_snapshot: human.snapshot,
                        };
                        let bots = match bot_build {
                            Some(build) => practice_bots(game.team_count, game.players_per_team, build),
                            None => Seq::empty(),
                        };
                        let body = RequestView {
                            request_id: RequestId(v.next_request_id),
                            lobby_session_id: session.lobby_session_id,
                            mode: mode,
                            map_preset: game.map_preset_ids@[0].0,
                            map_revision: revision,
                            rules_profile: rules_profile,
                            objective_target: rules.objective_target,
                            match_duration_ticks: rules.match_duration_ticks,
                            countdown_ticks: rules.countdown_ticks,
                            respawn_ticks: rules.respawn_ticks,
                            team_count: game.team_count,
                            players_per_team: game.players_per_team,
                            participants: seq![human_row],
                            bots: bots,
                        };
                        let started = ReservationStarted {
                            reservation_id: MatchReservationId(entropy),
                            ticket_id: None,
                            game_type_id: game.id,
                            map_preset_id: game.map_preset_ids@[0],
                            team_count: game.team_count,
                            players_per_team: game.players_per_team,
                            accepted_build: accepted_build,
                            loading_deadline_millis: 30_000,
                        };
                        (
                            LobbyView {
                                pending: Some((body, false)),
                                product_request: true,
                                allocation_rejected: false,
                                ..v1
                            },
                            Ok(started),
                        )
                    },
                    _ => (v1, Err(PracticeStartRejection::Internal)),
                }
            },
            _ => (v1, Err(PracticeStartRejection::Internal)),
        }
    }
}

} // verus!
