//! The resolved operator catalog: advertised game types and their authoritative rules.

use vstd::prelude::*;
use crate::ids::{CatalogRevision, MapPresetId};
use crate::wire::{GameTypeId, same_game};

verus! {

/// The advertised objective summary of one game type.
#[derive(Clone, Copy, Debug, PartialEq, Eq, Structural)]
pub enum AdvertisedRulesSummary {
    Wipeout { target_score: u16, active_limit_ticks: u64 },
    HotZone { target_progress_ticks: u16, active_limit_ticks: u64 },
    Heist { safe_maximum_health: u16, active_limit_ticks: u64 },
}

/// One game type as the lobby advertises it.
#[derive(Clone, Debug, PartialEq, Eq)]
pub struct AdvertisedGameType {
    pub id: GameTypeId,
    pub configuration_revision: u32,
    pub display_name: String,
    pub mode_definition_id: u16,
    pub map_preset_ids: Vec<MapPresetId>,
    pub team_count: u8,
    pub players_per_team: u8,
    pub rules_summary: AdvertisedRulesSummary,
}

/// The authoritative rules a match of one game type runs with.
#[derive(Clone, Copy, Debug, PartialEq, Eq, Structural)]
pub struct ResolvedGameRules {
    pub objective_target: u16,
    pub match_duration_ticks: u64,
    pub countdown_ticks: u64,
    pub respawn_ticks: u64,
    pub spawn_protection_ticks: u64,
    pub completed_input_lock_ticks: u64,
    pub wipeout_recent_hostile_damage_credit_ticks: u64,
    pub heist_critical_health_percent: u8,
}

/// The rules of one game type, keyed by its identity.
#[derive(Clone, Debug, PartialEq, Eq)]
pub struct GameRulesEntry {
    pub game_type_id: GameTypeId,
    pub rules: ResolvedGameRules,
}

/// The admission revision of one map preset.
#[derive(Clone, Copy, Debug, PartialEq, Eq, Structural)]
pub struct MapAdmissionEntry {
    pub preset_id: MapPresetId,
    pub admission_revision: u16,
}

/// The resolved, immutable operator catalog.
#[derive(Clone, Debug, PartialEq, Eq)]
pub struct ResolvedLobbyCatalog {
    pub server_name: String,
    pub revision: CatalogRevision,
    pub game_types: Vec<AdvertisedGameType>,
    pub policy_revision: CatalogRevision,
    pub game_rules: Vec<GameRulesEntry>,
    pub map_admission_revisions: Vec<MapAdmissionEntry>,
}

/// The rules of the first entry keyed by `id`, if any.
pub open spec fn rules_lookup(entries: Seq<GameRulesEntry>, id: GameTypeId) -> Option<ResolvedGameRules> {
    if exists|i: int| 0 <= i < entries.len() && same_game(entries[i].game_type_id, id) {
        let i = choose|i: int|
            0 <= i < entries.len() && same_game(entries[i].game_type_id, id) && forall|j: int|
                0 <= j < i ==> !same_game(#[trigger] entries[j].game_type_id, id);
        Some(entries[i].rules)
    } else {
        None
    }
}

/// The admission revision of the first entry for `preset`, if any.
pub open spec fn map_revision_lookup(entries: Seq<MapAdmissionEntry>, preset: MapPresetId) -> Option<u16> {
    if exists|i: int| 0 <= i < entries.len() && entries[i].preset_id == preset {
        let i = choose|i: int|
            0 <= i < entries.len() && entries[i].preset_id == preset && forall|j: int|
                0 <= j < i ==> (#[trigger] entries[j].preset_id) != preset;
        Some(entries[i].admission_revision)
    } else {
        None
    }
}

/// The index of the first game type of mode `mode`, if any.
pub open spec fn first_game_of_mode(games: Seq<AdvertisedGameType>, mode: u16) -> Option<int> {
    if exists|i: int| 0 <= i < games.len() && games[i].mode_definition_id == mode {
        Some(
            choose|i: int|
                0 <= i < games.len() && games[i].mode_definition_id == mode && forall|j: int|
                    0 <= j < i ==> (#[trigger] games[j].mode_definition_id) != mode,
        )
    } else {
        None
    }
}

/// Whether two advertised game types never share an identity.
pub open spec fn distinct_game_ids(games: Seq<AdvertisedGameType>) -> bool {
    forall|i: int, j: int|
        0 <= i < games.len() && 0 <= j < games.len() && i != j ==> !same_game(
            #[trigger] games[i].id,
            #[trigger] games[j].id,
        )
}

/// Whether every advertised game type has a formation that fits a `u8` and at least one map.
pub open spec fn formations_fit(games: Seq<AdvertisedGameType>) -> bool {
    forall|i: int|
        0 <= i < games.len() ==> {
            &&& #[trigger] games[i].team_count * games[i].players_per_team <= u8::MAX
            &&& games[i].map_preset_ids@.len() > 0
        }
}

/// Whether no two advertised game types share an identity.
pub fn check_distinct_game_ids(games: &Vec<AdvertisedGameType>) -> (distinct: bool)
    ensures
        distinct == distinct_game_ids(games@),
{
    let mut i: usize = 0;
    while i < games.len()
        invariant
            i <= games@.len(),
            forall|a: int, b: int|
                0 <= a < i && 0 <= b < games@.len() && a != b ==> !same_game(
                    #[trigger] games@[a].id,
                    #[trigger] games@[b].id,
                ),
        decreases games@.len() - i,
    {
        let mut j: usize = 0;
        while j < games.len()
            invariant
                i < games@.len(),
                j <= games@.len(),
                forall|b: int| 0 <= b < j && b != i ==> !same_game(games@[i as int].id, #[trigger] games@[b].id),
            decreases games@.len() - j,
        {
            if j != i && games[i].id.same_as(&games[j].id) {
                assert(same_game(games@[i as int].id, games@[j as int].id));
                return false;
            }
            j = j + 1;
        }
        i = i + 1;
    }
    true
}

/// Whether every advertised game type's formation fits a `u8` and it has a map.
pub fn check_formations_fit(games: &Vec<AdvertisedGameType>) -> (fit: bool)
    ensures
        fit == formations_fit(games@),
{
    let mut i: usize = 0;
    while i < games.len()
        invariant
            i <= games@.len(),
            forall|k: int|
                0 <= k < i ==> {
                    &&& #[trigger] games@[k].team_count * games@[k].players_per_team <= u8::MAX
                    &&& games@[k].map_preset_ids@.len() > 0
                },
        decreases games@.len() - i,
    {
        let teams: u32 = games[i].team_count as u32;
        let players: u32 = games[i].players_per_team as u32;
        assert(teams * players <= 65025) by (nonlinear_arith)
            requires
                teams <= 255,
                players <= 255,
        ;
        let product: u32 = teams * players;
        if product > 255 || games[i].map_preset_ids.len() == 0 {
            let ghost g = games@[i as int];
            assert(product == g.team_count * g.players_per_team);
            assert(!(g.team_count * g.players_per_team <= u8::MAX && g.map_preset_ids@.len() > 0));
            return false;
        }
        i = i + 1;
    }
    true
}

impl ResolvedLobbyCatalog {
    /// Whether the catalog has the shape that resolution validates: distinct game identities,
    /// formations that fit a `u8`, and at least one map per game type.
    pub open spec fn well_formed(&self) -> bool {
        &&& distinct_game_ids(self.game_types@)
        &&& formations_fit(self.game_types@)
    }

    /// Whether the catalog has the shape resolution guarantees.
    pub fn is_well_formed(&self) -> (well_formed: bool)
        ensures
            well_formed == self.well_formed(),
    {
        check_distinct_game_ids(&self.game_types) && check_formations_fit(&self.game_types)
    }

    /// The authoritative rules of a game type.
    pub fn rules(&self, game_type_id: &GameTypeId) -> (rules: Option<ResolvedGameRules>)
        ensures
            rules == rules_lookup(self.game_rules@, *game_type_id),
    {
        let mut i: usize = 0;
        while i < self.game_rules.len()
            invariant
                i <= self.game_rules@.len(),
                forall|j: int| 0 <= j < i ==> !same_game(#[trigger] self.game_rules@[j].game_type_id, *game_type_id),
            decreases self.game_rules@.len() - i,
        {
            if self.game_rules[i].game_type_id.same_as(game_type_id) {
                let ghost entries = self.game_rules@;
                proof {
                    let k = choose|k: int|
                        0 <= k < entries.len() && same_game(entries[k].game_type_id, *game_type_id)
                            && forall|j: int| 0 <= j < k ==> !same_game(#[trigger] entries[j].game_type_id, *game_type_id);
                    assert(0 <= i < entries.len() && same_game(entries[i as int].game_type_id, *game_type_id));
                    if k < i {
                    } else if k > i {
                        assert(!same_game(entries[i as int].game_type_id, *game_type_id));
                    }
                }
                return Some(self.game_rules[i].rules);
            }
            i = i + 1;
        }
        None
    }

    /// The admission revision of a map preset.
    pub fn map_admission_revision(&self, preset_id: MapPresetId) -> (revision: Option<u16>)
        ensures
            revision == map_revision_lookup(self.map_admission_revisions@, preset_id),
    {
        let mut i: usize = 0;
        while i < self.map_admission_revisions.len()
            invariant
                i <= self.map_admission_revisions@.len(),
                forall|j: int| 0 <= j < i ==> (#[trigger] self.map_admission_revisions@[j].preset_id) != preset_id,
            decreases self.map_admission_revisions@.len() - i,
        {
            if self.map_admission_revisions[i].preset_id == preset_id {
                let ghost entries = self.map_admission_revisions@;
                proof {
                    let k = choose|k: int|
                        0 <= k < entries.len() && entries[k].preset_id == preset_id && forall|j: int|
                            0 <= j < k ==> (#[trigger] entries[j].preset_id) != preset_id;
                    assert(entries[i as int].preset_id == preset_id);
                    if k > i {
                        assert(entries[i as int].preset_id != preset_id);
                    }
                }
                return Some(self.map_admission_revisions[i].admission_revision);
            }
            i = i + 1;
        }
        None
    }

    /// The rules of the first advertised game type of one mode.
    pub fn first_rules_for_mode(&self, mode_definition_id: u16) -> (rules: Option<ResolvedGameRules>)
        ensures
            rules == (match first_game_of_mode(self.game_types@, mode_definition_id) {
                Some(i) => rules_lookup(self.game_rules@, self.game_types@[i].id),
                None => None,
            }),
    {
        let mut i: usize = 0;
        while i < self.game_types.len()
            invariant
                i <= self.game_types@.len(),
                forall|j: int| 0 <= j < i ==> (#[trigger] self.game_types@[j].mode_definition_id) != mode_definition_id,
            decreases self.game_types@.len() - i,
        {
            if self.game_types[i].mode_definition_id == mode_definition_id {
                let ghost games = self.game_types@;
                proof {
                    let k = choose|k: int|
                        0 <= k < games.len() && games[k].mode_definition_id == mode_definition_id
                            && forall|j: int| 0 <= j < k ==> (#[trigger] games[j].mode_definition_id) != mode_definition_id;
                    assert(games[i as int].mode_definition_id == mode_definition_id);
                    if k > i {
                        assert(games[i as int].mode_definition_id != mode_definition_id);
                    }
                    assert(first_game_of_mode(games, mode_definition_id) == Some(i as int));
                }
                return self.rules(&self.game_types[i].id);
            }
            i = i + 1;
        }
        None
    }
}

} // verus!
