//! Fail-closed resolution of the operator's game-type catalog into the immutable catalog the
//! lobby advertises. The project's own map, mode and rules validators are not part of this
//! library: their facts and verdicts come in as arguments.

use vstd::prelude::*;
use sha2::Digest;
use crate::catalog::{
    AdvertisedGameType, AdvertisedRulesSummary, GameRulesEntry, MapAdmissionEntry, ResolvedGameRules,
    ResolvedLobbyCatalog, check_distinct_game_ids, check_formations_fit, distinct_game_ids, formations_fit,
};
use crate::ids::{CatalogRevision, MapPresetId};
use crate::lobby::routing::GameMode;
use crate::wire::GameTypeId;

verus! {

/// The schema version this server reads.
pub const OPERATOR_CATALOG_SCHEMA_VERSION: u16 = 4;

/// The largest operator catalog file accepted.
pub const MAX_OPERATOR_CATALOG_BYTES: usize = 16384;

/// Simulation ticks per second.
pub const SIMULATION_TICK_HZ: u64 = 60;

/// The largest encoded lobby welcome the resolved catalog may produce.
pub const MAX_LOBBY_WELCOME_BYTES: usize = 32768;

/// Lifecycle ticks shared by every game type.
#[derive(Clone, Copy, Debug, PartialEq, Eq, Structural)]
pub struct OperatorCommonLifecyclePolicy {
    pub spawn_protection_ticks: u64,
    pub completed_input_lock_ticks: u64,
}

/// The wipeout policy shared by every wipeout game type.
#[derive(Clone, Copy, Debug, PartialEq, Eq, Structural)]
pub struct OperatorWipeoutPolicy {
    pub recent_hostile_damage_credit_ticks: u64,
}

/// The heist policy shared by every heist game type.
#[derive(Clone, Copy, Debug, PartialEq, Eq, Structural)]
pub struct OperatorHeistPolicy {
    pub critical_health_percent: u8,
}

/// The per-mode policies.
#[derive(Clone, Copy, Debug, PartialEq, Eq, Structural)]
pub struct OperatorModePolicies {
    pub wipeout: OperatorWipeoutPolicy,
    pub heist: OperatorHeistPolicy,
}

/// One game type as the operator writes it.
#[derive(Clone, Debug, PartialEq, Eq)]
pub struct OperatorGameType {
    pub id: String,
    pub revision: u32,
    pub name: String,
    pub mode: String,
    pub maps: Vec<String>,
    pub teams: u8,
    pub players_per_team: u8,
    pub kills_to_win: u16,
    pub capture_seconds: u16,
    pub safe_health: u16,
    pub match_duration_seconds: u16,
    pub countdown_seconds: u16,
    pub respawn_seconds: u16,
}

/// The operator catalog as parsed from its file. The map dimension limits are judged by the
/// map catalog and arrive as a verdict.
#[derive(Clone, Debug, PartialEq, Eq)]
pub struct OperatorCatalog {
    pub schema_version: u16,
    pub server_name: String,
    pub common_lifecycle: OperatorCommonLifecyclePolicy,
    pub mode_policies: OperatorModePolicies,
    pub game_types: Vec<OperatorGameType>,
}

/// What the mode catalog says of one mode key.
#[derive(Clone, Debug, PartialEq, Eq)]
pub struct ModeFacts {
    pub key: String,
    pub mode: GameMode,
    pub definition_id: u16,
    /// The map recipe modes this mode accepts.
    pub accepted_map_modes: Vec<u16>,
}

/// What the map catalog says of one map preset, judged against the operator's dimension limits.
#[derive(Clone, Debug, PartialEq, Eq)]
pub struct MapPresetFacts {
    pub key: String,
    pub id: MapPresetId,
    pub admission_revision: u16,
    /// The mode of the preset's recipe.
    pub mode_definition_id: u16,
    /// Whether the preset's dimensions lie within the operator's limits.
    pub within_limits: bool,
    /// Whether the preset resolves into a playable map.
    pub resolvable: bool,
    /// The largest team its spawn points serve.
    pub team_capacity: u8,
}

/// The project's catalog limits and lifecycle defaults that resolution checks against.
#[derive(Clone, Copy, Debug, PartialEq, Eq, Structural)]
pub struct CatalogLimits {
    pub max_game_types: usize,
    pub max_maps_per_game_type: usize,
    /// The team count of the default match lifecycle.
    pub lifecycle_team_count: u8,
}

/// The verdicts of the project's validators on the catalog as a whole.
#[derive(Debug, PartialEq, Eq)]
pub struct CatalogVerdicts {
    /// The server name as presentation-name validation accepted it.
    pub server_name: Result<String, String>,
    pub dimension_limits: Result<(), String>,
    /// The common lifecycle policy on the default lifecycle.
    pub lifecycle: Result<(), String>,
    pub wipeout_policy: Result<(), String>,
    pub heist_policy: Result<(), String>,
}

/// The verdicts of the project's validators on one game type.
#[derive(Debug, PartialEq, Eq)]
pub struct GameTypeVerdicts {
    pub id: Result<(), String>,
    /// The display name as presentation-name validation accepted it.
    pub name: Result<String, String>,
    /// The entry's lifecycle with its own durations.
    pub timing: Result<(), String>,
    /// The entry's objective against the mode's rules.
    pub objective: Result<(), String>,
}

/// Why an operator catalog was refused. `game` is the index of the game type and `map` that of
/// the map key within it.
#[derive(Clone, Debug, PartialEq, Eq)]
pub enum CatalogError {
    TooLarge,
    InvalidUtf8,
    UnsupportedSchema,
    InvalidServerName(String),
    InvalidDimensionLimits(String),
    GameTypeCount,
    InvalidLifecycle(String),
    InvalidWipeoutPolicy(String),
    InvalidHeistPolicy(String),
    InvalidGameTypeId { game: usize, reason: String },
    InvalidGameTypeName { game: usize, reason: String },
    ZeroRevision { game: usize },
    UnsupportedTopology { game: usize },
    InvalidTiming { game: usize },
    InvalidLifecycleTiming { game: usize, reason: String },
    MapCount { game: usize },
    UnknownModeOrObjective { game: usize },
    CaptureTooLong { game: usize },
    InvalidObjective { game: usize, reason: String },
    UnknownMap { game: usize, map: usize },
    DuplicateMap { game: usize, map: usize },
    MapOutsideDimensions { game: usize, map: usize },
    MapIncompatibleWithMode { game: usize, map: usize },
    MapUnresolvable { game: usize, map: usize },
    MapLacksCapacity { game: usize, map: usize },
    InvalidCatalog(String),
    DuplicateGameType,
    UnsupportedFormation,
    WelcomeTooLarge,
}

/// The resolved catalog before its revisions are sealed.
#[derive(Clone, Debug, PartialEq, Eq)]
pub struct CatalogResolution {
    pub server_name: String,
    pub game_types: Vec<AdvertisedGameType>,
    pub game_rules: Vec<GameRulesEntry>,
    pub map_admission_revisions: Vec<MapAdmissionEntry>,
    pub common_lifecycle: OperatorCommonLifecyclePolicy,
    pub mode_policies: OperatorModePolicies,
}

/// The SHA-256 digest of `bytes`.
pub uninterp spec fn sha256_of(bytes: Seq<u8>) -> Seq<u8>;

/// The postcard varint of `n`: seven bits per byte, least significant first, the high bit set
/// on every byte but the last.
pub open spec fn varint(n: nat) -> Seq<u8>
    decreases n,
{
    if n < 128 {
        seq![n as u8]
    } else {
        seq![(n % 128 + 128) as u8] + varint(n / 128)
    }
}

/// The postcard encoding of the catalog policy material: the schema version and the three tick
/// counts as varints, then the heist critical health percentage as one byte.
pub open spec fn postcard_policy_encoding(schema: u16, spawn: u64, lock: u64, credit: u64, percent: u8) -> Seq<u8> {
    varint(schema as nat) + varint(spawn as nat) + varint(lock as nat) + varint(credit as nat) + seq![percent]
}

/// Digest of `bytes` with `sha2::Sha256::digest`; the contract claims only that the digest is
/// the SHA-256 of its input.
#[verifier::external_body]
fn sha256_digest(bytes: &[u8]) -> (digest: [u8; 32])
    ensures
        digest@ == sha256_of(bytes@),
{
    sha2::Sha256::digest(bytes).into()
}

/// Whether `bytes` are UTF-8, by `std::str::from_utf8`, which fails exactly on invalid UTF-8.
#[verifier::external_body]
fn is_utf8(bytes: &[u8]) -> (valid: bool)
    ensures
        valid == vstd::utf8::valid_utf8(bytes@),
{
    std::str::from_utf8(bytes).is_ok()
}

/// The policy material encoded with `postcard::to_allocvec` into a growable vector, which
/// cannot fail for a tuple of integers; the contract claims the encoding is postcard's varint
/// and byte layout of the material.
#[verifier::external_body]
fn encode_policy_material(schema: u16, common: OperatorCommonLifecyclePolicy, policies: OperatorModePolicies) -> (bytes: Option<Vec<u8>>)
    ensures
        bytes is Some,
        bytes.unwrap()@ == postcard_policy_encoding(
            schema,
            common.spawn_protection_ticks,
            common.completed_input_lock_ticks,
            policies.wipeout.recent_hostile_damage_credit_ticks,
            policies.heist.critical_health_percent,
        ),
{
    postcard::to_allocvec(&(
        schema,
        (common.spawn_protection_ticks, common.completed_input_lock_ticks),
        ((policies.wipeout.recent_hostile_damage_credit_ticks,), (policies.heist.critical_health_percent,)),
    )).ok()
}

// ---------------------------------------------------------------------------------------------
// The model of resolution
// ---------------------------------------------------------------------------------------------

/// The verdict on the raw catalog file before parsing.
pub open spec fn bytes_verdict(bytes: Seq<u8>) -> Result<(), CatalogError> {
    if bytes.len() > MAX_OPERATOR_CATALOG_BYTES {
        Err(CatalogError::TooLarge)
    } else if !vstd::utf8::valid_utf8(bytes) {
        Err(CatalogError::InvalidUtf8)
    } else {
        Ok(())
    }
}

/// Seconds in simulation ticks; none when the product overflows or is zero.
pub open spec fn seconds_to_ticks(seconds: u16, hz: u64) -> Option<u64> {
    let ticks = seconds * hz;
    if ticks > u64::MAX || ticks == 0 {
        None
    } else {
        Some(ticks as u64)
    }
}

/// The first index at or after `i` of the mode keyed `key`, or -1.
pub open spec fn mode_index_from(modes: Seq<ModeFacts>, key: Seq<char>, i: int) -> int
    decreases modes.len() - i,
{
    if i < 0 || i >= modes.len() {
        -1
    } else if modes[i].key@ == key {
        i
    } else {
        mode_index_from(modes, key, i + 1)
    }
}

/// The first index at or after `i` of the preset keyed `key`, or -1.
pub open spec fn preset_index_from(maps: Seq<MapPresetFacts>, key: Seq<char>, i: int) -> int
    decreases maps.len() - i,
{
    if i < 0 || i >= maps.len() {
        -1
    } else if maps[i].key@ == key {
        i
    } else {
        preset_index_from(maps, key, i + 1)
    }
}

/// The objective target and advertised summary of a game type of mode `mode`.
pub open spec fn objective_of(
    e: OperatorGameType,
    game: usize,
    mode: GameMode,
    hz: u64,
    match_ticks: u64,
    verdict: Result<(), String>,
) -> Result<(u16, AdvertisedRulesSummary), CatalogError> {
    match mode {
        GameMode::Wipeout => if e.capture_seconds == 0 && e.safe_health == 0 {
            match verdict {
                Err(reason) => Err(CatalogError::InvalidObjective { game, reason }),
                Ok(()) => Ok((
                    e.kills_to_win,
                    AdvertisedRulesSummary::Wipeout { target_score: e.kills_to_win, active_limit_ticks: match_ticks },
                )),
            }
        } else {
            Err(CatalogError::UnknownModeOrObjective { game })
        },
        GameMode::HotZone => if e.kills_to_win == 0 && e.safe_health == 0 {
            match seconds_to_ticks(e.capture_seconds, hz) {
                None => Err(CatalogError::InvalidTiming { game }),
                Some(ticks) => if ticks > u16::MAX {
                    Err(CatalogError::CaptureTooLong { game })
                } else {
                    match verdict {
                        Err(reason) => Err(CatalogError::InvalidObjective { game, reason }),
                        Ok(()) => Ok((
                            ticks as u16,
                            AdvertisedRulesSummary::HotZone {
                                target_progress_ticks: ticks as u16,
                                active_limit_ticks: match_ticks,
                            },
                        )),
                    }
                },
            }
        } else {
            Err(CatalogError::UnknownModeOrObjective { game })
        },
        GameMode::Heist => if e.kills_to_win == 0 && e.capture_seconds == 0 && e.safe_health > 0 {
            match verdict {
                Err(reason) => Err(CatalogError::InvalidObjective { game, reason }),
                Ok(()) => Ok((
                    e.safe_health,
                    AdvertisedRulesSummary::Heist { safe_maximum_health: e.safe_health, active_limit_ticks: match_ticks },
                )),
            }
        } else {
            Err(CatalogError::UnknownModeOrObjective { game })
        },
    }
}

/// The preset the `m`-th map key of a game type names, given the presets taken before it.
pub open spec fn map_step(
    e: OperatorGameType,
    game: usize,
    m: int,
    mode: ModeFacts,
    maps: Seq<MapPresetFacts>,
    taken: Seq<MapPresetId>,
) -> Result<MapPresetId, CatalogError> {
    let p = preset_index_from(maps, e.maps@[m]@, 0);
    if p < 0 {
        Err(CatalogError::UnknownMap { game, map: m as usize })
    } else if taken.contains(maps[p].id) {
        Err(CatalogError::DuplicateMap { game, map: m as usize })
    } else if !maps[p].within_limits {
        Err(CatalogError::MapOutsideDimensions { game, map: m as usize })
    } else if !mode.accepted_map_modes@.contains(maps[p].mode_definition_id) {
        Err(CatalogError::MapIncompatibleWithMode { game, map: m as usize })
    } else if !maps[p].resolvable {
        Err(CatalogError::MapUnresolvable { game, map: m as usize })
    } else if e.players_per_team > maps[p].team_capacity {
        Err(CatalogError::MapLacksCapacity { game, map: m as usize })
    } else {
        Ok(maps[p].id)
    }
}

/// The presets of the first `n` map keys of a game type, or the first refusal.
pub open spec fn maps_prefix(
    e: OperatorGameType,
    game: usize,
    mode: ModeFacts,
    maps: Seq<MapPresetFacts>,
    n: nat,
) -> Result<Seq<MapPresetId>, CatalogError>
    decreases n,
{
    if n == 0 {
        Ok(Seq::empty())
    } else {
        match maps_prefix(e, game, mode, maps, (n - 1) as nat) {
            Err(error) => Err(error),
            Ok(taken) => match map_step(e, game, n - 1, mode, maps, taken) {
                Err(error) => Err(error),
                Ok(id) => Ok(taken.push(id)),
            },
        }
    }
}

/// One resolved game type: what is advertised of it and its authoritative rules.
pub struct ResolvedGameView {
    pub id: Seq<char>,
    pub revision: u32,
    pub display_name: Seq<char>,
    pub mode_definition_id: u16,
    pub maps: Seq<MapPresetId>,
    pub teams: u8,
    pub players_per_team: u8,
    pub summary: AdvertisedRulesSummary,
    pub rules: ResolvedGameRules,
}

/// Whether an advertised game type and its rules entry are the view `v`.
pub open spec fn shows_game(a: AdvertisedGameType, r: GameRulesEntry, v: ResolvedGameView) -> bool {
    &&& a.id.0@ == v.id
    &&& a.configuration_revision == v.revision
    &&& a.display_name@ == v.display_name
    &&& a.mode_definition_id == v.mode_definition_id
    &&& a.map_preset_ids@ == v.maps
    &&& a.team_count == v.teams
    &&& a.players_per_team == v.players_per_team
    &&& a.rules_summary == v.summary
    &&& r.game_type_id.0@ == v.id
    &&& r.rules == v.rules
}

/// The resolution of the `game`-th operator game type.
pub open spec fn entry_resolution(
    e: OperatorGameType,
    game: usize,
    v: GameTypeVerdicts,
    limits: CatalogLimits,
    common: OperatorCommonLifecyclePolicy,
    policies: OperatorModePolicies,
    modes: Seq<ModeFacts>,
    maps: Seq<MapPresetFacts>,
) -> Result<ResolvedGameView, CatalogError> {
    let hz = SIMULATION_TICK_HZ;
    match v.id {
        Err(reason) => Err(CatalogError::InvalidGameTypeId { game, reason }),
        Ok(()) => match v.name {
            Err(reason) => Err(CatalogError::InvalidGameTypeName { game, reason }),
            Ok(display_name) => if e.revision == 0 {
                Err(CatalogError::ZeroRevision { game })
            } else if e.teams != limits.lifecycle_team_count || e.teams != 2 || e.players_per_team < 1
                || e.players_per_team > 3 {
                Err(CatalogError::UnsupportedTopology { game })
            } else {
                match (
                    seconds_to_ticks(e.match_duration_seconds, hz),
                    seconds_to_ticks(e.countdown_seconds, hz),
                    seconds_to_ticks(e.respawn_seconds, hz),
                ) {
                    (Some(match_ticks), Some(countdown_ticks), Some(respawn_ticks)) => match v.timing {
                        Err(reason) => Err(CatalogError::InvalidLifecycleTiming { game, reason }),
                        Ok(()) => if e.maps@.len() == 0 || e.maps@.len() > limits.max_maps_per_game_type {
                            Err(CatalogError::MapCount { game })
                        } else {
                            let k = mode_index_from(modes, e.mode@, 0);
                            if k < 0 {
                                Err(CatalogError::UnknownModeOrObjective { game })
                            } else {
                                match objective_of(e, game, modes[k].mode, hz, match_ticks, v.objective) {
                                    Err(error) => Err(error),
                                    Ok((target, summary)) => match maps_prefix(
                                        e,
                                        game,
                                        modes[k],
                                        maps,
                                        e.maps@.len(),
                                    ) {
                                        Err(error) => Err(error),
                                        Ok(ids) => Ok(
                                            ResolvedGameView {
                                                id: e.id@,
                                                revision: e.revision,
                                                display_name: display_name@,
                                                mode_definition_id: modes[k].definition_id,
                                                maps: ids,
                                                teams: e.teams,
                                                players_per_team: e.players_per_team,
                                                summary,
                                                rules: ResolvedGameRules {
                                                    objective_target: target,
                                                    match_duration_ticks: match_ticks,
                                                    countdown_ticks,
                                                    respawn_ticks,
                                                    spawn_protection_ticks: common.spawn_protection_ticks,
                                                    completed_input_lock_ticks: common.completed_input_lock_ticks,
                                                    wipeout_recent_hostile_damage_credit_ticks:
                                                        policies.wipeout.recent_hostile_damage_credit_ticks,
                                                    heist_critical_health_percent:
                                                        policies.heist.critical_health_percent,
                                                },
                                            },
                                        ),
                                    },
                                }
                            }
                        },
                    },
                    _ => Err(CatalogError::InvalidTiming { game }),
                }
            },
        },
    }
}

/// The resolutions of the first `n` game types, or the first refusal.
pub open spec fn entries_prefix(
    op: OperatorCatalog,
    verdicts: Seq<GameTypeVerdicts>,
    limits: CatalogLimits,
    modes: Seq<ModeFacts>,
    maps: Seq<MapPresetFacts>,
    n: nat,
) -> Result<Seq<ResolvedGameView>, CatalogError>
    decreases n,
{
    if n == 0 {
        Ok(Seq::empty())
    } else {
        match entries_prefix(op, verdicts, limits, modes, maps, (n - 1) as nat) {
            Err(error) => Err(error),
            Ok(games) => match entry_resolution(
                op.game_types@[n - 1],
                (n - 1) as usize,
                verdicts[n - 1],
                limits,
                op.common_lifecycle,
                op.mode_policies,
                modes,
                maps,
            ) {
                Err(error) => Err(error),
                Ok(game) => Ok(games.push(game)),
            },
        }
    }
}

/// The verdict on a parsed operator catalog: its schema, the whole-catalog verdicts and the
/// game-type count, in the order resolution checks them, then each game type in turn.
pub open spec fn operator_resolution(
    op: OperatorCatalog,
    limits: CatalogLimits,
    checks: CatalogVerdicts,
    verdicts: Seq<GameTypeVerdicts>,
    modes: Seq<ModeFacts>,
    maps: Seq<MapPresetFacts>,
) -> Result<(Seq<char>, Seq<ResolvedGameView>), CatalogError> {
    if op.schema_version != OPERATOR_CATALOG_SCHEMA_VERSION {
        Err(CatalogError::UnsupportedSchema)
    } else {
        match checks.server_name {
            Err(reason) => Err(CatalogError::InvalidServerName(reason)),
            Ok(server_name) => match checks.dimension_limits {
                Err(reason) => Err(CatalogError::InvalidDimensionLimits(reason)),
                Ok(()) => if op.game_types@.len() == 0 || op.game_types@.len() > limits.max_game_types {
                    Err(CatalogError::GameTypeCount)
                } else {
                    match checks.lifecycle {
                        Err(reason) => Err(CatalogError::InvalidLifecycle(reason)),
                        Ok(()) => match checks.wipeout_policy {
                            Err(reason) => Err(CatalogError::InvalidWipeoutPolicy(reason)),
                            Ok(()) => match checks.heist_policy {
                                Err(reason) => Err(CatalogError::InvalidHeistPolicy(reason)),
                                Ok(()) => match entries_prefix(
                                    op,
                                    verdicts,
                                    limits,
                                    modes,
                                    maps,
                                    op.game_types@.len(),
                                ) {
                                    Err(error) => Err(error),
                                    Ok(games) => Ok((server_name@, games)),
                                },
                            },
                        },
                    }
                },
            },
        }
    }
}

/// Whether `r` is the resolution `(server_name, games)` of an operator catalog with policies
/// `op` over the presets `maps`.
pub open spec fn shows_resolution(
    r: CatalogResolution,
    op: OperatorCatalog,
    maps: Seq<MapPresetFacts>,
    server_name: Seq<char>,
    games: Seq<ResolvedGameView>,
) -> bool {
    &&& r.server_name@ == server_name
    &&& r.game_types@.len() == games.len()
    &&& r.game_rules@.len() == games.len()
    &&& forall|i: int| 0 <= i < games.len() ==> shows_game(#[trigger] r.game_types@[i], r.game_rules@[i], games[i])
    &&& r.map_admission_revisions@.len() == maps.len()
    &&& forall|i: int|
        0 <= i < maps.len() ==> #[trigger] r.map_admission_revisions@[i] == (MapAdmissionEntry {
            preset_id: maps[i].id,
            admission_revision: maps[i].admission_revision,
        })
    &&& r.common_lifecycle == op.common_lifecycle
    &&& r.mode_policies == op.mode_policies
}

/// The value of a byte string read big-endian.
pub open spec fn be_value(s: Seq<u8>) -> nat
    decreases s.len(),
{
    if s.len() == 0 {
        0
    } else {
        be_value(s.drop_last()) * 256 + (s.last() as nat)
    }
}

/// The catalog revision a 32-byte digest spells.
pub open spec fn revision_of(digest: Seq<u8>) -> CatalogRevision {
    CatalogRevision(be_value(digest.subrange(0, 16)) as u128, be_value(digest.subrange(16, 32)) as u128)
}

/// The verdict on sealing a resolution: the catalog validator's verdict, distinct game
/// identities, formations that fit and the welcome size, in that order.
pub open spec fn seal_verdict(
    r: CatalogResolution,
    catalog_check: Result<(), String>,
    welcome_bytes: usize,
) -> Result<(), CatalogError> {
    match catalog_check {
        Err(reason) => Err(CatalogError::InvalidCatalog(reason)),
        Ok(()) => if !distinct_game_ids(r.game_types@) {
            Err(CatalogError::DuplicateGameType)
        } else if !formations_fit(r.game_types@) {
            Err(CatalogError::UnsupportedFormation)
        } else if welcome_bytes > MAX_LOBBY_WELCOME_BYTES {
            Err(CatalogError::WelcomeTooLarge)
        } else {
            Ok(())
        },
    }
}

/// `256^n`.
pub open spec fn pow256(n: nat) -> nat
    decreases n,
{
    if n == 0 {
        1
    } else {
        256 * pow256((n - 1) as nat)
    }
}

proof fn lemma_be_value_bound(s: Seq<u8>)
    ensures
        be_value(s) < pow256(s.len()),
    decreases s.len(),
{
    if s.len() > 0 {
        lemma_be_value_bound(s.drop_last());
    }
}

proof fn lemma_pow256_16()
    ensures
        pow256(16) == 0x1_0000_0000_0000_0000_0000_0000_0000_0000,
{
    reveal_with_fuel(pow256, 17);
}

proof fn lemma_pow256_monotone(a: nat, b: nat)
    requires
        a <= b,
    ensures
        pow256(a) <= pow256(b),
    decreases b,
{
    if a < b {
        lemma_pow256_monotone(a, (b - 1) as nat);
    }
}

// ---------------------------------------------------------------------------------------------
// Resolution
// ---------------------------------------------------------------------------------------------

/// Refuses a catalog file over 16 KiB or not UTF-8, before it is parsed.
pub fn check_catalog_bytes(bytes: &[u8]) -> (verdict: Result<(), CatalogError>)
    ensures
        verdict == bytes_verdict(bytes@),
{
    if bytes.len() > MAX_OPERATOR_CATALOG_BYTES {
        return Err(CatalogError::TooLarge);
    }
    if !is_utf8(bytes) {
        return Err(CatalogError::InvalidUtf8);
    }
    Ok(())
}

fn ticks_of(seconds: u16, hz: u64) -> (ticks: Option<u64>)
    ensures
        ticks == seconds_to_ticks(seconds, hz),
{
    let wide: u64 = seconds as u64;
    match wide.checked_mul(hz) {
        None => None,
        Some(t) => if t == 0 {
            None
        } else {
            Some(t)
        },
    }
}

fn find_mode(modes: &Vec<ModeFacts>, key: &String) -> (found: Option<usize>)
    ensures
        match found {
            Some(k) => k as int == mode_index_from(modes@, key@, 0) && k < modes@.len(),
            None => mode_index_from(modes@, key@, 0) < 0,
        },
{
    let mut i: usize = 0;
    while i < modes.len()
        invariant
            i <= modes@.len(),
            mode_index_from(modes@, key@, 0) == mode_index_from(modes@, key@, i as int),
        decreases modes@.len() - i,
    {
        if modes[i].key == *key {
            return Some(i);
        }
        i = i + 1;
    }
    None
}

fn find_preset(maps: &Vec<MapPresetFacts>, key: &String) -> (found: Option<usize>)
    ensures
        match found {
            Some(p) => p as int == preset_index_from(maps@, key@, 0) && p < maps@.len(),
            None => preset_index_from(maps@, key@, 0) < 0,
        },
{
    let mut i: usize = 0;
    while i < maps.len()
        invariant
            i <= maps@.len(),
            preset_index_from(maps@, key@, 0) == preset_index_from(maps@, key@, i as int),
        decreases maps@.len() - i,
    {
        if maps[i].key == *key {
            return Some(i);
        }
        i = i + 1;
    }
    None
}

fn contains_mode(modes: &Vec<u16>, mode: u16) -> (found: bool)
    ensures
        found == modes@.contains(mode),
{
    let mut i: usize = 0;
    while i < modes.len()
        invariant
            i <= modes@.len(),
            forall|j: int| 0 <= j < i ==> modes@[j] != mode,
        decreases modes@.len() - i,
    {
        if modes[i] == mode {
            assert(modes@[i as int] == mode);
            return true;
        }
        i = i + 1;
    }
    false
}

fn contains_preset(ids: &Vec<MapPresetId>, id: MapPresetId) -> (found: bool)
    ensures
        found == ids@.contains(id),
{
    let mut i: usize = 0;
    while i < ids.len()
        invariant
            i <= ids@.len(),
            forall|j: int| 0 <= j < i ==> ids@[j] != id,
        decreases ids@.len() - i,
    {
        if ids[i] == id {
            assert(ids@[i as int] == id);
            return true;
        }
        i = i + 1;
    }
    false
}

fn resolve_objective(
    e: &OperatorGameType,
    game: usize,
    mode: GameMode,
    hz: u64,
    match_ticks: u64,
    verdict: &Result<(), String>,
) -> (resolved: Result<(u16, AdvertisedRulesSummary), CatalogError>)
    ensures
        resolved == objective_of(*e, game, mode, hz, match_ticks, *verdict),
{
    match mode {
        GameMode::Wipeout => {
            if e.capture_seconds != 0 || e.safe_health != 0 {
                return Err(CatalogError::UnknownModeOrObjective { game });
            }
            match verdict {
                Err(reason) => Err(CatalogError::InvalidObjective { game, reason: reason.clone() }),
                Ok(()) => Ok((
                    e.kills_to_win,
                    AdvertisedRulesSummary::Wipeout { target_score: e.kills_to_win, active_limit_ticks: match_ticks },
                )),
            }
        },
        GameMode::HotZone => {
            if e.kills_to_win != 0 || e.safe_health != 0 {
                return Err(CatalogError::UnknownModeOrObjective { game });
            }
            let ticks = match ticks_of(e.capture_seconds, hz) {
                None => return Err(CatalogError::InvalidTiming { game }),
                Some(ticks) => ticks,
            };
            if ticks > 65535 {
                return Err(CatalogError::CaptureTooLong { game });
            }
            let target: u16 = ticks as u16;
            match verdict {
                Err(reason) => Err(CatalogError::InvalidObjective { game, reason: reason.clone() }),
                Ok(()) => Ok((
                    target,
                    AdvertisedRulesSummary::HotZone { target_progress_ticks: target, active_limit_ticks: match_ticks },
                )),
            }
        },
        GameMode::Heist => {
            if e.kills_to_win != 0 || e.capture_seconds != 0 || e.safe_health == 0 {
                return Err(CatalogError::UnknownModeOrObjective { game });
            }
            match verdict {
                Err(reason) => Err(CatalogError::InvalidObjective { game, reason: reason.clone() }),
                Ok(()) => Ok((
                    e.safe_health,
                    AdvertisedRulesSummary::Heist { safe_maximum_health: e.safe_health, active_limit_ticks: match_ticks },
                )),
            }
        },
    }
}

fn resolve_maps(
    e: &OperatorGameType,
    game: usize,
    mode: &ModeFacts,
    maps: &Vec<MapPresetFacts>,
) -> (resolved: Result<Vec<MapPresetId>, CatalogError>)
    ensures
        match maps_prefix(*e, game, *mode, maps@, e.maps@.len()) {
            Ok(ids) => resolved matches Ok(v) && v@ == ids,
            Err(error) => resolved == Err::<Vec<MapPresetId>, CatalogError>(error),
        },
{
    let mut ids: Vec<MapPresetId> = Vec::new();
    let mut m: usize = 0;
    while m < e.maps.len()
        invariant
            m <= e.maps@.len(),
            maps_prefix(*e, game, *mode, maps@, m as nat) == Ok::<Seq<MapPresetId>, CatalogError>(ids@),
        decreases e.maps@.len() - m,
    {
        let step: Result<MapPresetId, CatalogError> = match find_preset(maps, &e.maps[m]) {
            None => Err(CatalogError::UnknownMap { game, map: m }),
            Some(p) => {
                let preset = &maps[p];
                if contains_preset(&ids, preset.id) {
                    Err(CatalogError::DuplicateMap { game, map: m })
                } else if !preset.within_limits {
                    Err(CatalogError::MapOutsideDimensions { game, map: m })
                } else if !contains_mode(&mode.accepted_map_modes, preset.mode_definition_id) {
                    Err(CatalogError::MapIncompatibleWithMode { game, map: m })
                } else if !preset.resolvable {
                    Err(CatalogError::MapUnresolvable { game, map: m })
                } else if e.players_per_team > preset.team_capacity {
                    Err(CatalogError::MapLacksCapacity { game, map: m })
                } else {
                    Ok(preset.id)
                }
            },
        };
        assert(step == map_step(*e, game, m as int, *mode, maps@, ids@));
        match step {
            Err(error) => {
                proof {
                    lemma_maps_prefix_stops(*e, game, *mode, maps@, (m + 1) as nat, e.maps@.len());
                }
                return Err(error);
            },
            Ok(id) => {
                ids.push(id);
            },
        }
        m = m + 1;
    }
    Ok(ids)
}

proof fn lemma_maps_prefix_stops(
    e: OperatorGameType,
    game: usize,
    mode: ModeFacts,
    maps: Seq<MapPresetFacts>,
    n: nat,
    total: nat,
)
    requires
        n <= total,
        maps_prefix(e, game, mode, maps, n) is Err,
    ensures
        maps_prefix(e, game, mode, maps, total) == maps_prefix(e, game, mode, maps, n),
    decreases total - n,
{
    if n < total {
        lemma_maps_prefix_stops(e, game, mode, maps, n, (total - 1) as nat);
    }
}

proof fn lemma_entries_prefix_stops(
    op: OperatorCatalog,
    verdicts: Seq<GameTypeVerdicts>,
    limits: CatalogLimits,
    modes: Seq<ModeFacts>,
    maps: Seq<MapPresetFacts>,
    n: nat,
    total: nat,
)
    requires
        n <= total,
        entries_prefix(op, verdicts, limits, modes, maps, n) is Err,
    ensures
        entries_prefix(op, verdicts, limits, modes, maps, total) == entries_prefix(
            op,
            verdicts,
            limits,
            modes,
            maps,
            n,
        ),
    decreases total - n,
{
    if n < total {
        lemma_entries_prefix_stops(op, verdicts, limits, modes, maps, n, (total - 1) as nat);
    }
}

fn resolve_entry(
    e: &OperatorGameType,
    game: usize,
    v: &GameTypeVerdicts,
    limits: CatalogLimits,
    common: OperatorCommonLifecyclePolicy,
    policies: OperatorModePolicies,
    modes: &Vec<ModeFacts>,
    maps: &Vec<MapPresetFacts>,
) -> (resolved: Result<(AdvertisedGameType, GameRulesEntry), CatalogError>)
    ensures
        match entry_resolution(*e, game, *v, limits, common, policies, modes@, maps@) {
            Ok(view) => resolved matches Ok((a, r)) && shows_game(a, r, view),
            Err(error) => resolved == Err::<(AdvertisedGameType, GameRulesEntry), CatalogError>(error),
        },
{
    let hz = SIMULATION_TICK_HZ;
    if let Err(reason) = &v.id {
        return Err(CatalogError::InvalidGameTypeId { game, reason: reason.clone() });
    }
    let display_name = match &v.name {
        Err(reason) => return Err(CatalogError::InvalidGameTypeName { game, reason: reason.clone() }),
        Ok(name) => name.clone(),
    };
    if e.revision == 0 {
        return Err(CatalogError::ZeroRevision { game });
    }
    if e.teams != limits.lifecycle_team_count || e.teams != 2 || e.players_per_team < 1 || e.players_per_team > 3 {
        return Err(CatalogError::UnsupportedTopology { game });
    }
    let match_ticks = ticks_of(e.match_duration_seconds, hz);
    let countdown_ticks = ticks_of(e.countdown_seconds, hz);
    let respawn_ticks = ticks_of(e.respawn_seconds, hz);
    let (match_ticks, countdown_ticks, respawn_ticks) = match (match_ticks, countdown_ticks, respawn_ticks) {
        (Some(a), Some(b), Some(c)) => (a, b, c),
        _ => return Err(CatalogError::InvalidTiming { game }),
    };
    if let Err(reason) = &v.timing {
        return Err(CatalogError::InvalidLifecycleTiming { game, reason: reason.clone() });
    }
    if e.maps.len() == 0 || e.maps.len() > limits.max_maps_per_game_type {
        return Err(CatalogError::MapCount { game });
    }
    let k = match find_mode(modes, &e.mode) {
        None => return Err(CatalogError::UnknownModeOrObjective { game }),
        Some(k) => k,
    };
    let (target, summary) = match resolve_objective(e, game, modes[k].mode, hz, match_ticks, &v.objective) {
        Err(error) => return Err(error),
        Ok(resolved) => resolved,
    };
    let ids = match resolve_maps(e, game, &modes[k], maps) {
        Err(error) => return Err(error),
        Ok(ids) => ids,
    };
    let advertised = AdvertisedGameType {
        id: GameTypeId(e.id.clone()),
        configuration_revision: e.revision,
        display_name: display_name,
        mode_definition_id: modes[k].definition_id,
        map_preset_ids: ids,
        team_count: e.teams,
        players_per_team: e.players_per_team,
        rules_summary: summary,
    };
    let rules = GameRulesEntry {
        game_type_id: GameTypeId(e.id.clone()),
        rules: ResolvedGameRules {
            objective_target: target,
            match_duration_ticks: match_ticks,
            countdown_ticks: countdown_ticks,
            respawn_ticks: respawn_ticks,
            spawn_protection_ticks: common.spawn_protection_ticks,
            completed_input_lock_ticks: common.completed_input_lock_ticks,
            wipeout_recent_hostile_damage_credit_ticks: policies.wipeout.recent_hostile_damage_credit_ticks,
            heist_critical_health_percent: policies.heist.critical_health_percent,
        },
    };
    Ok((advertised, rules))
}

/// Resolves a parsed operator catalog into the advertised game types, their authoritative
/// rules and the map admission revisions, refusing it at the first check that fails. The
/// project's validators and catalogs speak through `checks` (the catalog as a whole),
/// `verdicts` (one per game type, in order), `modes` and `maps`.
pub fn resolve_operator_catalog(
    op: &OperatorCatalog,
    limits: CatalogLimits,
    checks: &CatalogVerdicts,
    verdicts: &Vec<GameTypeVerdicts>,
    modes: &Vec<ModeFacts>,
    maps: &Vec<MapPresetFacts>,
) -> (resolved: Result<CatalogResolution, CatalogError>)
    requires
        verdicts@.len() == op.game_types@.len(),
    ensures
        match operator_resolution(*op, limits, *checks, verdicts@, modes@, maps@) {
            Ok((server_name, games)) => resolved matches Ok(r) && shows_resolution(r, *op, maps@, server_name, games),
            Err(error) => resolved == Err::<CatalogResolution, CatalogError>(error),
        },
{
    if op.schema_version != OPERATOR_CATALOG_SCHEMA_VERSION {
        return Err(CatalogError::UnsupportedSchema);
    }
    let server_name = match &checks.server_name {
        Err(reason) => return Err(CatalogError::InvalidServerName(reason.clone())),
        Ok(name) => name.clone(),
    };
    if let Err(reason) = &checks.dimension_limits {
        return Err(CatalogError::InvalidDimensionLimits(reason.clone()));
    }
    if op.game_types.len() == 0 || op.game_types.len() > limits.max_game_types {
        return Err(CatalogError::GameTypeCount);
    }
    if let Err(reason) = &checks.lifecycle {
        return Err(CatalogError::InvalidLifecycle(reason.clone()));
    }
    if let Err(reason) = &checks.wipeout_policy {
        return Err(CatalogError::InvalidWipeoutPolicy(reason.clone()));
    }
    if let Err(reason) = &checks.heist_policy {
        return Err(CatalogError::InvalidHeistPolicy(reason.clone()));
    }
    let mut game_types: Vec<AdvertisedGameType> = Vec::new();
    let mut game_rules: Vec<GameRulesEntry> = Vec::new();
    let ghost mut games: Seq<ResolvedGameView> = Seq::empty();
    let mut i: usize = 0;
    while i < op.game_types.len()
        invariant
            i <= op.game_types@.len(),
            verdicts@.len() == op.game_types@.len(),
            op.schema_version == OPERATOR_CATALOG_SCHEMA_VERSION,
            checks.server_name is Ok,
            checks.dimension_limits is Ok,
            0 < op.game_types@.len() <= limits.max_game_types,
            checks.lifecycle is Ok,
            checks.wipeout_policy is Ok,
            checks.heist_policy is Ok,
            entries_prefix(*op, verdicts@, limits, modes@, maps@, i as nat) == Ok::<
                Seq<ResolvedGameView>,
                CatalogError,
            >(games),
            games.len() == i,
            game_types@.len() == i,
            game_rules@.len() == i,
            forall|j: int| 0 <= j < i ==> shows_game(#[trigger] game_types@[j], game_rules@[j], games[j]),
        decreases op.game_types@.len() - i,
    {
        let ghost step = entry_resolution(
            op.game_types@[i as int],
            i,
            verdicts@[i as int],
            limits,
            op.common_lifecycle,
            op.mode_policies,
            modes@,
            maps@,
        );
        match resolve_entry(
            &op.game_types[i],
            i,
            &verdicts[i],
            limits,
            op.common_lifecycle,
            op.mode_policies,
            modes,
            maps,
        ) {
            Err(error) => {
                proof {
                    assert(entries_prefix(*op, verdicts@, limits, modes@, maps@, (i + 1) as nat) == Err::<
                        Seq<ResolvedGameView>,
                        CatalogError,
                    >(error));
                    lemma_entries_prefix_stops(
                        *op,
                        verdicts@,
                        limits,
                        modes@,
                        maps@,
                        (i + 1) as nat,
                        op.game_types@.len(),
                    );
                }
                return Err(error);
            },
            Ok((advertised, rules)) => {
                proof {
                    games = games.push(step->Ok_0);
                }
                game_types.push(advertised);
                game_rules.push(rules);
            },
        }
        i = i + 1;
    }
    let mut revisions: Vec<MapAdmissionEntry> = Vec::new();
    let mut p: usize = 0;
    while p < maps.len()
        invariant
            p <= maps@.len(),
            revisions@.len() == p,
            forall|j: int|
                0 <= j < p ==> #[trigger] revisions@[j] == (MapAdmissionEntry {
                    preset_id: maps@[j].id,
                    admission_revision: maps@[j].admission_revision,
                }),
        decreases maps@.len() - p,
    {
        revisions.push(MapAdmissionEntry { preset_id: maps[p].id, admission_revision: maps[p].admission_revision });
        p = p + 1;
    }
    Ok(
        CatalogResolution {
            server_name: server_name,
            game_types: game_types,
            game_rules: game_rules,
            map_admission_revisions: revisions,
            common_lifecycle: op.common_lifecycle,
            mode_policies: op.mode_policies,
        },
    )
}

/// The catalog revision a 32-byte digest spells: its halves read big-endian.
fn revision_from_digest(digest: &[u8; 32]) -> (revision: CatalogRevision)
    ensures
        revision == revision_of(digest@),
{
    let high = be_u128(digest, 0);
    let low = be_u128(digest, 16);
    CatalogRevision(high, low)
}

fn be_u128(digest: &[u8; 32], start: usize) -> (value: u128)
    requires
        start == 0 || start == 16,
    ensures
        value == be_value(digest@.subrange(start as int, start + 16)),
{
    proof {
        lemma_pow256_16();
    }
    let mut acc: u128 = 0;
    let mut i: usize = 0;
    while i < 16
        invariant
            start == 0 || start == 16,
            digest@.len() == 32,
            i <= 16,
            acc == be_value(digest@.subrange(start as int, start + i)),
            pow256(16) == 0x1_0000_0000_0000_0000_0000_0000_0000_0000,
        decreases 16 - i,
    {
        let ghost prefix = digest@.subrange(start as int, start + i);
        let ghost next = digest@.subrange(start as int, start + i + 1);
        proof {
            assert(next.drop_last() =~= prefix);
            lemma_be_value_bound(prefix);
            lemma_pow256_monotone((i + 1) as nat, 16);
            assert(pow256((i + 1) as nat) == 256 * pow256(i as nat));
            assert(acc * 256 + digest@[start + i] < pow256((i + 1) as nat));
        }
        acc = acc * 256 + digest[start + i] as u128;
        i = i + 1;
    }
    acc
}

/// Seals a resolution into the immutable catalog: the catalog validator's verdict on the
/// advertisement, the advertisement's canonical bytes (its revision is their digest), the
/// policy revision (the digest of the encoded policy material) and the size of the lobby
/// welcome that carries the advertisement. It succeeds exactly when the seal verdict passes.
pub fn seal_catalog(
    resolution: CatalogResolution,
    catalog_check: Result<(), String>,
    canonical_bytes: &Vec<u8>,
    welcome_bytes: usize,
) -> (sealed: Result<ResolvedLobbyCatalog, CatalogError>)
    ensures
        sealed is Ok <==> seal_verdict(resolution, catalog_check, welcome_bytes) is Ok,
        match sealed {
            Ok(c) => {
                &&& c.well_formed()
                &&& c.server_name == resolution.server_name
                &&& c.game_types == resolution.game_types
                &&& c.game_rules == resolution.game_rules
                &&& c.map_admission_revisions == resolution.map_admission_revisions
                &&& c.revision == revision_of(sha256_of(canonical_bytes@))
                &&& c.policy_revision == revision_of(
                    sha256_of(
                        postcard_policy_encoding(
                            OPERATOR_CATALOG_SCHEMA_VERSION,
                            resolution.common_lifecycle.spawn_protection_ticks,
                            resolution.common_lifecycle.completed_input_lock_ticks,
                            resolution.mode_policies.wipeout.recent_hostile_damage_credit_ticks,
                            resolution.mode_policies.heist.critical_health_percent,
                        ),
                    ),
                )
            },
            Err(error) => seal_verdict(resolution, catalog_check, welcome_bytes) == Err::<(), CatalogError>(error),
        },
{
    if let Err(reason) = catalog_check {
        return Err(CatalogError::InvalidCatalog(reason));
    }
    if !check_distinct_game_ids(&resolution.game_types) {
        return Err(CatalogError::DuplicateGameType);
    }
    if !check_formations_fit(&resolution.game_types) {
        return Err(CatalogError::UnsupportedFormation);
    }
    let revision = revision_from_digest(&sha256_digest(canonical_bytes.as_slice()));
    let policy = encode_policy_material(
        OPERATOR_CATALOG_SCHEMA_VERSION,
        resolution.common_lifecycle,
        resolution.mode_policies,
    ).unwrap();
    let policy_revision = revision_from_digest(&sha256_digest(policy.as_slice()));
    if welcome_bytes > MAX_LOBBY_WELCOME_BYTES {
        return Err(CatalogError::WelcomeTooLarge);
    }
    Ok(
        ResolvedLobbyCatalog {
            server_name: resolution.server_name,
            revision: revision,
            game_types: resolution.game_types,
            policy_revision: policy_revision,
            game_rules: resolution.game_rules,
            map_admission_revisions: resolution.map_admission_revisions,
        },
    )
}


/// The rules of a resolved game type are the operator entry's durations in simulation ticks
/// and the catalog's common policies: the match, countdown and respawn durations are the
/// entry's seconds at the simulation rate, each of them nonzero.
pub proof fn law_resolved_rules_follow_entry_timing(
    e: OperatorGameType,
    game: usize,
    v: GameTypeVerdicts,
    limits: CatalogLimits,
    common: OperatorCommonLifecyclePolicy,
    policies: OperatorModePolicies,
    modes: Seq<ModeFacts>,
    maps: Seq<MapPresetFacts>,
)
    ensures
        entry_resolution(e, game, v, limits, common, policies, modes, maps) matches Ok(view) ==> {
            &&& view.rules.match_duration_ticks == e.match_duration_seconds * SIMULATION_TICK_HZ
            &&& view.rules.countdown_ticks == e.countdown_seconds * SIMULATION_TICK_HZ
            &&& view.rules.respawn_ticks == e.respawn_seconds * SIMULATION_TICK_HZ
            &&& view.rules.match_duration_ticks > 0 && view.rules.countdown_ticks > 0 && view.rules.respawn_ticks > 0
            &&& view.rules.spawn_protection_ticks == common.spawn_protection_ticks
            &&& view.rules.completed_input_lock_ticks == common.completed_input_lock_ticks
            &&& view.rules.wipeout_recent_hostile_damage_credit_ticks == policies.wipeout.recent_hostile_damage_credit_ticks
            &&& view.rules.heist_critical_health_percent == policies.heist.critical_health_percent
            &&& view.id == e.id@
            &&& view.revision == e.revision
            &&& view.teams == e.teams
            &&& view.players_per_team == e.players_per_team
        },
{
}

proof fn lemma_entries_prefix_each(
    op: OperatorCatalog,
    verdicts: Seq<GameTypeVerdicts>,
    limits: CatalogLimits,
    modes: Seq<ModeFacts>,
    maps: Seq<MapPresetFacts>,
    n: nat,
)
    requires
        n <= op.game_types@.len(),
    ensures
        entries_prefix(op, verdicts, limits, modes, maps, n) matches Ok(games) ==> {
            &&& games.len() == n
            &&& forall|i: int|
                0 <= i < n ==> entry_resolution(
                    op.game_types@[i],
                    i as usize,
                    verdicts[i],
                    limits,
                    op.common_lifecycle,
                    op.mode_policies,
                    modes,
                    maps,
                ) == Ok::<ResolvedGameView, CatalogError>(#[trigger] games[i])
        },
    decreases n,
{
    if n > 0 {
        lemma_entries_prefix_each(op, verdicts, limits, modes, maps, (n - 1) as nat);
    }
}

/// Every game type of a resolved catalog runs with its operator entry's durations in
/// simulation ticks: for the i-th game type, the match, countdown and respawn ticks are the
/// i-th entry's seconds at the simulation rate.
pub proof fn law_resolved_catalog_follows_entry_timing(
    op: OperatorCatalog,
    limits: CatalogLimits,
    checks: CatalogVerdicts,
    verdicts: Seq<GameTypeVerdicts>,
    modes: Seq<ModeFacts>,
    maps: Seq<MapPresetFacts>,
)
    ensures
        operator_resolution(op, limits, checks, verdicts, modes, maps) matches Ok((server_name, games)) ==> {
            &&& games.len() == op.game_types@.len()
            &&& forall|i: int|
                0 <= i < games.len() ==> {
                    &&& (#[trigger] games[i]).rules.match_duration_ticks == op.game_types@[i].match_duration_seconds
                        * SIMULATION_TICK_HZ
                    &&& games[i].rules.countdown_ticks == op.game_types@[i].countdown_seconds * SIMULATION_TICK_HZ
                    &&& games[i].rules.respawn_ticks == op.game_types@[i].respawn_seconds * SIMULATION_TICK_HZ
                    &&& games[i].id == op.game_types@[i].id@
                }
        },
{
    lemma_entries_prefix_each(op, verdicts, limits, modes, maps, op.game_types@.len());
    if let Ok((server_name, games)) = operator_resolution(op, limits, checks, verdicts, modes, maps) {
        assert forall|i: int| 0 <= i < games.len() implies {
            &&& (#[trigger] games[i]).rules.match_duration_ticks == op.game_types@[i].match_duration_seconds
                * SIMULATION_TICK_HZ
            &&& games[i].rules.countdown_ticks == op.game_types@[i].countdown_seconds * SIMULATION_TICK_HZ
            &&& games[i].rules.respawn_ticks == op.game_types@[i].respawn_seconds * SIMULATION_TICK_HZ
            &&& games[i].id == op.game_types@[i].id@
        } by {
            law_resolved_rules_follow_entry_timing(
                op.game_types@[i],
                i as usize,
                verdicts[i],
                limits,
                op.common_lifecycle,
                op.mode_policies,
                modes,
                maps,
            );
        }
    }
}

proof fn lemma_mode_index_found(modes: Seq<ModeFacts>, key: Seq<char>, i: int)
    ensures
        mode_index_from(modes, key, i) >= 0 ==> {
            let k = mode_index_from(modes, key, i);
            0 <= k < modes.len() && modes[k].key@ == key
        },
    decreases modes.len() - i,
{
    if 0 <= i < modes.len() && modes[i].key@ != key {
        lemma_mode_index_found(modes, key, i + 1);
    }
}

proof fn lemma_preset_index_found(maps: Seq<MapPresetFacts>, key: Seq<char>, i: int)
    ensures
        preset_index_from(maps, key, i) >= 0 ==> {
            let p = preset_index_from(maps, key, i);
            0 <= p < maps.len() && maps[p].key@ == key
        },
    decreases maps.len() - i,
{
    if 0 <= i < maps.len() && maps[i].key@ != key {
        lemma_preset_index_found(maps, key, i + 1);
    }
}

/// Whether preset `id` is one the game type's `m`-th map key names, and one it may play on.
pub open spec fn admissible_map(
    e: OperatorGameType,
    mode: ModeFacts,
    maps: Seq<MapPresetFacts>,
    m: int,
    id: MapPresetId,
) -> bool {
    exists|p: int|
        0 <= p < maps.len() && #[trigger] maps[p].id == id && maps[p].key@ == e.maps@[m]@ && maps[p].within_limits
            && maps[p].resolvable && mode.accepted_map_modes@.contains(maps[p].mode_definition_id)
            && e.players_per_team <= maps[p].team_capacity
}

proof fn lemma_maps_prefix_facts(e: OperatorGameType, game: usize, mode: ModeFacts, maps: Seq<MapPresetFacts>, n: nat)
    ensures
        maps_prefix(e, game, mode, maps, n) matches Ok(ids) ==> {
            &&& ids.len() == n
            &&& ids.no_duplicates()
            &&& forall|m: int| 0 <= m < n ==> admissible_map(e, mode, maps, m, #[trigger] ids[m])
        },
    decreases n,
{
    if n > 0 {
        lemma_maps_prefix_facts(e, game, mode, maps, (n - 1) as nat);
        if let Ok(taken) = maps_prefix(e, game, mode, maps, (n - 1) as nat) {
            lemma_preset_index_found(maps, e.maps@[n - 1]@, 0);
            if let Ok(id) = map_step(e, game, n - 1, mode, maps, taken) {
                let p = preset_index_from(maps, e.maps@[n - 1]@, 0);
                let ids = taken.push(id);
                assert(admissible_map(e, mode, maps, n - 1, ids[n - 1]));
                assert forall|m: int| 0 <= m < n implies admissible_map(e, mode, maps, m, #[trigger] ids[m]) by {
                    if m < n - 1 {
                        assert(ids[m] == taken[m]);
                    }
                }
                assert(ids.no_duplicates()) by {
                    assert forall|a: int, b: int| 0 <= a < b < ids.len() implies ids[a] != ids[b] by {
                        if b == n - 1 {
                            assert(taken.contains(taken[a]));
                        }
                    }
                }
            }
        }
    }
}

/// A resolved game type plays the mode its entry names and the maps its entry lists: its mode
/// is the mode keyed by the entry's mode, its objective is that mode's own (the kills to win for
/// wipeout, the capture time in ticks for hot zone, the safe's health for heist, with the other
/// two left at zero), and its maps are, one for each of the entry's map keys in order, distinct
/// presets with that key that fit the dimension limits, resolve, suit the mode and seat the team.
pub proof fn law_resolved_game_plays_its_mode_and_maps(
    e: OperatorGameType,
    game: usize,
    v: GameTypeVerdicts,
    limits: CatalogLimits,
    common: OperatorCommonLifecyclePolicy,
    policies: OperatorModePolicies,
    modes: Seq<ModeFacts>,
    maps: Seq<MapPresetFacts>,
)
    ensures
        entry_resolution(e, game, v, limits, common, policies, modes, maps) matches Ok(view) ==> exists|k: int|
            0 <= k < modes.len() && #[trigger] modes[k].key@ == e.mode@ && {
                let mode = modes[k];
                &&& view.mode_definition_id == mode.definition_id
                &&& match mode.mode {
                    GameMode::Wipeout => e.capture_seconds == 0 && e.safe_health == 0 && view.rules.objective_target
                        == e.kills_to_win && view.summary == (AdvertisedRulesSummary::Wipeout {
                        target_score: e.kills_to_win,
                        active_limit_ticks: view.rules.match_duration_ticks,
                    }),
                    GameMode::HotZone => e.kills_to_win == 0 && e.safe_health == 0 && view.rules.objective_target
                        == e.capture_seconds * SIMULATION_TICK_HZ && view.rules.objective_target > 0
                        && view.summary == (AdvertisedRulesSummary::HotZone {
                        target_progress_ticks: view.rules.objective_target,
                        active_limit_ticks: view.rules.match_duration_ticks,
                    }),
                    GameMode::Heist => e.kills_to_win == 0 && e.capture_seconds == 0 && e.safe_health > 0
                        && view.rules.objective_target == e.safe_health && view.summary == (AdvertisedRulesSummary::Heist {
                        safe_maximum_health: e.safe_health,
                        active_limit_ticks: view.rules.match_duration_ticks,
                    }),
                }
                &&& view.maps.len() == e.maps@.len()
                &&& view.maps.no_duplicates()
                &&& forall|m: int| 0 <= m < view.maps.len() ==> admissible_map(e, mode, maps, m, #[trigger] view.maps[m])
            },
{
    lemma_mode_index_found(modes, e.mode@, 0);
    if let Ok(view) = entry_resolution(e, game, v, limits, common, policies, modes, maps) {
        let k = mode_index_from(modes, e.mode@, 0);
        lemma_maps_prefix_facts(e, game, modes[k], maps, e.maps@.len());
        assert(modes[k].key@ == e.mode@);
    }
}
} // verus!
