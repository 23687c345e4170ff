//! The read-only projection of the admitted practice roster.

use vstd::prelude::*;
use crate::admission::MatchManifest;
use crate::decimal::{decimal_string, decimal_text};
use crate::lobby::queue_messages::{is_stable_order, stable_order};
use crate::queue::model::{first_index, lemma_first_index_at, lemma_first_index_none};

verus! {

/// One selectable loadout part: its identity, its stable key and its display name.
#[derive(Clone, Debug, PartialEq, Eq)]
pub struct LoadoutChoiceView {
    pub id: u16,
    pub key: String,
    pub display_name: String,
}

/// The abstract value of a loadout choice.
pub struct ChoiceModel {
    pub id: u16,
    pub key: Seq<char>,
    pub display_name: Seq<char>,
}

impl View for LoadoutChoiceView {
    type V = ChoiceModel;

    open spec fn view(&self) -> ChoiceModel {
        ChoiceModel { id: self.id, key: self.key@, display_name: self.display_name@ }
    }
}

/// The choice view of loadout part `id` with `key` and `display_name`.
pub fn choice(id: u16, key: &str, display_name: &str) -> (view: LoadoutChoiceView)
    ensures
        view.id == id,
        view.key@ == key@,
        view.display_name@ == display_name@,
{
    LoadoutChoiceView { id: id, key: key.to_owned(), display_name: display_name.to_owned() }
}

/// Whether a roster player is a human or a bot.
#[derive(Clone, Copy, Debug, PartialEq, Eq, Structural)]
pub enum ParticipantTypeView {
    Human,
    Bot,
}

/// A flat and a percentage change of one weapon quantity.
#[derive(Clone, Copy, Debug, PartialEq, Eq, Structural)]
pub struct ScalarModifierView {
    pub flat: i32,
    pub percent_basis_points: i32,
}

/// A slow applied by hits.
#[derive(Clone, Copy, Debug, PartialEq, Eq, Structural)]
pub struct SlowModifierView {
    pub penalty_basis_points: u16,
    pub duration_ticks: u16,
}

/// A damage-over-time effect applied by hits.
#[derive(Clone, Copy, Debug, PartialEq, Eq, Structural)]
pub struct DamageOverTimeModifierView {
    pub damage_per_tick: u16,
    pub tick_interval: u16,
    pub duration_ticks: u16,
}

/// The canonical weapon modifiers of a build.
#[derive(Clone, Copy, Debug, PartialEq, Eq, Structural)]
pub struct WeaponModifiersView {
    pub capacity: ScalarModifierView,
    pub damage: ScalarModifierView,
    pub fire_interval: ScalarModifierView,
    pub refill_interval: ScalarModifierView,
    pub reach_milliunits: ScalarModifierView,
    pub slow: Option<SlowModifierView>,
    pub cold: Option<u16>,
    pub poison: Option<DamageOverTimeModifierView>,
    pub fire: Option<DamageOverTimeModifierView>,
    pub heal: Option<u16>,
}

/// One part of the advertised brawler catalog: its identity, key and display name.
#[derive(Clone, Debug, PartialEq, Eq)]
pub struct CatalogChoice {
    pub id: u16,
    pub key: String,
    pub display_name: String,
}

/// An advertised fighter profile and the stats the roster shows.
#[derive(Clone, Debug, PartialEq, Eq)]
pub struct FighterProfileEntry {
    pub choice: CatalogChoice,
    pub cold_capacity: u16,
    pub cold_resistance_basis_points: u16,
    pub poison_resistance_basis_points: u16,
    pub fire_resistance_basis_points: u16,
}

/// The kinds of passive that raise a resistance; every other passive is `Other`.
#[derive(Clone, Copy, Debug, PartialEq, Eq, Structural)]
pub enum PassiveKind {
    CryogenicInsulation,
    FilteredCirculation,
    HeatShielding,
    Other,
}

/// An advertised passive and its kind.
#[derive(Clone, Debug, PartialEq, Eq)]
pub struct PassiveEntry {
    pub choice: CatalogChoice,
    pub kind: PassiveKind,
}

/// What the roster reads of the advertised brawler catalog.
pub struct BrawlerCatalogView {
    pub fighter_profiles: Vec<FighterProfileEntry>,
    pub weapon_bases: Vec<CatalogChoice>,
    pub ultimates: Vec<CatalogChoice>,
    pub passives: Vec<PassiveEntry>,
}

/// What the roster reads of a decoded build snapshot.
#[derive(Clone, Copy, Debug, PartialEq, Eq)]
pub struct DecodedBuild {
    pub fighter_profile_id: u16,
    pub weapon_base_id: u16,
    pub ultimate_id: u16,
    pub passive_ids: [u16; 2],
    pub weapon_modifiers: WeaponModifiersView,
}

/// One player of the roster as the operator sees it.
#[derive(Clone, Debug, PartialEq, Eq)]
pub struct PlayerLoadoutView {
    pub player_id: String,
    pub display_name: String,
    pub team: u8,
    pub participant_type: ParticipantTypeView,
    pub fighter_profile: LoadoutChoiceView,
    pub weapon_base: LoadoutChoiceView,
    pub ultimate: LoadoutChoiceView,
    pub passives: [LoadoutChoiceView; 2],
    pub weapon_modifiers: WeaponModifiersView,
    pub cold_capacity: u16,
    pub cold_resistance_baseline_basis_points: u16,
    pub poison_resistance_baseline_basis_points: u16,
    pub fire_resistance_baseline_basis_points: u16,
    pub cold_resistance_basis_points: u16,
    pub poison_resistance_basis_points: u16,
    pub fire_resistance_basis_points: u16,
}

/// The abstract value of a roster player.
pub struct PlayerModel {
    pub player_id: Seq<char>,
    pub display_name: Seq<char>,
    pub team: u8,
    pub participant_type: ParticipantTypeView,
    pub fighter_profile: ChoiceModel,
    pub weapon_base: ChoiceModel,
    pub ultimate: ChoiceModel,
    pub passives: Seq<ChoiceModel>,
    pub weapon_modifiers: WeaponModifiersView,
    pub cold_capacity: u16,
    pub cold_resistance_baseline_basis_points: u16,
    pub poison_resistance_baseline_basis_points: u16,
    pub fire_resistance_baseline_basis_points: u16,
    pub cold_resistance_basis_points: u16,
    pub poison_resistance_basis_points: u16,
    pub fire_resistance_basis_points: u16,
}

impl View for PlayerLoadoutView {
    type V = PlayerModel;

    open spec fn view(&self) -> PlayerModel {
        PlayerModel {
            player_id: self.player_id@,
            display_name: self.display_name@,
            team: self.team,
            participant_type: self.participant_type,
            fighter_profile: self.fighter_profile@,
            weapon_base: self.weapon_base@,
            ultimate: self.ultimate@,
            passives: seq![self.passives[0]@, self.passives[1]@],
            weapon_modifiers: self.weapon_modifiers,
            cold_capacity: self.cold_capacity,
            cold_resistance_baseline_basis_points: self.cold_resistance_baseline_basis_points,
            poison_resistance_baseline_basis_points: self.poison_resistance_baseline_basis_points,
            fire_resistance_baseline_basis_points: self.fire_resistance_baseline_basis_points,
            cold_resistance_basis_points: self.cold_resistance_basis_points,
            poison_resistance_basis_points: self.poison_resistance_basis_points,
            fire_resistance_basis_points: self.fire_resistance_basis_points,
        }
    }
}

/// The choice model of a catalog part.
pub open spec fn choice_of(entry: CatalogChoice) -> ChoiceModel {
    ChoiceModel { id: entry.id, key: entry.key@, display_name: entry.display_name@ }
}

/// Index of the first catalog part with identity `id`.
#[verifier::opaque]
pub open spec fn part_index(parts: Seq<CatalogChoice>, id: u16) -> int {
    first_index(parts, |c: CatalogChoice| c.id == id)
}

/// Index of the first fighter profile with identity `id`.
#[verifier::opaque]
pub open spec fn profile_index(profiles: Seq<FighterProfileEntry>, id: u16) -> int {
    first_index(profiles, |p: FighterProfileEntry| p.choice.id == id)
}

/// Index of the first passive with identity `id`.
#[verifier::opaque]
pub open spec fn passive_index(passives: Seq<PassiveEntry>, id: u16) -> int {
    first_index(passives, |p: PassiveEntry| p.choice.id == id)
}

/// Some advertised passive with identity `id` is of kind `kind`.
pub open spec fn passive_of_kind(passives: Seq<PassiveEntry>, id: u16, kind: PassiveKind) -> bool {
    exists|j: int| 0 <= j < passives.len() && (#[trigger] passives[j]).choice.id == id && passives[j].kind == kind
}

/// The resistance bonus of a build whose passives include one of kind `kind`.
pub open spec fn resistance_bonus(passives: Seq<PassiveEntry>, ids: [u16; 2], kind: PassiveKind) -> int {
    if passive_of_kind(passives, ids@[0], kind) || passive_of_kind(passives, ids@[1], kind) {
        3_000
    } else {
        0
    }
}

/// A resistance shown with its bonus, capped at sixty percent.
pub open spec fn capped_resistance(base: u16, bonus: int) -> u16 {
    if base + bonus > 6_000 {
        6_000
    } else {
        (base + bonus) as u16
    }
}

/// The roster view of player `player_id` named `display_name` on team `team`, whose build
/// decoded to `build` (or failed to with its reason), against the advertised `catalog`: each
/// part is looked up by identity, and a missing one refuses the player; a passive of a
/// resistance kind raises that resistance by thirty percent, to at most sixty.
#[verifier::opaque]
pub open spec fn player_model(
    player_id: u64,
    display_name: Seq<char>,
    team: u8,
    participant_type: ParticipantTypeView,
    build: Result<DecodedBuild, String>,
    catalog: BrawlerCatalogView,
) -> Result<PlayerModel, Seq<char>> {
    match build {
        Err(reason) => Err(reason@),
        Ok(b) => {
            let profiles = catalog.fighter_profiles@;
            let passives = catalog.passives@;
            let f = profile_index(profiles, b.fighter_profile_id);
            let w = part_index(catalog.weapon_bases@, b.weapon_base_id);
            let u = part_index(catalog.ultimates@, b.ultimate_id);
            let p0 = passive_index(passives, b.passive_ids@[0]);
            let p1 = passive_index(passives, b.passive_ids@[1]);
            if f < 0 {
                Err("admitted player references an unknown fighter profile"@)
            } else if w < 0 {
                Err("admitted player references an unknown weapon base"@)
            } else if u < 0 {
                Err("admitted player references an unknown ultimate"@)
            } else if p0 < 0 || p1 < 0 {
                Err("admitted player references an unknown passive"@)
            } else {
                let profile = profiles[f];
                Ok(
                    PlayerModel {
                        player_id: decimal_text(player_id as nat),
                        display_name: display_name,
                        team: team,
                        participant_type: participant_type,
                        fighter_profile: choice_of(profile.choice),
                        weapon_base: choice_of(catalog.weapon_bases@[w]),
                        ultimate: choice_of(catalog.ultimates@[u]),
                        passives: seq![choice_of(passives[p0].choice), choice_of(passives[p1].choice)],
                        weapon_modifiers: b.weapon_modifiers,
                        cold_capacity: profile.cold_capacity,
                        cold_resistance_baseline_basis_points: profile.cold_resistance_basis_points,
                        poison_resistance_baseline_basis_points: profile.poison_resistance_basis_points,
                        fire_resistance_baseline_basis_points: profile.fire_resistance_basis_points,
                        cold_resistance_basis_points: capped_resistance(
                            profile.cold_resistance_basis_points,
                            resistance_bonus(passives, b.passive_ids, PassiveKind::CryogenicInsulation),
                        ),
                        poison_resistance_basis_points: capped_resistance(
                            profile.poison_resistance_basis_points,
                            resistance_bonus(passives, b.passive_ids, PassiveKind::FilteredCirculation),
                        ),
                        fire_resistance_basis_points: capped_resistance(
                            profile.fire_resistance_basis_points,
                            resistance_bonus(passives, b.passive_ids, PassiveKind::HeatShielding),
                        ),
                    },
                )
            }
        },
    }
}

/// A copy of a catalog part as a choice view.
fn choice_view(entry: &CatalogChoice) -> (view: LoadoutChoiceView)
    ensures
        view@ == choice_of(*entry),
{
    choice(entry.id, entry.key.as_str(), entry.display_name.as_str())
}

fn find_part(parts: &Vec<CatalogChoice>, id: u16) -> (found: Option<usize>)
    ensures
        match found {
            Some(i) => i == part_index(parts@, id) && i < parts@.len(),
            None => part_index(parts@, id) < 0,
        },
{
    proof {
        reveal(part_index);
    }
    let mut i: usize = 0;
    while i < parts.len()
        invariant
            i <= parts@.len(),
            forall|j: int| 0 <= j < i ==> (#[trigger] parts@[j]).id != id,
        decreases parts@.len() - i,
    {
        if parts[i].id == id {
            proof {
                reveal(part_index);
                lemma_first_index_at(parts@, |c: CatalogChoice| c.id == id, i as int);
            }
            return Some(i);
        }
        i = i + 1;
    }
    proof {
        lemma_first_index_none(parts@, |c: CatalogChoice| c.id == id);
    }
    None
}

fn find_profile(profiles: &Vec<FighterProfileEntry>, id: u16) -> (found: Option<usize>)
    ensures
        match found {
            Some(i) => i == profile_index(profiles@, id) && i < profiles@.len(),
            None => profile_index(profiles@, id) < 0,
        },
{
    proof {
        reveal(profile_index);
    }
    let mut i: usize = 0;
    while i < profiles.len()
        invariant
            i <= profiles@.len(),
            forall|j: int| 0 <= j < i ==> (#[trigger] profiles@[j]).choice.id != id,
        decreases profiles@.len() - i,
    {
        if profiles[i].choice.id == id {
            proof {
                reveal(profile_index);
                lemma_first_index_at(profiles@, |p: FighterProfileEntry| p.choice.id == id, i as int);
            }
            return Some(i);
        }
        i = i + 1;
    }
    proof {
        lemma_first_index_none(profiles@, |p: FighterProfileEntry| p.choice.id == id);
    }
    None
}

fn find_passive(passives: &Vec<PassiveEntry>, id: u16) -> (found: Option<usize>)
    ensures
        match found {
            Some(i) => i == passive_index(passives@, id) && i < passives@.len(),
            None => passive_index(passives@, id) < 0,
        },
{
    proof {
        reveal(passive_index);
    }
    let mut i: usize = 0;
    while i < passives.len()
        invariant
            i <= passives@.len(),
            forall|j: int| 0 <= j < i ==> (#[trigger] passives@[j]).choice.id != id,
        decreases passives@.len() - i,
    {
        if passives[i].choice.id == id {
            proof {
                reveal(passive_index);
                lemma_first_index_at(passives@, |p: PassiveEntry| p.choice.id == id, i as int);
            }
            return Some(i);
        }
        i = i + 1;
    }
    proof {
        lemma_first_index_none(passives@, |p: PassiveEntry| p.choice.id == id);
    }
    None
}

/// Whether some advertised passive with identity `id` is of kind `kind`.
fn has_passive_of_kind(passives: &Vec<PassiveEntry>, id: u16, kind: PassiveKind) -> (found: bool)
    ensures
        found == passive_of_kind(passives@, id, kind),
{
    let mut j: usize = 0;
    while j < passives.len()
        invariant
            j <= passives@.len(),
            forall|k: int| 0 <= k < j ==> !((#[trigger] passives@[k]).choice.id == id && passives@[k].kind == kind),
        decreases passives@.len() - j,
    {
        if passives[j].choice.id == id && passives[j].kind == kind {
            assert(passives@[j as int].choice.id == id && passives@[j as int].kind == kind);
            return true;
        }
        j = j + 1;
    }
    false
}

/// The resistance bonus of a build with passives `ids` for passives of kind `kind`.
fn bonus_for(passives: &Vec<PassiveEntry>, ids: [u16; 2], kind: PassiveKind) -> (bonus: u16)
    ensures
        bonus == resistance_bonus(passives@, ids, kind),
{
    if has_passive_of_kind(passives, ids[0], kind) || has_passive_of_kind(passives, ids[1], kind) {
        3_000
    } else {
        0
    }
}

/// A resistance with its bonus, capped at sixty percent.
fn capped(base: u16, bonus: u16) -> (shown: u16)
    requires
        bonus <= 3_000,
    ensures
        shown == capped_resistance(base, bonus as int),
{
    let sum = base.saturating_add(bonus);
    if sum > 6_000 {
        6_000
    } else {
        sum
    }
}

/// The roster view of one player.
#[verifier::spinoff_prover]
#[verifier::rlimit(50)]
pub fn player_view(
    player_id: u64,
    display_name: &str,
    team: u8,
    participant_type: ParticipantTypeView,
    build: &Result<DecodedBuild, String>,
    catalog: &BrawlerCatalogView,
) -> (view: Result<PlayerLoadoutView, String>)
    ensures
        match player_model(player_id, display_name@, team, participant_type, *build, *catalog) {
            Ok(model) => view matches Ok(v) && v@ == model,
            Err(reason) => view matches Err(e) && e@ == reason,
        },
{
    proof {
        reveal(player_model);
    }
    let b = match build {
        Ok(b) => *b,
        Err(reason) => return Err(reason.clone()),
    };
    let f = match find_profile(&catalog.fighter_profiles, b.fighter_profile_id) {
        Some(f) => f,
        None => return Err("admitted player references an unknown fighter profile".to_owned()),
    };
    let w = match find_part(&catalog.weapon_bases, b.weapon_base_id) {
        Some(w) => w,
        None => return Err("admitted player references an unknown weapon base".to_owned()),
    };
    let u = match find_part(&catalog.ultimates, b.ultimate_id) {
        Some(u) => u,
        None => return Err("admitted player references an unknown ultimate".to_owned()),
    };
    let p0 = find_passive(&catalog.passives, b.passive_ids[0]);
    let p1 = find_passive(&catalog.passives, b.passive_ids[1]);
    let (p0, p1) = match (p0, p1) {
        (Some(p0), Some(p1)) => (p0, p1),
        _ => return Err("admitted player references an unknown passive".to_owned()),
    };
    let profile = &catalog.fighter_profiles[f];
    let cold = bonus_for(&catalog.passives, b.passive_ids, PassiveKind::CryogenicInsulation);
    let poison = bonus_for(&catalog.passives, b.passive_ids, PassiveKind::FilteredCirculation);
    let fire = bonus_for(&catalog.passives, b.passive_ids, PassiveKind::HeatShielding);
    let view = PlayerLoadoutView {
        player_id: decimal_string(player_id),
        display_name: display_name.to_owned(),
        team: team,
        participant_type: participant_type,
        fighter_profile: choice_view(&profile.choice),
        weapon_base: choice_view(&catalog.weapon_bases[w]),
        ultimate: choice_view(&catalog.ultimates[u]),
        passives: [choice_view(&catalog.passives[p0].choice), choice_view(&catalog.passives[p1].choice)],
        weapon_modifiers: b.weapon_modifiers,
        cold_capacity: profile.cold_capacity,
        cold_resistance_baseline_basis_points: profile.cold_resistance_basis_points,
        poison_resistance_baseline_basis_points: profile.poison_resistance_basis_points,
        fire_resistance_baseline_basis_points: profile.fire_resistance_basis_points,
        cold_resistance_basis_points: capped(profile.cold_resistance_basis_points, cold),
        poison_resistance_basis_points: capped(profile.poison_resistance_basis_points, poison),
        fire_resistance_basis_points: capped(profile.fire_resistance_basis_points, fire),
    };
    Ok(view)
}

impl LoadoutChoiceView {
    /// A copy of the choice.
    pub fn duplicate(&self) -> (copy: Self)
        ensures
            copy@ == self@,
    {
        LoadoutChoiceView { id: self.id, key: self.key.clone(), display_name: self.display_name.clone() }
    }
}

impl PlayerLoadoutView {
    /// A copy of the player view.
    pub fn duplicate(&self) -> (copy: Self)
        ensures
            copy@ == self@,
    {
        PlayerLoadoutView {
            player_id: self.player_id.clone(),
            display_name: self.display_name.clone(),
            team: self.team,
            participant_type: self.participant_type,
            fighter_profile: self.fighter_profile.duplicate(),
            weapon_base: self.weapon_base.duplicate(),
            ultimate: self.ultimate.duplicate(),
            passives: [self.passives[0].duplicate(), self.passives[1].duplicate()],
            weapon_modifiers: self.weapon_modifiers,
            cold_capacity: self.cold_capacity,
            cold_resistance_baseline_basis_points: self.cold_resistance_baseline_basis_points,
            poison_resistance_baseline_basis_points: self.poison_resistance_baseline_basis_points,
            fire_resistance_baseline_basis_points: self.fire_resistance_baseline_basis_points,
            cold_resistance_basis_points: self.cold_resistance_basis_points,
            poison_resistance_basis_points: self.poison_resistance_basis_points,
            fire_resistance_basis_points: self.fire_resistance_basis_points,
        }
    }
}

/// The roster view of seat `i` of `manifest`, participants first and bots after, with the
/// decoded build `build`.
pub open spec fn seat_model(
    manifest: MatchManifest,
    i: int,
    build: Result<DecodedBuild, String>,
    catalog: BrawlerCatalogView,
) -> Result<PlayerModel, Seq<char>> {
    let humans = manifest.participants@.len() as int;
    if i < humans {
        let p = manifest.participants@[i];
        player_model(p.player_id.0, p.display_name@, p.team, ParticipantTypeView::Human, build, catalog)
    } else {
        let b = manifest.bots@[i - humans];
        player_model(b.player_id.0, b.display_name@, b.team, ParticipantTypeView::Bot, build, catalog)
    }
}

/// The order key of seat `i`: its team, then its player.
pub open spec fn seat_key(manifest: MatchManifest, i: int) -> (u64, u64) {
    let humans = manifest.participants@.len() as int;
    if i < humans {
        let p = manifest.participants@[i];
        (p.team as u64, p.player_id.0)
    } else {
        let b = manifest.bots@[i - humans];
        (b.team as u64, b.player_id.0)
    }
}

/// The order keys of the first `n` seats.
pub open spec fn seat_keys(manifest: MatchManifest, n: nat) -> Seq<(u64, u64)> {
    Seq::new(n, |i: int| seat_key(manifest, i))
}

/// The views of the first `k` seats, or the reason of the first that has none.
pub open spec fn seat_models(
    manifest: MatchManifest,
    builds: Seq<Result<DecodedBuild, String>>,
    catalog: BrawlerCatalogView,
    k: int,
) -> Result<Seq<PlayerModel>, Seq<char>>
    decreases k,
{
    if k <= 0 {
        Ok(Seq::empty())
    } else {
        match seat_models(manifest, builds, catalog, k - 1) {
            Err(reason) => Err(reason),
            Ok(models) => match seat_model(manifest, k - 1, builds[k - 1], catalog) {
                Err(reason) => Err(reason),
                Ok(model) => Ok(models.push(model)),
            },
        }
    }
}

/// The roster of an admitted manifest for the operator: every participant, then every bot,
/// viewed with its decoded build from `builds` (in the same order), listed by team and then by
/// player, equal keys in seat order. The first seat that cannot be viewed refuses the roster
/// with its reason.
pub fn from_manifest(
    manifest: &MatchManifest,
    builds: &Vec<Result<DecodedBuild, String>>,
    catalog: &BrawlerCatalogView,
) -> (roster: Result<Vec<PlayerLoadoutView>, String>)
    requires
        builds@.len() == manifest.participants@.len() + manifest.bots@.len(),
    ensures
        match seat_models(*manifest, builds@, *catalog, builds@.len() as int) {
            Err(reason) => roster matches Err(e) && e@ == reason,
            Ok(models) => roster matches Ok(players) && exists|order: Seq<usize>| {
                &&& #[trigger] is_stable_order(seat_keys(*manifest, models.len()), order)
                &&& players@.len() == models.len()
                &&& forall|i: int| 0 <= i < players@.len() ==> (#[trigger] players@[i])@ == models[order[i] as int]
            },
        },
{
    let humans = manifest.participants.len();
    let n = builds.len();
    let mut views: Vec<PlayerLoadoutView> = Vec::new();
    let mut keys: Vec<(u64, u64)> = Vec::new();
    let mut i: usize = 0;
    while i < n
        invariant
            n == builds@.len(),
            humans == manifest.participants@.len(),
            n == humans + manifest.bots@.len(),
            i <= n,
            views@.len() == i,
            keys@.len() == i,
            seat_models(*manifest, builds@, *catalog, i as int) matches Ok(models) && models.len() == i && forall|j: int|
                0 <= j < i ==> (#[trigger] views@[j])@ == models[j],
            forall|j: int| 0 <= j < i ==> #[trigger] keys@[j] == seat_key(*manifest, j),
        decreases n - i,
    {
        let ghost before = seat_models(*manifest, builds@, *catalog, i as int);
        let ghost previous = views@;
        let (player_id, display_name, team, participant_type) = if i < humans {
            let p = &manifest.participants[i];
            (p.player_id.0, p.display_name.as_str(), p.team, ParticipantTypeView::Human)
        } else {
            let b = &manifest.bots[i - humans];
            (b.player_id.0, b.display_name.as_str(), b.team, ParticipantTypeView::Bot)
        };
        match player_view(player_id, display_name, team, participant_type, &builds[i], catalog) {
            Ok(view) => {
                views.push(view);
                keys.push((team as u64, player_id));
            },
            Err(reason) => {
                proof {
                    lemma_seat_models_fail(*manifest, builds@, *catalog, i as int + 1, n as int);
                }
                return Err(reason);
            },
        }
        proof {
            let models = before->Ok_0;
            let now = seat_models(*manifest, builds@, *catalog, i as int + 1);
            assert(now matches Ok(m) && m == models.push(views@[i as int]@));
            assert forall|j: int| 0 <= j < i + 1 implies (#[trigger] views@[j])@ == now->Ok_0[j] by {
                if j < i {
                    assert(views@[j] == previous[j]);
                }
            }
        }
        i = i + 1;
    }
    let order = stable_order(&keys);
    let ghost models = seat_models(*manifest, builds@, *catalog, n as int)->Ok_0;
    assert(keys@ =~= seat_keys(*manifest, models.len()));
    let mut players: Vec<PlayerLoadoutView> = Vec::new();
    let mut k: usize = 0;
    while k < n
        invariant
            n == views@.len(),
            order@.len() == n,
            forall|j: int| 0 <= j < n ==> order@[j] < n,
            models.len() == n,
            forall|j: int| 0 <= j < n ==> (#[trigger] views@[j])@ == models[j],
            k <= n,
            players@.len() == k,
            forall|j: int| 0 <= j < k ==> (#[trigger] players@[j])@ == models[order@[j] as int],
        decreases n - k,
    {
        players.push(views[order[k]].duplicate());
        k = k + 1;
    }
    assert(is_stable_order(seat_keys(*manifest, models.len()), order@));
    Ok(players)
}

/// Once a seat cannot be viewed, no longer prefix can.
proof fn lemma_seat_models_fail(
    manifest: MatchManifest,
    builds: Seq<Result<DecodedBuild, String>>,
    catalog: BrawlerCatalogView,
    k: int,
    n: int,
)
    requires
        1 <= k <= n,
        seat_models(manifest, builds, catalog, k) is Err,
    ensures
        seat_models(manifest, builds, catalog, n) == seat_models(manifest, builds, catalog, k),
    decreases n - k,
{
    if k < n {
        lemma_seat_models_fail(manifest, builds, catalog, k, n - 1);
    }
}


/// Whether a build whose passives are `ids` has a passive of kind `kind` among the advertised
/// `passives`.
pub open spec fn build_has_passive_kind(passives: Seq<PassiveEntry>, ids: [u16; 2], kind: PassiveKind) -> bool {
    exists|j: int, k: int|
        #![trigger passives[j], ids@[k]]
        0 <= j < passives.len() && 0 <= k < 2 && passives[j].choice.id == ids@[k] && passives[j].kind == kind
}

/// The resistance shown for `baseline` raised by `bonus`, at most sixty percent.
pub open spec fn at_most_sixty_percent(baseline: u16, bonus: int) -> int {
    if baseline + bonus < 6_000 {
        baseline + bonus
    } else {
        6_000
    }
}

/// Each resistance a player view shows is the fighter profile's baseline raised by thirty
/// percent when one of the build's two passives is of that resistance's kind (Cryogenic
/// Insulation for cold, Filtered Circulation for poison, Heat Shielding for fire), and capped at
/// sixty percent; the baselines are those of the build's fighter profile.
pub proof fn law_resistances_follow_passives(
    player_id: u64,
    display_name: Seq<char>,
    team: u8,
    participant_type: ParticipantTypeView,
    build: Result<DecodedBuild, String>,
    catalog: BrawlerCatalogView,
)
    ensures
        player_model(player_id, display_name, team, participant_type, build, catalog) matches Ok(m) ==> {
            let b = build->Ok_0;
            let passives = catalog.passives@;
            let cold = if build_has_passive_kind(passives, b.passive_ids, PassiveKind::CryogenicInsulation) { 3_000int } else { 0int };
            let poison = if build_has_passive_kind(passives, b.passive_ids, PassiveKind::FilteredCirculation) { 3_000int } else { 0int };
            let fire = if build_has_passive_kind(passives, b.passive_ids, PassiveKind::HeatShielding) { 3_000int } else { 0int };
            &&& build is Ok
            &&& exists|f: int|
                0 <= f < catalog.fighter_profiles@.len() && (#[trigger] catalog.fighter_profiles@[f]).choice.id == b.fighter_profile_id
                    && m.cold_resistance_baseline_basis_points == catalog.fighter_profiles@[f].cold_resistance_basis_points
                    && m.poison_resistance_baseline_basis_points == catalog.fighter_profiles@[f].poison_resistance_basis_points
                    && m.fire_resistance_baseline_basis_points == catalog.fighter_profiles@[f].fire_resistance_basis_points
            &&& m.cold_resistance_basis_points == at_most_sixty_percent(m.cold_resistance_baseline_basis_points, cold)
            &&& m.poison_resistance_basis_points == at_most_sixty_percent(m.poison_resistance_baseline_basis_points, poison)
            &&& m.fire_resistance_basis_points == at_most_sixty_percent(m.fire_resistance_baseline_basis_points, fire)
        },
{
    reveal(player_model);
    reveal(profile_index);
    if let Ok(m) = player_model(player_id, display_name, team, participant_type, build, catalog) {
        let b = build->Ok_0;
        let passives = catalog.passives@;
        let profiles = catalog.fighter_profiles@;
        crate::queue::model::lemma_first_index_facts(profiles, |p: FighterProfileEntry| p.choice.id == b.fighter_profile_id);
        let f = profile_index(profiles, b.fighter_profile_id);
        assert(profiles[f].choice.id == b.fighter_profile_id);
        assert forall|kind: PassiveKind| #![auto] build_has_passive_kind(passives, b.passive_ids, kind)
            == (passive_of_kind(passives, b.passive_ids@[0], kind) || passive_of_kind(passives, b.passive_ids@[1], kind)) by {
            if build_has_passive_kind(passives, b.passive_ids, kind) {
                let (j, k) = choose|j: int, k: int|
                    #![trigger passives[j], b.passive_ids@[k]]
                    0 <= j < passives.len() && 0 <= k < 2 && passives[j].choice.id == b.passive_ids@[k]
                        && passives[j].kind == kind;
                if k == 0 {
                    assert(passive_of_kind(passives, b.passive_ids@[0], kind));
                } else {
                    assert(passive_of_kind(passives, b.passive_ids@[1], kind));
                }
            }
            if passive_of_kind(passives, b.passive_ids@[0], kind) {
                let j = choose|j: int| 0 <= j < passives.len() && (#[trigger] passives[j]).choice.id == b.passive_ids@[0]
                    && passives[j].kind == kind;
                assert(passives[j].choice.id == b.passive_ids@[0] && b.passive_ids@[0] == b.passive_ids@[0]);
                assert(build_has_passive_kind(passives, b.passive_ids, kind));
            }
            if passive_of_kind(passives, b.passive_ids@[1], kind) {
                let j = choose|j: int| 0 <= j < passives.len() && (#[trigger] passives[j]).choice.id == b.passive_ids@[1]
                    && passives[j].kind == kind;
                assert(passives[j].choice.id == b.passive_ids@[1] && b.passive_ids@[1] == b.passive_ids@[1]);
                assert(build_has_passive_kind(passives, b.passive_ids, kind));
            }
        }
    }
}
} // verus!
