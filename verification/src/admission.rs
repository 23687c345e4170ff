//! Match-worker manifest admission: which manifest participant an authenticated client is.

use vstd::prelude::*;
use crate::ids::{LobbySessionId, NetcodeClientId, PeerId, PlayerId};
use crate::queue::model::{first_index, lemma_first_index_at};
use crate::lobby::routing::GameMode;
use crate::wire::BuildSnapshot;

verus! {

/// Why a worker manifest cannot be installed or a client cannot be admitted by it.
#[derive(Clone, Debug, PartialEq, Eq)]
pub enum MatchWorkerManifestError {
    InvalidManifest,
    Configuration(String),
    NetworkProtocolMismatch,
    ProtocolRegistryMismatch,
    ContentMismatch,
    BuildVersionMismatch,
    ModeMismatch,
    MapPresetMismatch,
    MapRevisionMismatch,
    RulesProfileMismatch,
    ParticipantCapacity,
    DuplicatePlayer,
    DuplicateClient,
    UnlistedClient,
    InvalidTeam,
    InvalidDisplayName,
    BuildSelectionMismatch,
}

/// One human participant listed by a match manifest.
#[derive(Clone, Debug, PartialEq, Eq)]
pub struct MatchManifestParticipant {
    pub lobby_session_id: LobbySessionId,
    pub player_id: PlayerId,
    pub netcode_client_id: NetcodeClientId,
    pub peer_id: PeerId,
    pub team: u8,
    pub display_name: String,
    pub recipe_fingerprint: u64,
    pub revision: u16,
    pub build_snapshot: BuildSnapshot,
}

/// One computer-controlled participant listed by a match manifest.
#[derive(Clone, Debug, PartialEq, Eq)]
pub struct MatchManifestBot {
    pub player_id: PlayerId,
    pub team: u8,
    pub display_name: String,
    pub recipe_fingerprint: u64,
    pub revision: u16,
    pub build_snapshot: BuildSnapshot,
}

/// What admission reads of a match manifest: its human participants and its bots.
#[derive(Clone, Debug, PartialEq, Eq)]
pub struct MatchManifest {
    pub participants: Vec<MatchManifestParticipant>,
    pub bots: Vec<MatchManifestBot>,
}

/// Whether participant `p` is the client `client_id` arriving over route peer `peer_id`.
pub open spec fn names_client(p: MatchManifestParticipant, client_id: u64, peer_id: Option<PeerId>) -> bool {
    p.netcode_client_id.0 == client_id && peer_id == Some(p.peer_id)
}

/// The number of the first `k` participants that are client `client_id` over `peer_id`.
pub open spec fn listing_count(parts: Seq<MatchManifestParticipant>, client_id: u64, peer_id: Option<PeerId>, k: int) -> nat
    decreases k,
{
    if k <= 0 {
        0
    } else {
        listing_count(parts, client_id, peer_id, k - 1) + if names_client(parts[k - 1], client_id, peer_id) {
            1nat
        } else {
            0nat
        }
    }
}

/// The listing of client `client_id` over `peer_id`, if the manifest lists it.
pub open spec fn listing_index(parts: Seq<MatchManifestParticipant>, client_id: u64, peer_id: Option<PeerId>) -> int {
    first_index(parts, |p: MatchManifestParticipant| names_client(p, client_id, peer_id))
}

proof fn lemma_listing_count_zero(parts: Seq<MatchManifestParticipant>, client_id: u64, peer_id: Option<PeerId>, k: int)
    requires
        0 <= k <= parts.len(),
        listing_count(parts, client_id, peer_id, k) == 0,
    ensures
        forall|j: int| 0 <= j < k ==> !names_client(#[trigger] parts[j], client_id, peer_id),
    decreases k,
{
    if k > 0 {
        lemma_listing_count_zero(parts, client_id, peer_id, k - 1);
    }
}

/// The manifest participant that authenticated client `client_id`, arriving over route peer
/// `peer_id`, is. A client admitted already, or listed twice, is a duplicate; a client the
/// manifest does not list is refused.
pub fn admit_manifest_client<'a>(
    manifest: &'a MatchManifest,
    client_id: u64,
    peer_id: Option<PeerId>,
    admitted_client_ids: &Vec<u64>,
) -> (admitted: Result<&'a MatchManifestParticipant, MatchWorkerManifestError>)
    ensures
        ({
            let parts = manifest.participants@;
            let count = listing_count(parts, client_id, peer_id, parts.len() as int);
            if admitted_client_ids@.contains(client_id) || count >= 2 {
                admitted == Err::<&MatchManifestParticipant, MatchWorkerManifestError>(
                    MatchWorkerManifestError::DuplicateClient,
                )
            } else if count == 0 {
                admitted == Err::<&MatchManifestParticipant, MatchWorkerManifestError>(
                    MatchWorkerManifestError::UnlistedClient,
                )
            } else {
                admitted matches Ok(p) && *p == parts[listing_index(parts, client_id, peer_id)]
            }
        }),
{
    let ghost parts = manifest.participants@;
    let mut k: usize = 0;
    while k < admitted_client_ids.len()
        invariant
            k <= admitted_client_ids@.len(),
            forall|j: int| 0 <= j < k ==> admitted_client_ids@[j] != client_id,
        decreases admitted_client_ids@.len() - k,
    {
        if admitted_client_ids[k] == client_id {
            assert(admitted_client_ids@.contains(client_id));
            return Err(MatchWorkerManifestError::DuplicateClient);
        }
        k = k + 1;
    }
    let mut found: Option<usize> = None;
    let mut i: usize = 0;
    while i < manifest.participants.len()
        invariant
            i <= parts.len(),
            parts == manifest.participants@,
            !admitted_client_ids@.contains(client_id),
            listing_count(parts, client_id, peer_id, i as int) <= 1,
            match found {
                None => listing_count(parts, client_id, peer_id, i as int) == 0,
                Some(f) => {
                    &&& listing_count(parts, client_id, peer_id, i as int) == 1
                    &&& f < i
                    &&& listing_index(parts, client_id, peer_id) == f
                },
            },
        decreases parts.len() - i,
    {
        let participant = &manifest.participants[i];
        let listed = participant.netcode_client_id.0 == client_id && match peer_id {
            Some(peer) => participant.peer_id == peer,
            None => false,
        };
        if listed {
            if found.is_some() {
                proof {
                    lemma_listing_count_monotone(parts, client_id, peer_id, i as int + 1, parts.len() as int);
                }
                return Err(MatchWorkerManifestError::DuplicateClient);
            }
            proof {
                lemma_listing_count_zero(parts, client_id, peer_id, i as int);
                lemma_first_index_at(parts, |p: MatchManifestParticipant| names_client(p, client_id, peer_id), i as int);
            }
            found = Some(i);
        }
        i = i + 1;
    }
    match found {
        Some(f) => Ok(&manifest.participants[f]),
        None => Err(MatchWorkerManifestError::UnlistedClient),
    }
}

/// Listing counts only grow with the prefix.
proof fn lemma_listing_count_monotone(parts: Seq<MatchManifestParticipant>, client_id: u64, peer_id: Option<PeerId>, k: int, n: int)
    requires
        0 <= k <= n,
    ensures
        listing_count(parts, client_id, peer_id, k) <= listing_count(parts, client_id, peer_id, n),
    decreases n - k,
{
    if k < n {
        lemma_listing_count_monotone(parts, client_id, peer_id, k, n - 1);
    }
}

/// One seat of a manifest's roster, as roster validation reads it: the player,
/// the Netcode client of a human (none for a bot), the team, and whether the
/// display name is already in the lobby's canonical form.
pub struct RosterSeat {
    pub player: u64,
    pub client: Option<u64>,
    pub team: u8,
    pub canonical_name: bool,
}

/// The seats of `manifest`: its participants in order, then its bots, with
/// `canonical_names` saying of each, in the same order, whether its display
/// name is canonical.
pub open spec fn roster_seats(manifest: MatchManifest, canonical_names: Seq<bool>) -> Seq<RosterSeat> {
    let humans = manifest.participants@.len();
    Seq::new(
        humans + manifest.bots@.len(),
        |i: int|
            if i < humans {
                let p = manifest.participants@[i];
                RosterSeat {
                    player: p.player_id.0,
                    client: Some(p.netcode_client_id.0),
                    team: p.team,
                    canonical_name: canonical_names[i],
                }
            } else {
                let b = manifest.bots@[i - humans];
                RosterSeat { player: b.player_id.0, client: None, team: b.team, canonical_name: canonical_names[i] }
            },
    )
}

/// What is wrong with seat `i`, judged against the seats before it: a team other
/// than 0 or 1, a display name out of canonical form, a player seated before, or
/// a human's client seated before, in that order.
pub open spec fn seat_fault(seats: Seq<RosterSeat>, i: int) -> Option<MatchWorkerManifestError> {
    let seat = seats[i];
    if seat.team > 1 {
        Some(MatchWorkerManifestError::InvalidTeam)
    } else if !seat.canonical_name {
        Some(MatchWorkerManifestError::InvalidDisplayName)
    } else if exists|j: int| 0 <= j < i && #[trigger] seats[j].player == seat.player {
        Some(MatchWorkerManifestError::DuplicatePlayer)
    } else if seat.client is Some && exists|j: int| 0 <= j < i && #[trigger] seats[j].client == seat.client {
        Some(MatchWorkerManifestError::DuplicateClient)
    } else {
        None
    }
}

/// The fault of the first faulty seat among the first `k`.
pub open spec fn first_seat_fault(seats: Seq<RosterSeat>, k: int) -> Option<MatchWorkerManifestError>
    decreases k,
{
    if k <= 0 {
        None
    } else {
        match first_seat_fault(seats, k - 1) {
            Some(fault) => Some(fault),
            None => seat_fault(seats, k - 1),
        }
    }
}

/// The number of the first `k` seats on team `team`.
pub open spec fn team_size(seats: Seq<RosterSeat>, team: u8, k: int) -> nat
    decreases k,
{
    if k <= 0 {
        0
    } else {
        team_size(seats, team, k - 1) + if seats[k - 1].team == team {
            1nat
        } else {
            0nat
        }
    }
}

/// The manifest's seats, counted with saturation at `usize::MAX`, are at most `max_clients`.
pub open spec fn seats_fit(manifest: MatchManifest, max_clients: usize) -> bool {
    let count = manifest.participants@.len() + manifest.bots@.len();
    let saturated = if count > usize::MAX {
        usize::MAX as int
    } else {
        count as int
    };
    saturated <= max_clients
}

/// Once a seat is found faulty, later seats do not change the first fault.
pub proof fn lemma_first_seat_fault_stays(seats: Seq<RosterSeat>, k: int, n: int)
    requires
        0 <= k <= n,
        first_seat_fault(seats, k) is Some,
    ensures
        first_seat_fault(seats, n) == first_seat_fault(seats, k),
    decreases n - k,
{
    if k < n {
        lemma_first_seat_fault_stays(seats, k, n - 1);
    }
}

/// The verdict on a manifest's roster: more seats than `max_clients` (their count
/// saturating at `usize::MAX`) is over capacity; then the first faulty seat
/// decides; then the teams must be one, two or three seats each, and equal.
pub open spec fn roster_verdict(
    manifest: MatchManifest,
    canonical_names: Seq<bool>,
    max_clients: usize,
) -> Result<(), MatchWorkerManifestError> {
    let seats = roster_seats(manifest, canonical_names);
    if !seats_fit(manifest, max_clients) {
        Err(MatchWorkerManifestError::ParticipantCapacity)
    } else {
        match first_seat_fault(seats, seats.len() as int) {
            Some(fault) => Err(fault),
            None => {
                let first = team_size(seats, 0, seats.len() as int);
                let second = team_size(seats, 1, seats.len() as int);
                if first == second && 1 <= first <= 3 {
                    Ok(())
                } else {
                    Err(MatchWorkerManifestError::ParticipantCapacity)
                }
            },
        }
    }
}

/// Whether `values` holds `value`.
fn holds_id(values: &Vec<u64>, value: u64) -> (r: bool)
    ensures
        r == values@.contains(value),
{
    let mut i: usize = 0;
    while i < values.len()
        invariant
            i <= values.len(),
            forall|j: int| 0 <= j < i ==> values@[j] != value,
        decreases values.len() - i,
    {
        if values[i] == value {
            assert(values@[i as int] == value);
            return true;
        }
        i = i + 1;
    }
    false
}

/// Validates the roster of `manifest` against the worker's `max_clients`:
/// capacity, then each seat in order (team, display name, unique player, unique
/// human client), then balanced teams of one to three. `canonical_names` says of
/// each seat, participants first and bots after, whether its display name is
/// already in the lobby's canonical form.
pub fn validate_manifest_roster(
    manifest: &MatchManifest,
    canonical_names: &Vec<bool>,
    max_clients: usize,
) -> (verdict: Result<(), MatchWorkerManifestError>)
    requires
        canonical_names@.len() == manifest.participants@.len() + manifest.bots@.len(),
    ensures
        verdict == roster_verdict(*manifest, canonical_names@, max_clients),
{
    let ghost seats = roster_seats(*manifest, canonical_names@);
    let humans = manifest.participants.len();
    let count = humans.saturating_add(manifest.bots.len());
    if count > max_clients {
        return Err(MatchWorkerManifestError::ParticipantCapacity);
    }
    let mut players: Vec<u64> = Vec::new();
    let mut clients: Vec<u64> = Vec::new();
    let mut first: usize = 0;
    let mut second: usize = 0;
    let mut i: usize = 0;
    while i < humans
        invariant
            seats == roster_seats(*manifest, canonical_names@),
            humans == manifest.participants@.len(),
            canonical_names@.len() == seats.len(),
            seats.len() == humans + manifest.bots@.len(),
            seats_fit(*manifest, max_clients),
            i <= humans,
            first_seat_fault(seats, i as int) is None,
            players@.len() == i,
            clients@.len() == i,
            forall|j: int| 0 <= j < i ==> players@[j] == #[trigger] seats[j].player,
            forall|j: int| 0 <= j < i ==> Some(clients@[j]) == #[trigger] seats[j].client,
            first == team_size(seats, 0, i as int),
            second == team_size(seats, 1, i as int),
            first + second <= i,
        decreases humans - i,
    {
        let participant = &manifest.participants[i];
        let ghost seat = seats[i as int];
        let ghost k_seat = i as int;
        assert(seat.player == participant.player_id.0 && seat.client == Some(participant.netcode_client_id.0)
            && seat.team == participant.team && seat.canonical_name == canonical_names@[i as int]);
        if participant.team > 1 {
            proof {
                lemma_first_seat_fault_stays(seats, i + 1, seats.len() as int);
            }
            return Err(MatchWorkerManifestError::InvalidTeam);
        }
        if !canonical_names[i] {
            proof {
                lemma_first_seat_fault_stays(seats, i + 1, seats.len() as int);
            }
            return Err(MatchWorkerManifestError::InvalidDisplayName);
        }
        let player = participant.player_id.0;
        if holds_id(&players, player) {
            proof {
                let j = choose|j: int| 0 <= j < players@.len() && players@[j] == player;
                assert(seats[j].player == seat.player);
                lemma_first_seat_fault_stays(seats, k_seat + 1, seats.len() as int);
            }
            return Err(MatchWorkerManifestError::DuplicatePlayer);
        }
        proof {
            assert forall|j: int| 0 <= j < i implies #[trigger] seats[j].player != seat.player by {
                assert(players@[j] == seats[j].player);
            }
        }
        let client = participant.netcode_client_id.0;
        if holds_id(&clients, client) {
            proof {
                let j = choose|j: int| 0 <= j < clients@.len() && clients@[j] == client;
                assert(seats[j].client == seat.client);
                lemma_first_seat_fault_stays(seats, i + 1, seats.len() as int);
            }
            return Err(MatchWorkerManifestError::DuplicateClient);
        }
        proof {
            assert forall|j: int| 0 <= j < i implies #[trigger] seats[j].client != seat.client by {
                assert(Some(clients@[j]) == seats[j].client);
            }
            assert(seat_fault(seats, i as int) is None);
        }
        players.push(player);
        clients.push(client);
        if participant.team == 0 {
            first = first + 1;
        } else {
            second = second + 1;
        }
        i = i + 1;
    }
    let mut b: usize = 0;
    while b < manifest.bots.len()
        invariant
            seats == roster_seats(*manifest, canonical_names@),
            humans == manifest.participants@.len(),
            canonical_names@.len() == seats.len(),
            seats.len() == humans + manifest.bots@.len(),
            seats_fit(*manifest, max_clients),
            b <= manifest.bots@.len(),
            first_seat_fault(seats, humans + b) is None,
            players@.len() == humans + b,
            forall|j: int| 0 <= j < humans + b ==> players@[j] == #[trigger] seats[j].player,
            first == team_size(seats, 0, humans + b),
            second == team_size(seats, 1, humans + b),
            first + second <= humans + b,
        decreases manifest.bots@.len() - b,
    {
        let bot = &manifest.bots[b];
        let k = players.len();
        let ghost seat = seats[k as int];
        let ghost k_seat = k as int;
        assert(seat.player == bot.player_id.0 && seat.client == None::<u64> && seat.team == bot.team
            && seat.canonical_name == canonical_names@[k as int]);
        if bot.team > 1 {
            proof {
                lemma_first_seat_fault_stays(seats, k + 1, seats.len() as int);
            }
            return Err(MatchWorkerManifestError::InvalidTeam);
        }
        if !canonical_names[k] {
            proof {
                lemma_first_seat_fault_stays(seats, k + 1, seats.len() as int);
            }
            return Err(MatchWorkerManifestError::InvalidDisplayName);
        }
        let player = bot.player_id.0;
        if holds_id(&players, player) {
            proof {
                let j = choose|j: int| 0 <= j < players@.len() && players@[j] == player;
                assert(seats[j].player == seat.player);
                lemma_first_seat_fault_stays(seats, k_seat + 1, seats.len() as int);
            }
            return Err(MatchWorkerManifestError::DuplicatePlayer);
        }
        proof {
            assert forall|j: int| 0 <= j < k implies #[trigger] seats[j].player != seat.player by {
                assert(players@[j] == seats[j].player);
            }
            assert(seat_fault(seats, k as int) is None);
        }
        players.push(player);
        let seated = players.len();
        assert(first + second < seated);
        if bot.team == 0 {
            first = first + 1;
        } else {
            second = second + 1;
        }
        b = b + 1;
    }
    if first == second && 1 <= first && first <= 3 {
        Ok(())
    } else {
        Err(MatchWorkerManifestError::ParticipantCapacity)
    }
}

/// With no fault among the first `k` seats, none of them is faulty.
pub proof fn lemma_no_first_fault_means_no_fault(seats: Seq<RosterSeat>, k: int, i: int)
    requires
        0 <= i < k,
        first_seat_fault(seats, k) is None,
    ensures
        seat_fault(seats, i) is None,
    decreases k,
{
    if i < k - 1 {
        lemma_no_first_fault_means_no_fault(seats, k - 1, i);
    }
}

/// An accepted roster fits the worker, seats every player once and every human
/// client once, puts every seat on team 0 or 1 under a canonical name, and
/// fields two equal teams of one to three.
pub proof fn law_accepted_roster_is_sound(manifest: MatchManifest, canonical_names: Seq<bool>, max_clients: usize)
    requires
        roster_verdict(manifest, canonical_names, max_clients) is Ok,
    ensures
        ({
            let seats = roster_seats(manifest, canonical_names);
            &&& seats_fit(manifest, max_clients)
            &&& forall|i: int| 0 <= i < seats.len() ==> #[trigger] seats[i].team <= 1 && seats[i].canonical_name
            &&& forall|i: int, j: int| 0 <= i < j < seats.len() ==> #[trigger] seats[i].player != #[trigger] seats[j].player
            &&& forall|i: int, j: int|
                0 <= i < j < seats.len() && seats[j].client is Some ==> #[trigger] seats[i].client != #[trigger] seats[j].client
            &&& team_size(seats, 0, seats.len() as int) == team_size(seats, 1, seats.len() as int)
            &&& 1 <= team_size(seats, 0, seats.len() as int) <= 3
        }),
{
    let seats = roster_seats(manifest, canonical_names);
    let n = seats.len() as int;
    assert forall|i: int| 0 <= i < n implies #[trigger] seats[i].team <= 1 && seats[i].canonical_name by {
        lemma_no_first_fault_means_no_fault(seats, n, i);
    }
    assert forall|i: int, j: int| 0 <= i < j < n implies #[trigger] seats[i].player != #[trigger] seats[j].player by {
        lemma_no_first_fault_means_no_fault(seats, n, j);
    }
    assert forall|i: int, j: int|
        0 <= i < j < n && seats[j].client is Some implies #[trigger] seats[i].client != #[trigger] seats[j].client by {
        lemma_no_first_fault_means_no_fault(seats, n, j);
    }
}

/// The fields of a manifest's header that a worker checks against its configuration.
#[derive(Clone, Copy, Debug, PartialEq, Eq)]
pub struct MatchManifestHeader {
    pub network_protocol: u64,
    pub process_id: u64,
    pub mode: GameMode,
    pub rules_profile: u8,
}

/// What a worker's configuration expects of its manifests.
#[derive(Clone, Copy, Debug, PartialEq, Eq)]
pub struct ManifestExpectations {
    pub network_protocol: u64,
    pub mode: GameMode,
    pub rules_profile: u8,
    pub max_clients: usize,
}

/// The verdict on a worker manifest, checks in order: the worker's configuration
/// (`configuration`), the manifest's own well-formedness (`well_formed`), its network
/// protocol, a nonzero process, its mode, its map (`map`, judged against the map catalog), its
/// rules profile, its roster, and its build rows (`build_rows`, judged against the content
/// catalogs).
pub open spec fn manifest_verdict(
    expected: ManifestExpectations,
    header: MatchManifestHeader,
    manifest: MatchManifest,
    configuration: Result<(), String>,
    well_formed: bool,
    map: Result<(), MatchWorkerManifestError>,
    canonical_names: Seq<bool>,
    build_rows: Result<(), MatchWorkerManifestError>,
) -> Result<(), MatchWorkerManifestError> {
    match configuration {
        Err(reason) => Err(MatchWorkerManifestError::Configuration(reason)),
        Ok(()) => if !well_formed {
            Err(MatchWorkerManifestError::InvalidManifest)
        } else if header.network_protocol != expected.network_protocol {
            Err(MatchWorkerManifestError::NetworkProtocolMismatch)
        } else if header.process_id == 0 {
            Err(MatchWorkerManifestError::InvalidManifest)
        } else if header.mode != expected.mode {
            Err(MatchWorkerManifestError::ModeMismatch)
        } else {
            match map {
                Err(error) => Err(error),
                Ok(()) => if header.rules_profile != expected.rules_profile {
                    Err(MatchWorkerManifestError::RulesProfileMismatch)
                } else {
                    match roster_verdict(manifest, canonical_names, expected.max_clients) {
                        Err(error) => Err(error),
                        Ok(()) => build_rows,
                    }
                },
            }
        },
    }
}

/// Validates a worker manifest against the worker's configuration. The checks that read the
/// configuration, the manifest's framing, the map catalog and the content catalogs come as
/// their verdicts: `configuration`, `well_formed`, `map` and `build_rows`; `canonical_names`
/// says of each seat, participants first, whether its display name is canonical.
pub fn validate_match_manifest(
    expected: ManifestExpectations,
    header: MatchManifestHeader,
    manifest: &MatchManifest,
    configuration: Result<(), String>,
    well_formed: bool,
    map: Result<(), MatchWorkerManifestError>,
    canonical_names: &Vec<bool>,
    build_rows: Result<(), MatchWorkerManifestError>,
) -> (verdict: Result<(), MatchWorkerManifestError>)
    requires
        canonical_names@.len() == manifest.participants@.len() + manifest.bots@.len(),
    ensures
        verdict == manifest_verdict(
            expected,
            header,
            *manifest,
            configuration,
            well_formed,
            map,
            canonical_names@,
            build_rows,
        ),
{
    if let Err(reason) = configuration {
        return Err(MatchWorkerManifestError::Configuration(reason));
    }
    if !well_formed {
        return Err(MatchWorkerManifestError::InvalidManifest);
    }
    if header.network_protocol != expected.network_protocol {
        return Err(MatchWorkerManifestError::NetworkProtocolMismatch);
    }
    if header.process_id == 0 {
        return Err(MatchWorkerManifestError::InvalidManifest);
    }
    if header.mode != expected.mode {
        return Err(MatchWorkerManifestError::ModeMismatch);
    }
    if let Err(error) = map {
        return Err(error);
    }
    if header.rules_profile != expected.rules_profile {
        return Err(MatchWorkerManifestError::RulesProfileMismatch);
    }
    if let Err(error) = validate_manifest_roster(manifest, canonical_names, expected.max_clients) {
        return Err(error);
    }
    build_rows
}

} // verus!
