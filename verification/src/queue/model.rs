//! The abstract queue state and the transitions every queue operation performs on it.

use vstd::prelude::*;
use crate::ids::{
    CatalogRevision, LobbySessionId, MapPresetId, MatchReservationId, NetcodeClientId, PlayerId,
    QueueRequestId, QueueTicketId,
};
use crate::wire::{
    AcceptedBuildSummary, AdmittedBuild, BuildResolution, BuildSnapshot, GameTypeId, QueueCancelCommand,
    QueueCommand, QueueCommandOutcome, QueueDecision, QueueJoinCommand, QueueMembership,
    QueuePoolRow, QueueRejection, accepted_summary, same_command, same_game,
};
use crate::session::LobbySession;
use crate::queue::telemetry::{QueueTelemetry, cap16, observed, sat_inc};
use crate::queue::memory::{
    COMMAND_REFILL_MILLIS, EARLY_IDENTICAL_RETRY_LIMIT, IDENTICAL_RETRY_MILLIS, LastCommand,
    QueueCommandMemory, fresh_memory, refilled, sat_add,
};

verus! {

/// The largest number of queue tickets (one per authenticated lobby session).
pub const MAX_QUEUE_TICKETS: usize = 32;

/// One admitted queue ticket.
#[derive(Clone, Debug, PartialEq, Eq)]
pub struct QueueTicket {
    pub ticket_id: QueueTicketId,
    pub lobby_session_id: LobbySessionId,
    pub player_id: PlayerId,
    pub netcode_client_id: NetcodeClientId,
    pub catalog_revision: CatalogRevision,
    pub game_type_id: GameTypeId,
    pub game_type_configuration_revision: u32,
    pub accepted_build: AcceptedBuildSummary,
    pub build_snapshot: BuildSnapshot,
    pub admission_order: u64,
    pub admitted_at_pool_state_revision: u64,
    pub formation_eligible: bool,
}

impl QueueTicket {
    /// A copy of the ticket.
    pub fn duplicate(&self) -> (copy: Self)
        ensures
            copy == *self,
    {
        QueueTicket {
            ticket_id: self.ticket_id,
            lobby_session_id: self.lobby_session_id,
            player_id: self.player_id,
            netcode_client_id: self.netcode_client_id,
            catalog_revision: self.catalog_revision,
            game_type_id: self.game_type_id.duplicate(),
            game_type_configuration_revision: self.game_type_configuration_revision,
            accepted_build: self.accepted_build,
            build_snapshot: self.build_snapshot,
            admission_order: self.admission_order,
            admitted_at_pool_state_revision: self.admitted_at_pool_state_revision,
            formation_eligible: self.formation_eligible,
        }
    }
}

/// One reserved roster member and the team it plays on.
#[derive(Clone, Copy, Debug, PartialEq, Eq, Structural)]
pub struct ReservedParticipant {
    pub ticket_id: QueueTicketId,
    pub team: u8,
}

/// A reserved roster that is being handed to a match.
#[derive(Clone, Debug, PartialEq, Eq)]
pub struct QueueReservation {
    pub reservation_id: MatchReservationId,
    pub game_type_id: GameTypeId,
    pub map_preset_id: MapPresetId,
    pub team_count: u8,
    pub players_per_team: u8,
    pub participants: Vec<ReservedParticipant>,
    pub handoff_ready: bool,
}

/// The abstract value of a reservation.
pub struct ReservationView {
    pub reservation_id: MatchReservationId,
    pub game_type_id: GameTypeId,
    pub map_preset_id: MapPresetId,
    pub team_count: u8,
    pub players_per_team: u8,
    pub participants: Seq<ReservedParticipant>,
    pub handoff_ready: bool,
}

impl QueueReservation {
    /// The abstract value of the reservation.
    pub open spec fn model(&self) -> ReservationView {
        ReservationView {
            reservation_id: self.reservation_id,
            game_type_id: self.game_type_id,
            map_preset_id: self.map_preset_id,
            team_count: self.team_count,
            players_per_team: self.players_per_team,
            participants: self.participants@,
            handoff_ready: self.handoff_ready,
        }
    }

    /// A copy of the reservation.
    pub fn duplicate(&self) -> (copy: Self)
        ensures
            copy.model() == self.model(),
    {
        QueueReservation {
            reservation_id: self.reservation_id,
            game_type_id: self.game_type_id.duplicate(),
            map_preset_id: self.map_preset_id,
            team_count: self.team_count,
            players_per_team: self.players_per_team,
            participants: self.participants.clone(),
            handoff_ready: self.handoff_ready,
        }
    }
}

/// The ticket that an authenticated Netcode client holds.
#[derive(Clone, Copy, Debug, PartialEq, Eq, Structural)]
pub struct ClientTicket {
    pub client: NetcodeClientId,
    pub ticket: QueueTicketId,
}

/// The command memory of one lobby session.
#[derive(Clone, Debug, PartialEq, Eq)]
pub struct SessionMemory {
    pub session_id: LobbySessionId,
    pub memory: QueueCommandMemory,
}

/// What a queue call asks of its caller.
#[derive(Clone, Copy, Debug, PartialEq, Eq, Structural)]
pub enum QueueCommandDisposition {
    Idle,
    OutcomeReady,
    Disconnect,
    SuppressedIdenticalRetry,
    EarlyIdenticalRetry,
}

/// What a queue call asks of its caller, and whether the aggregate snapshot changed.
#[derive(Clone, Copy, Debug, PartialEq, Eq, Structural)]
pub struct QueueCommandResult {
    pub disposition: QueueCommandDisposition,
    pub snapshot_changed: bool,
}

/// The kind of a snapshot publication, for telemetry.
#[derive(Clone, Copy, Debug, PartialEq, Eq, Structural)]
pub enum SnapshotPublication {
    Initial,
    Mutation,
    Refresh,
}

/// A result with `disposition` and no snapshot change.
pub open spec fn result_of(disposition: QueueCommandDisposition) -> QueueCommandResult {
    QueueCommandResult { disposition: disposition, snapshot_changed: false }
}

/// The counters of the queue telemetry.
pub enum Counter {
    Admissions,
    Cancellations,
    DisconnectRemovals,
    BuildRejections,
    GameRejections,
    MembershipRejections,
    UnavailableRejections,
    RateLimitNotices,
    ProtocolAbuse,
    SuppressedRetries,
    EarlyRetries,
    InitialSnapshots,
    MutationSnapshots,
    RefreshSnapshots,
}

/// Telemetry with one counter incremented, saturating.
pub open spec fn bumped(t: QueueTelemetry, counter: Counter) -> QueueTelemetry {
    match counter {
        Counter::Admissions => QueueTelemetry { admissions: sat_inc(t.admissions), ..t },
        Counter::Cancellations => QueueTelemetry { cancellations: sat_inc(t.cancellations), ..t },
        Counter::DisconnectRemovals => QueueTelemetry { disconnect_removals: sat_inc(t.disconnect_removals), ..t },
        Counter::BuildRejections => QueueTelemetry { build_rejections: sat_inc(t.build_rejections), ..t },
        Counter::GameRejections => QueueTelemetry { game_rejections: sat_inc(t.game_rejections), ..t },
        Counter::MembershipRejections => QueueTelemetry {
            membership_rejections: sat_inc(t.membership_rejections),
            ..t
        },
        Counter::UnavailableRejections => QueueTelemetry {
            unavailable_rejections: sat_inc(t.unavailable_rejections),
            ..t
        },
        Counter::RateLimitNotices => QueueTelemetry { rate_limit_notices: sat_inc(t.rate_limit_notices), ..t },
        Counter::ProtocolAbuse => QueueTelemetry {
            protocol_abuse_disconnects: sat_inc(t.protocol_abuse_disconnects),
            ..t
        },
        Counter::SuppressedRetries => QueueTelemetry {
            suppressed_identical_retries: sat_inc(t.suppressed_identical_retries),
            ..t
        },
        Counter::EarlyRetries => QueueTelemetry {
            early_identical_retries: sat_inc(t.early_identical_retries),
            ..t
        },
        Counter::InitialSnapshots => QueueTelemetry {
            initial_snapshot_publications: sat_inc(t.initial_snapshot_publications),
            ..t
        },
        Counter::MutationSnapshots => QueueTelemetry {
            mutation_snapshot_publications: sat_inc(t.mutation_snapshot_publications),
            ..t
        },
        Counter::RefreshSnapshots => QueueTelemetry {
            refresh_snapshot_publications: sat_inc(t.refresh_snapshot_publications),
            ..t
        },
    }
}

/// The abstract state of the queue authority. Pools, map ordinals and pool rows are aligned
/// with the catalog's game types by index.
pub struct QueueView {
    pub catalog_revision: CatalogRevision,
    pub pool_rows: Seq<QueuePoolRow>,
    pub pools: Seq<Seq<QueueTicketId>>,
    pub tickets: Seq<QueueTicket>,
    pub client_tickets: Seq<ClientTicket>,
    pub reservation: Option<ReservationView>,
    pub map_ordinals: Seq<u64>,
    pub memories: Seq<SessionMemory>,
    pub next_admission_order: u64,
    pub state_revision: u64,
    pub revision_exhausted: bool,
    pub ticket_namespace: Option<u64>,
    pub telemetry: QueueTelemetry,
}

// ---------------------------------------------------------------------------------------------
// Lookups
// ---------------------------------------------------------------------------------------------

/// The first index of `s` whose element satisfies `p`, or -1.
pub open spec fn first_index<T>(s: Seq<T>, p: spec_fn(T) -> bool) -> int {
    if exists|i: int| 0 <= i < s.len() && p(s[i]) {
        choose|i: int| 0 <= i < s.len() && p(s[i]) && forall|j: int| 0 <= j < i ==> !p(#[trigger] s[j])
    } else {
        -1
    }
}

/// An index whose element satisfies `p`, with none before it, is the first index.
pub proof fn lemma_first_index_at<T>(s: Seq<T>, p: spec_fn(T) -> bool, i: int)
    requires
        0 <= i < s.len(),
        p(s[i]),
        forall|j: int| 0 <= j < i ==> !p(#[trigger] s[j]),
    ensures
        first_index(s, p) == i,
{
    let k = choose|k: int| 0 <= k < s.len() && p(s[k]) && forall|j: int| 0 <= j < k ==> !p(#[trigger] s[j]);
    if k < i {
        assert(!p(s[k]));
    } else if k > i {
        assert(!p(s[i]));
    }
}

/// Without a satisfying element there is no first index.
pub proof fn lemma_first_index_none<T>(s: Seq<T>, p: spec_fn(T) -> bool)
    requires
        forall|j: int| 0 <= j < s.len() ==> !p(#[trigger] s[j]),
    ensures
        first_index(s, p) == -1,
{
}

/// The first index, when there is one, satisfies `p` and no element before it does.
pub proof fn lemma_first_index_facts<T>(s: Seq<T>, p: spec_fn(T) -> bool)
    ensures
        first_index(s, p) == -1 <==> forall|j: int| 0 <= j < s.len() ==> !p(#[trigger] s[j]),
        first_index(s, p) != -1 ==> {
            &&& 0 <= first_index(s, p) < s.len()
            &&& p(s[first_index(s, p)])
            &&& forall|j: int| 0 <= j < first_index(s, p) ==> !p(#[trigger] s[j])
        },
    decreases s.len(),
{
    if exists|i: int| 0 <= i < s.len() && p(s[i]) {
        if p(s[0]) {
            lemma_first_index_at(s, p, 0);
        } else {
            let rest = s.subrange(1, s.len() as int);
            assert(exists|i: int| 0 <= i < rest.len() && p(rest[i])) by {
                let i = choose|i: int| 0 <= i < s.len() && p(s[i]);
                assert(rest[i - 1] == s[i]);
            }
            lemma_first_index_facts(rest, p);
            let k = first_index(rest, p);
            assert forall|j: int| 0 <= j < k + 1 implies !p(#[trigger] s[j]) by {
                if j > 0 {
                    assert(s[j] == rest[j - 1]);
                }
            }
            assert(s[k + 1] == rest[k]);
            lemma_first_index_at(s, p, k + 1);
        }
    }
}

/// Index of the ticket with identity `id`.
pub open spec fn ticket_index(tickets: Seq<QueueTicket>, id: QueueTicketId) -> int {
    first_index(tickets, |t: QueueTicket| t.ticket_id == id)
}

/// Index of the ticket owned by lobby session `session_id`.
pub open spec fn session_ticket_index(tickets: Seq<QueueTicket>, session_id: LobbySessionId) -> int {
    first_index(tickets, |t: QueueTicket| t.lobby_session_id == session_id)
}

/// Index of the command memory of lobby session `session_id`.
pub open spec fn memory_index(memories: Seq<SessionMemory>, session_id: LobbySessionId) -> int {
    first_index(memories, |m: SessionMemory| m.session_id == session_id)
}

/// Index of the client-index entry of client `client`.
pub open spec fn client_index(entries: Seq<ClientTicket>, client: NetcodeClientId) -> int {
    first_index(entries, |c: ClientTicket| c.client == client)
}

/// Index of the pool row of game type `id`.
pub open spec fn row_index(rows: Seq<QueuePoolRow>, id: GameTypeId) -> int {
    first_index(rows, |r: QueuePoolRow| same_game(r.game_type_id, id))
}

/// Position of ticket `id` in a pool.
pub open spec fn pool_position(pool: Seq<QueueTicketId>, id: QueueTicketId) -> int {
    first_index(pool, |x: QueueTicketId| x == id)
}

/// Position of ticket `id` among reservation participants.
pub open spec fn participant_position(participants: Seq<ReservedParticipant>, id: QueueTicketId) -> int {
    first_index(participants, |p: ReservedParticipant| p.ticket_id == id)
}

/// The ticket of lobby session `session_id`, if it holds one.
pub open spec fn ticket_of_session(v: QueueView, session_id: LobbySessionId) -> Option<QueueTicket> {
    let i = session_ticket_index(v.tickets, session_id);
    if i >= 0 {
        Some(v.tickets[i])
    } else {
        None
    }
}

/// The ticket with identity `id`, if it is held.
pub open spec fn ticket_with_id(v: QueueView, id: QueueTicketId) -> Option<QueueTicket> {
    let i = ticket_index(v.tickets, id);
    if i >= 0 {
        Some(v.tickets[i])
    } else {
        None
    }
}

/// The ticket that client `client` holds through the client index, if any.
pub open spec fn ticket_of_client(v: QueueView, client: NetcodeClientId) -> Option<QueueTicket> {
    let i = client_index(v.client_tickets, client);
    if i >= 0 {
        ticket_with_id(v, v.client_tickets[i].ticket)
    } else {
        None
    }
}

/// The command memory of lobby session `session_id`, if it has one.
pub open spec fn memory_of(v: QueueView, session_id: LobbySessionId) -> Option<QueueCommandMemory> {
    let i = memory_index(v.memories, session_id);
    if i >= 0 {
        Some(v.memories[i].memory)
    } else {
        None
    }
}

/// The number of sessions with an outcome awaiting acknowledgement.
pub open spec fn pending_count(memories: Seq<SessionMemory>) -> nat
    decreases memories.len(),
{
    if memories.len() == 0 {
        0
    } else {
        pending_count(memories.drop_last()) + if memories.last().memory.pending_outcome is Some {
            1nat
        } else {
            0nat
        }
    }
}

/// The membership that a ticket grants.
pub open spec fn membership_of(t: QueueTicket) -> QueueMembership {
    QueueMembership {
        ticket_id: t.ticket_id,
        catalog_revision: t.catalog_revision,
        game_type_id: t.game_type_id,
        game_type_configuration_revision: t.game_type_configuration_revision,
        brawler_id: t.build_snapshot.brawler_id,
        brawler_revision: t.build_snapshot.brawler_revision,
        accepted_build: t.accepted_build,
        admitted_at_pool_state_revision: t.admitted_at_pool_state_revision,
    }
}

// ---------------------------------------------------------------------------------------------
// Small transitions
// ---------------------------------------------------------------------------------------------

/// The state with one telemetry counter incremented.
pub open spec fn bump(v: QueueView, counter: Counter) -> QueueView {
    QueueView { telemetry: bumped(v.telemetry, counter), ..v }
}

/// The state after observing its ticket and pending-outcome counts.
#[verifier::opaque]
pub open spec fn observe(v: QueueView) -> QueueView {
    QueueView {
        telemetry: observed(v.telemetry, v.tickets.len() as int, pending_count(v.memories) as int),
        ..v
    }
}

/// The state with the command memory at index `i` replaced.
pub open spec fn with_memory(v: QueueView, i: int, m: QueueCommandMemory) -> QueueView {
    QueueView {
        memories: v.memories.update(i, SessionMemory { session_id: v.memories[i].session_id, memory: m }),
        ..v
    }
}

/// The state after a protocol-abuse disconnect verdict.
pub open spec fn disconnected(v: QueueView) -> (QueueView, QueueCommandResult) {
    (bump(v, Counter::ProtocolAbuse), result_of(QueueCommandDisposition::Disconnect))
}

/// The pool rows with every queued count set from its pool.
pub open spec fn refreshed_rows(rows: Seq<QueuePoolRow>, pools: Seq<Seq<QueueTicketId>>) -> Seq<QueuePoolRow> {
    Seq::new(
        rows.len(),
        |i: int|
            QueuePoolRow {
                queued: if i < pools.len() {
                    cap16(pools[i].len() as int)
                } else {
                    0
                },
                ..rows[i]
            },
    )
}

/// The state after refreshing the pool rows and observing counts.
#[verifier::opaque]
pub open spec fn refresh(v: QueueView) -> QueueView {
    observe(QueueView { pool_rows: refreshed_rows(v.pool_rows, v.pools), ..v })
}

/// The state with a command memory ensured for `session_id`, created at `now_millis` if absent.
#[verifier::opaque]
pub open spec fn with_session_memory(v: QueueView, session_id: LobbySessionId, now_millis: u64) -> QueueView {
    if memory_index(v.memories, session_id) >= 0 {
        v
    } else {
        QueueView {
            memories: v.memories.push(SessionMemory { session_id: session_id, memory: fresh_memory(now_millis) }),
            ..v
        }
    }
}

/// The namespace that a random seed selects for ticket identities.
pub open spec fn namespace_of_seed(seed: u128) -> u64 {
    let high = (seed >> 64u32) as u64;
    let low = (seed & 0xffff_ffff_ffff_ffffu128) as u64;
    let mixed = high ^ low;
    if mixed == 0 {
        1
    } else {
        mixed
    }
}

/// The ticket identity for admission `order` within `namespace`.
pub open spec fn ticket_id_value(namespace: u64, order: u64) -> u128 {
    ((namespace as u128) << 64u32) | (order as u128)
}

/// The ticket identity for admission `order` within `namespace`, refusing zero.
pub open spec fn ticket_id_in(namespace: u64, order: u64) -> Option<QueueTicketId> {
    if ticket_id_value(namespace, order) == 0 {
        None
    } else {
        Some(QueueTicketId(ticket_id_value(namespace, order)))
    }
}

/// The state and identity after drawing a fresh ticket identity for admission `order`. The
/// namespace is drawn once, from `seed`, the value the identity source returns when asked.
#[verifier::opaque]
pub open spec fn fresh_ticket(v: QueueView, order: u64, seed: Option<QueueTicketId>) -> (QueueView, Option<QueueTicketId>) {
    match v.ticket_namespace {
        Some(namespace) => (v, ticket_id_in(namespace, order)),
        None => match seed {
            None => (v, None),
            Some(seed) => {
                let namespace = namespace_of_seed(seed.0);
                (QueueView { ticket_namespace: Some(namespace), ..v }, ticket_id_in(namespace, order))
            },
        },
    }
}

/// The state after removing ticket `id` from every index, its pool and its reservation.
#[verifier::opaque]
pub open spec fn without_ticket(v: QueueView, id: QueueTicketId) -> QueueView {
    let i = ticket_index(v.tickets, id);
    if i < 0 {
        v
    } else {
        let t = v.tickets[i];
        let c = client_index(v.client_tickets, t.netcode_client_id);
        let client_tickets = if c >= 0 {
            v.client_tickets.remove(c)
        } else {
            v.client_tickets
        };
        let reservation = match v.reservation {
            Some(r) => {
                let p = participant_position(r.participants, id);
                if p < 0 {
                    Some(r)
                } else if r.participants.len() == 1 {
                    None
                } else {
                    Some(ReservationView { participants: r.participants.remove(p), ..r })
                }
            },
            None => None,
        };
        let g = row_index(v.pool_rows, t.game_type_id);
        let pools = if 0 <= g < v.pools.len() && pool_position(v.pools[g], id) >= 0 {
            v.pools.update(g, v.pools[g].remove(pool_position(v.pools[g], id)))
        } else {
            v.pools
        };
        let m = memory_index(v.memories, t.lobby_session_id);
        let memories = if m >= 0 {
            v.memories.update(
                m,
                SessionMemory {
                    session_id: v.memories[m].session_id,
                    memory: QueueCommandMemory { active_ticket_id: None, ..v.memories[m].memory },
                },
            )
        } else {
            v.memories
        };
        QueueView {
            tickets: v.tickets.remove(i),
            client_tickets: client_tickets,
            reservation: reservation,
            pools: pools,
            memories: memories,
            ..v
        }
    }
}

/// The state after storing `decision` as the outcome of request `request_id`: the outcome
/// awaits acknowledgement, is remembered for replay when `remember`, and a cancellation is
/// remembered for its ticket.
#[verifier::opaque]
pub open spec fn stored(
    v: QueueView,
    session_id: LobbySessionId,
    request_id: QueueRequestId,
    command: QueueCommand,
    decision: QueueDecision,
    now_millis: u64,
    changed: bool,
    remember: bool,
) -> (QueueView, QueueCommandResult) {
    let outcome = QueueCommandOutcome { request_id: request_id, decision: decision };
    let retained = LastCommand { request_id: request_id, command: command, outcome: outcome };
    let i = memory_index(v.memories, session_id);
    let v2 = if i >= 0 {
        let m = v.memories[i].memory;
        let m1 = match decision {
            QueueDecision::Cancelled { ticket_id, .. } => QueueCommandMemory {
                last_cancelled: Some((ticket_id, outcome)),
                ..m
            },
            _ => m,
        };
        let m2 = if remember {
            QueueCommandMemory { last: Some(retained), ..m1 }
        } else {
            m1
        };
        let m3 = QueueCommandMemory {
            pending_outcome: Some(retained),
            identical_retry_not_before: Some(sat_add(now_millis, IDENTICAL_RETRY_MILLIS)),
            early_identical_retry_count: 0,
            ..m2
        };
        with_memory(v, i, m3)
    } else {
        v
    };
    (
        observe(v2),
        QueueCommandResult { disposition: QueueCommandDisposition::OutcomeReady, snapshot_changed: changed },
    )
}

/// The rejection a join target receives, if any: a stale catalog, an unknown game type or a
/// stale game configuration.
#[verifier::opaque]
pub open spec fn join_target_rejection(v: QueueView, join: QueueJoinCommand) -> Option<QueueRejection> {
    if join.catalog_revision != v.catalog_revision {
        Some(QueueRejection::StaleCatalog)
    } else if row_index(v.pool_rows, join.game_type_id) < 0 {
        Some(QueueRejection::UnknownGameType)
    } else if v.pool_rows[row_index(v.pool_rows, join.game_type_id)].game_type_configuration_revision
        != join.game_type_configuration_revision {
        Some(QueueRejection::StaleGameConfiguration)
    } else {
        None
    }
}

/// Whether a held ticket is equivalent to a new join command.
pub open spec fn ticket_matches_join(t: QueueTicket, join: QueueJoinCommand) -> bool {
    &&& t.catalog_revision == join.catalog_revision
    &&& same_game(t.game_type_id, join.game_type_id)
    &&& t.game_type_configuration_revision == join.game_type_configuration_revision
    &&& t.build_snapshot.brawler_id == join.brawler_id
    &&& t.build_snapshot.brawler_revision == join.brawler_revision
}

/// A rejected join: the state with one counter bumped.
pub open spec fn join_rejected(v: QueueView, counter: Counter, rejection: QueueRejection) -> (QueueView, QueueDecision, bool) {
    (bump(v, counter), QueueDecision::Rejected(rejection), false)
}

/// The state after admitting `ticket` into pool row `g`.
#[verifier::opaque]
pub open spec fn admitted(v: QueueView, ticket: QueueTicket, next_order: u64, revision: u64) -> QueueView {
    let g = row_index(v.pool_rows, ticket.game_type_id);
    let pools = if 0 <= g < v.pools.len() {
        v.pools.update(g, v.pools[g].push(ticket.ticket_id))
    } else {
        v.pools
    };
    let c = client_index(v.client_tickets, ticket.netcode_client_id);
    let client_tickets = if c >= 0 {
        v.client_tickets.update(c, ClientTicket { client: ticket.netcode_client_id, ticket: ticket.ticket_id })
    } else {
        v.client_tickets.push(ClientTicket { client: ticket.netcode_client_id, ticket: ticket.ticket_id })
    };
    let m = memory_index(v.memories, ticket.lobby_session_id);
    let memories = if m >= 0 {
        v.memories.update(
            m,
            SessionMemory {
                session_id: v.memories[m].session_id,
                memory: QueueCommandMemory { active_ticket_id: Some(ticket.ticket_id), ..v.memories[m].memory },
            },
        )
    } else {
        v.memories
    };
    bump(
        refresh(
            QueueView {
                next_admission_order: next_order,
                state_revision: revision,
                pools: pools,
                client_tickets: client_tickets,
                memories: memories,
                tickets: v.tickets.push(ticket),
                ..v
            },
        ),
        Counter::Admissions,
    )
}

/// The join transition: validate the target, replay an equivalent membership, refuse a second
/// membership, bound the queue, check the admitted build, and admit a fresh ticket at the next
/// admission order and state revision. `seed` is what the ticket identity source returns when
/// it is asked.
#[verifier::opaque]
pub open spec fn joined(
    v: QueueView,
    session: LobbySession,
    join: QueueJoinCommand,
    admitted_build: Option<AdmittedBuild>,
    seed: Option<QueueTicketId>,
) -> (QueueView, QueueDecision, bool) {
    if let Some(rejection) = join_target_rejection(v, join) {
        join_rejected(v, Counter::GameRejections, rejection)
    } else if let Some(t) = ticket_of_session(v, session.lobby_session_id) {
        if ticket_matches_join(t, join) {
            (v, QueueDecision::Joined(membership_of(t)), false)
        } else {
            join_rejected(v, Counter::MembershipRejections, QueueRejection::MustCancelFirst)
        }
    } else if v.tickets.len() >= MAX_QUEUE_TICKETS {
        join_rejected(v, Counter::UnavailableRejections, QueueRejection::TemporarilyUnavailable)
    } else {
        match admitted_build {
            Some(build) if build.snapshot.brawler_id == join.brawler_id && build.snapshot.brawler_revision
                == join.brawler_revision => match build.resolution {
                BuildResolution::FighterUnavailable => (
                    v,
                    QueueDecision::Rejected(QueueRejection::TemporarilyUnavailable),
                    false,
                ),
                BuildResolution::Rejected => join_rejected(
                    v,
                    Counter::BuildRejections,
                    QueueRejection::InternalBuildResolution,
                ),
                BuildResolution::Resolved(resolved) => {
                    let order = v.next_admission_order;
                    if order == u64::MAX {
                        join_rejected(v, Counter::UnavailableRejections, QueueRejection::TemporarilyUnavailable)
                    } else {
                        let (v1, id) = fresh_ticket(v, order, seed);
                        match id {
                            None => join_rejected(
                                v1,
                                Counter::UnavailableRejections,
                                QueueRejection::TemporarilyUnavailable,
                            ),
                            Some(ticket_id) => if v1.state_revision == u64::MAX {
                                join_rejected(
                                    v1,
                                    Counter::UnavailableRejections,
                                    QueueRejection::TemporarilyUnavailable,
                                )
                            } else {
                                let revision = (v1.state_revision + 1) as u64;
                                let ticket = QueueTicket {
                                    ticket_id: ticket_id,
                                    lobby_session_id: session.lobby_session_id,
                                    player_id: session.player_id,
                                    netcode_client_id: session.netcode_client_id,
                                    catalog_revision: join.catalog_revision,
                                    game_type_id: join.game_type_id,
                                    game_type_configuration_revision: join.game_type_configuration_revision,
                                    accepted_build: accepted_summary(build.snapshot, resolved),
                                    build_snapshot: build.snapshot,
                                    admission_order: order,
                                    admitted_at_pool_state_revision: revision,
                                    formation_eligible: false,
                                };
                                (
                                    admitted(v1, ticket, (order + 1) as u64, revision),
                                    QueueDecision::Joined(membership_of(ticket)),
                                    true,
                                )
                            },
                        }
                    }
                },
            },
            _ => join_rejected(v, Counter::BuildRejections, QueueRejection::InternalBuildResolution),
        }
    }
}

/// The cancel transition: replay the remembered cancellation of the same ticket, refuse a
/// ticket the session does not own, and otherwise remove the ticket at the next revision.
#[verifier::opaque]
pub open spec fn cancelled(v: QueueView, session: LobbySession, cancel: QueueCancelCommand) -> (QueueView, QueueDecision, bool) {
    let replay = match memory_of(v, session.lobby_session_id) {
        Some(m) => match m.last_cancelled {
            Some((ticket_id, outcome)) if ticket_id == cancel.ticket_id => Some(outcome.decision),
            _ => None,
        },
        None => None,
    };
    if let Some(decision) = replay {
        (v, decision, false)
    } else {
        match ticket_of_session(v, session.lobby_session_id) {
            Some(t) if t.ticket_id == cancel.ticket_id => if v.state_revision == u64::MAX {
                join_rejected(v, Counter::UnavailableRejections, QueueRejection::TemporarilyUnavailable)
            } else {
                let revision = (v.state_revision + 1) as u64;
                (
                    bump(
                        refresh(QueueView { state_revision: revision, ..without_ticket(v, t.ticket_id) }),
                        Counter::Cancellations,
                    ),
                    QueueDecision::Cancelled { ticket_id: t.ticket_id, resulting_pool_state_revision: revision },
                    true,
                )
            },
            _ => join_rejected(v, Counter::MembershipRejections, QueueRejection::TicketMismatch),
        }
    }
}

/// The handling of a repeated request identity: `None` when the request is new. A repeat of
/// the pending request is suppressed once its retry deadline has passed, counted as early
/// before it, and disconnects at the early-retry limit. A repeat of the last remembered request
/// makes its outcome pending again. A repeat with a different command is protocol abuse.
#[verifier::opaque]
pub open spec fn duplicate_handled(
    v: QueueView,
    session_id: LobbySessionId,
    request_id: QueueRequestId,
    command: QueueCommand,
    now_millis: u64,
) -> Option<(QueueView, QueueCommandResult)> {
    let i = memory_index(v.memories, session_id);
    if i < 0 {
        None
    } else {
        let m = v.memories[i].memory;
        match m.pending_outcome {
            Some(pending) => if request_id != pending.request_id {
                None
            } else if !same_command(command, pending.command) {
                Some(disconnected(v))
            } else {
                let deadline = match m.identical_retry_not_before {
                    Some(deadline) => deadline,
                    None => sat_add(now_millis, IDENTICAL_RETRY_MILLIS),
                };
                if now_millis >= deadline {
                    let m2 = QueueCommandMemory {
                        identical_retry_not_before: Some(sat_add(now_millis, IDENTICAL_RETRY_MILLIS)),
                        early_identical_retry_count: 0,
                        ..m
                    };
                    Some(
                        (
                            bump(with_memory(v, i, m2), Counter::SuppressedRetries),
                            result_of(QueueCommandDisposition::SuppressedIdenticalRetry),
                        ),
                    )
                } else {
                    let count = if m.early_identical_retry_count == u8::MAX {
                        u8::MAX
                    } else {
                        (m.early_identical_retry_count + 1) as u8
                    };
                    let v2 = bump(
                        with_memory(v, i, QueueCommandMemory { early_identical_retry_count: count, ..m }),
                        Counter::EarlyRetries,
                    );
                    if count >= EARLY_IDENTICAL_RETRY_LIMIT {
                        Some(disconnected(v2))
                    } else {
                        Some((v2, result_of(QueueCommandDisposition::EarlyIdenticalRetry)))
                    }
                }
            },
            None => match m.last {
                None => None,
                Some(last) => if request_id != last.request_id {
                    None
                } else if !same_command(command, last.command) {
                    Some(disconnected(v))
                } else {
                    let m2 = QueueCommandMemory {
                        pending_outcome: Some(last),
                        identical_retry_not_before: Some(sat_add(now_millis, IDENTICAL_RETRY_MILLIS)),
                        ..m
                    };
                    Some((observe(with_memory(v, i, m2)), result_of(QueueCommandDisposition::OutcomeReady)))
                },
            },
        }
    }
}

/// The delay before a rate-limited session may command again.
pub open spec fn rate_limit_delay(m: QueueCommandMemory, now_millis: u64) -> u64 {
    let remainder = if now_millis >= m.command_token_refill_at {
        now_millis - m.command_token_refill_at
    } else {
        0
    };
    (COMMAND_REFILL_MILLIS - if remainder > 999 {
        999
    } else {
        remainder
    }) as u64
}

/// The whole command transition of one queue request.
#[verifier::opaque]
pub open spec fn commanded(
    v: QueueView,
    session: LobbySession,
    request_id: QueueRequestId,
    command: QueueCommand,
    now_millis: u64,
    admitted_build: Option<AdmittedBuild>,
    seed: Option<QueueTicketId>,
) -> (QueueView, QueueCommandResult) {
    let session_id = session.lobby_session_id;
    let v1 = with_session_memory(v, session_id, now_millis);
    match duplicate_handled(v1, session_id, request_id, command, now_millis) {
        Some(handled) => handled,
        None => {
            let i = memory_index(v1.memories, session_id);
            let m = refilled(v1.memories[i].memory, now_millis);
            let v2 = with_memory(v1, i, m);
            if m.pending_outcome is Some || m.rate_limit_notice_until is Some {
                disconnected(v2)
            } else if m.command_tokens == 0 {
                let delay = rate_limit_delay(m, now_millis);
                let v3 = bump(
                    with_memory(
                        v2,
                        i,
                        QueueCommandMemory { rate_limit_notice_until: Some(sat_add(now_millis, delay)), ..m },
                    ),
                    Counter::RateLimitNotices,
                );
                stored(
                    v3,
                    session_id,
                    request_id,
                    command,
                    QueueDecision::Rejected(QueueRejection::RateLimited { retry_after_millis: delay as u16 }),
                    now_millis,
                    false,
                    true,
                )
            } else {
                let m3 = QueueCommandMemory { command_tokens: (m.command_tokens - 1) as u8, ..m };
                let v3 = with_memory(v2, i, m3);
                if m3.last matches Some(last) && request_id.0 < last.request_id.0 {
                    stored(
                        v3,
                        session_id,
                        request_id,
                        command,
                        QueueDecision::Rejected(QueueRejection::StaleRequest),
                        now_millis,
                        false,
                        false,
                    )
                } else {
                    let (v4, decision, changed) = match command {
                        QueueCommand::Join(join) => joined(v3, session, join, admitted_build, seed),
                        QueueCommand::Cancel(cancel) => cancelled(v3, session, cancel),
                    };
                    stored(v4, session_id, request_id, command, decision, now_millis, changed, true)
                }
            }
        },
    }
}

/// The acknowledge transition: acknowledging the pending outcome clears it, re-arms retries and
/// makes a joined ticket eligible for formation; re-acknowledging the last acknowledged outcome
/// does nothing; anything else is protocol abuse.
#[verifier::opaque]
pub open spec fn acknowledged(v: QueueView, session_id: LobbySessionId, request_id: QueueRequestId) -> (QueueView, QueueCommandResult) {
    let i = memory_index(v.memories, session_id);
    if i < 0 {
        disconnected(v)
    } else {
        let m = v.memories[i].memory;
        let acknowledges_pending = match m.pending_outcome {
            Some(pending) => pending.request_id == request_id,
            None => false,
        };
        if acknowledges_pending {
            let pending = m.pending_outcome.unwrap();
            let m2 = QueueCommandMemory {
                pending_outcome: None,
                last_acknowledged_outcome_request_id: Some(request_id),
                identical_retry_not_before: None,
                early_identical_retry_count: 0,
                ..m
            };
            let v2 = with_memory(v, i, m2);
            let v3 = match pending.outcome.decision {
                QueueDecision::Joined(membership) => {
                    let t = ticket_index(v2.tickets, membership.ticket_id);
                    if t >= 0 {
                        QueueView {
                            tickets: v2.tickets.update(t, QueueTicket { formation_eligible: true, ..v2.tickets[t] }),
                            ..v2
                        }
                    } else {
                        v2
                    }
                },
                _ => v2,
            };
            (observe(v3), result_of(QueueCommandDisposition::Idle))
        } else if m.last_acknowledged_outcome_request_id == Some(request_id) {
            (v, result_of(QueueCommandDisposition::Idle))
        } else {
            disconnected(v)
        }
    }
}

/// The session-removal transition: remove the session's ticket at the next revision (or mark
/// the revision exhausted when there is none), forget its memory, and observe counts.
#[verifier::opaque]
pub open spec fn session_removed(v: QueueView, session_id: LobbySessionId) -> (QueueView, bool) {
    let t = ticket_of_session(v, session_id);
    let v1 = match t {
        Some(t) => without_ticket(v, t.ticket_id),
        None => v,
    };
    let m = memory_index(v1.memories, session_id);
    let v2 = if m >= 0 {
        QueueView { memories: v1.memories.remove(m), ..v1 }
    } else {
        v1
    };
    match t {
        Some(_) => {
            let v3 = bump(refresh(v2), Counter::DisconnectRemovals);
            let v4 = if v.state_revision == u64::MAX {
                QueueView { revision_exhausted: true, ..v3 }
            } else {
                QueueView { state_revision: (v.state_revision + 1) as u64, ..v3 }
            };
            (observe(v4), true)
        },
        None => (observe(v2), false),
    }
}

/// The tickets of the reservation's participants, in participant order, that are still held.
pub open spec fn participant_tickets(v: QueueView, participants: Seq<ReservedParticipant>) -> Seq<QueueTicket>
    decreases participants.len(),
{
    if participants.len() == 0 {
        Seq::empty()
    } else {
        let rest = participant_tickets(v, participants.drop_last());
        match ticket_with_id(v, participants.last().ticket_id) {
            Some(t) => rest.push(t),
            None => rest,
        }
    }
}

/// The state after removing each of `tickets` in order.
pub open spec fn without_tickets(v: QueueView, tickets: Seq<QueueTicket>) -> QueueView
    decreases tickets.len(),
{
    if tickets.len() == 0 {
        v
    } else {
        without_ticket(without_tickets(v, tickets.drop_last()), tickets.last().ticket_id)
    }
}

/// The reservation-completion transition: remove the reservation's still-held tickets, in
/// participant order, and refresh the pool rows.
#[verifier::opaque]
pub open spec fn reservation_completed(v: QueueView, reservation_id: MatchReservationId) -> (QueueView, Seq<QueueTicket>) {
    match v.reservation {
        Some(r) if r.reservation_id == reservation_id => {
            let tickets = participant_tickets(v, r.participants);
            (observe(refresh(without_tickets(v, tickets))), tickets)
        },
        _ => (v, Seq::empty()),
    }
}

/// The handoff-ready transition: the first mark of the reservation advances its game's map
/// ordinal.
#[verifier::opaque]
pub open spec fn handoff_marked(v: QueueView, reservation_id: MatchReservationId) -> (QueueView, bool) {
    match v.reservation {
        Some(r) if r.reservation_id == reservation_id && !r.handoff_ready => {
            let g = row_index(v.pool_rows, r.game_type_id);
            let ordinals = if 0 <= g < v.map_ordinals.len() {
                v.map_ordinals.update(
                    g,
                    if v.map_ordinals[g] == u64::MAX {
                        u64::MAX
                    } else {
                        (v.map_ordinals[g] + 1) as u64
                    },
                )
            } else {
                v.map_ordinals
            };
            (
                QueueView {
                    reservation: Some(ReservationView { handoff_ready: true, ..r }),
                    map_ordinals: ordinals,
                    ..v
                },
                true,
            )
        },
        _ => (v, false),
    }
}

} // verus!

verus! {

/// The queue state of a freshly resolved catalog: one empty pool per advertised game type,
/// admission order and state revision at one, and no namespace drawn yet.
pub open spec fn initial_view(catalog: crate::catalog::ResolvedLobbyCatalog) -> QueueView {
    let games = catalog.game_types@;
    QueueView {
        catalog_revision: catalog.revision,
        pool_rows: Seq::new(
            games.len(),
            |i: int|
                QueuePoolRow {
                    game_type_id: games[i].id,
                    game_type_configuration_revision: games[i].configuration_revision,
                    queued: 0,
                    formation_size: (games[i].team_count * games[i].players_per_team) as u8,
                },
        ),
        pools: Seq::new(games.len(), |i: int| Seq::<QueueTicketId>::empty()),
        tickets: Seq::empty(),
        client_tickets: Seq::empty(),
        reservation: None,
        map_ordinals: Seq::new(games.len(), |i: int| 0u64),
        memories: Seq::empty(),
        next_admission_order: 1,
        state_revision: 1,
        revision_exhausted: false,
        ticket_namespace: None,
        telemetry: crate::queue::telemetry::zero_telemetry(),
    }
}

/// Whether an optional index matches an index spec (`-1` for none).
pub open spec fn found_at(found: Option<usize>, index: int, len: int) -> bool {
    match found {
        Some(i) => i == index && 0 <= index < len,
        None => index == -1,
    }
}

} // verus!

verus! {

/// The value behind an optional reference.
pub open spec fn as_value<T>(o: Option<&T>) -> Option<T> {
    match o {
        Some(t) => Some(*t),
        None => None,
    }
}

} // verus!

verus! {

/// Whether ticket `id` is held, acknowledged (eligible for formation) and owned by a live session.
pub open spec fn formation_ready(v: QueueView, id: QueueTicketId, live: Seq<LobbySessionId>) -> bool {
    match ticket_with_id(v, id) {
        Some(t) => t.formation_eligible && live.contains(t.lobby_session_id),
        None => false,
    }
}

/// The formation-ready tickets of a pool, in queue order.
pub open spec fn ready_ids(v: QueueView, pool: Seq<QueueTicketId>, live: Seq<LobbySessionId>) -> Seq<QueueTicketId>
    decreases pool.len(),
{
    if pool.len() == 0 {
        Seq::empty()
    } else {
        let rest = ready_ids(v, pool.drop_last(), live);
        if formation_ready(v, pool.last(), live) {
            rest.push(pool.last())
        } else {
            rest
        }
    }
}

/// The ids of a pool that are not in `removed`, in queue order.
pub open spec fn kept_ids(pool: Seq<QueueTicketId>, removed: Seq<QueueTicketId>) -> Seq<QueueTicketId>
    decreases pool.len(),
{
    if pool.len() == 0 {
        Seq::empty()
    } else {
        let rest = kept_ids(pool.drop_last(), removed);
        if removed.contains(pool.last()) {
            rest
        } else {
            rest.push(pool.last())
        }
    }
}

/// A complete roster found in one pool, keyed by its oldest ticket's admission order and
/// identity and by the catalog index of its game type.
pub struct RosterCandidate {
    pub order: u64,
    pub ticket: u128,
    pub index: int,
    pub selected: Seq<QueueTicketId>,
}

/// Whether roster key `(order, ticket, index)` comes strictly before candidate `c`.
pub open spec fn key_before(order: u64, ticket: u128, index: int, c: RosterCandidate) -> bool {
    order < c.order || (order == c.order && (ticket < c.ticket || (ticket == c.ticket && index < c.index)))
}

/// The state of the roster scan over the catalog's game types.
pub enum RosterScan {
    /// The scan met a game type it cannot evaluate; no reservation is made.
    Aborted,
    /// The best complete roster of the game types scanned so far, if any.
    Best(Option<RosterCandidate>),
}

/// The roster scan over the first `k` game types of the catalog. For each game type, the first
/// formation-size ready tickets of its pool form a complete roster when there are enough; the
/// oldest complete roster wins, and catalog order breaks a tie.
pub open spec fn roster_scan(
    v: QueueView,
    games: Seq<crate::catalog::AdvertisedGameType>,
    live: Seq<LobbySessionId>,
    k: int,
) -> RosterScan
    decreases k,
{
    if k <= 0 {
        RosterScan::Best(None)
    } else {
        match roster_scan(v, games, live, k - 1) {
            RosterScan::Aborted => RosterScan::Aborted,
            RosterScan::Best(best) => {
                let game = games[k - 1];
                let formation = game.team_count * game.players_per_team;
                let g = row_index(v.pool_rows, game.id);
                if g < 0 || g >= v.pools.len() {
                    RosterScan::Aborted
                } else {
                    let ready = ready_ids(v, v.pools[g], live);
                    if ready.len() < formation {
                        RosterScan::Best(best)
                    } else if formation == 0 {
                        RosterScan::Aborted
                    } else {
                        let selected = ready.take(formation);
                        match ticket_with_id(v, selected[0]) {
                            None => RosterScan::Aborted,
                            Some(first) => match best {
                                Some(c) if !key_before(first.admission_order, first.ticket_id.0, k - 1, c) => RosterScan::Best(best),
                                _ => RosterScan::Best(
                                    Some(
                                        RosterCandidate {
                                            order: first.admission_order,
                                            ticket: first.ticket_id.0,
                                            index: k - 1,
                                            selected: selected,
                                        },
                                    ),
                                ),
                            },
                        }
                    }
                }
            },
        }
    }
}

/// The participants of a roster: the i-th selected ticket plays on team `i % team_count`.
pub open spec fn roster_participants(selected: Seq<QueueTicketId>, team_count: u8) -> Seq<ReservedParticipant> {
    Seq::new(
        selected.len(),
        |i: int| ReservedParticipant { ticket_id: selected[i], team: (i % (team_count as int)) as u8 },
    )
}

/// The reservation transition: with no reservation outstanding and a revision left, reserve the
/// oldest complete roster across the catalog's pools, remove it from its pool, rotate maps by
/// the game's map ordinal, and advance the revision.
#[verifier::opaque]
pub open spec fn roster_reserved(
    v: QueueView,
    catalog: crate::catalog::ResolvedLobbyCatalog,
    reservation_id: MatchReservationId,
    live: Seq<LobbySessionId>,
) -> (QueueView, Option<ReservationView>) {
    let games = catalog.game_types@;
    if v.reservation is Some {
        (v, None)
    } else {
        match roster_scan(v, games, live, games.len() as int) {
            RosterScan::Best(Some(c)) => if v.state_revision == u64::MAX {
                (v, None)
            } else {
                let game = games[c.index];
                let g = row_index(v.pool_rows, game.id);
                let ordinal = if 0 <= g < v.map_ordinals.len() {
                    v.map_ordinals[g]
                } else {
                    0
                };
                let ordinal_index: int = if ordinal <= usize::MAX {
                    ordinal as int
                } else {
                    0
                };
                let maps = game.map_preset_ids@;
                let reservation = ReservationView {
                    reservation_id: reservation_id,
                    game_type_id: game.id,
                    map_preset_id: maps[ordinal_index % (maps.len() as int)],
                    team_count: game.team_count,
                    players_per_team: game.players_per_team,
                    participants: roster_participants(c.selected, game.team_count),
                    handoff_ready: false,
                };
                let pools = v.pools.update(g, kept_ids(v.pools[g], c.selected));
                (
                    refresh(
                        QueueView {
                            pools: pools,
                            reservation: Some(reservation),
                            state_revision: (v.state_revision + 1) as u64,
                            ..v
                        },
                    ),
                    Some(reservation),
                )
            },
            _ => (v, None),
        }
    }
}

} // verus!

verus! {

/// The exec-side roster candidate as a spec candidate.
pub open spec fn candidate_of(best: Option<(u64, u128, usize, Seq<QueueTicketId>)>) -> Option<RosterCandidate> {
    match best {
        Some((order, ticket, index, selected)) => Some(
            RosterCandidate { order: order, ticket: ticket, index: index as int, selected: selected },
        ),
        None => None,
    }
}

/// An aborted roster scan stays aborted.
pub proof fn lemma_roster_scan_aborted(
    v: QueueView,
    games: Seq<crate::catalog::AdvertisedGameType>,
    live: Seq<LobbySessionId>,
    k: int,
    n: int,
)
    requires
        k <= n,
        roster_scan(v, games, live, k) is Aborted,
    ensures
        roster_scan(v, games, live, n) is Aborted,
    decreases n - k,
{
    if k < n {
        lemma_roster_scan_aborted(v, games, live, k, n - 1);
    }
}

} // verus!

verus! {

/// Whether ticket `id` waits in some pool.
pub open spec fn pooled(v: QueueView, id: QueueTicketId) -> bool {
    exists|g: int, p: int| 0 <= g < v.pools.len() && 0 <= p < v.pools[g].len() && v.pools[g][p] == id
}

/// Whether ticket `id` belongs to the reservation.
pub open spec fn reserved(v: QueueView, id: QueueTicketId) -> bool {
    match v.reservation {
        Some(r) => exists|i: int| 0 <= i < r.participants.len() && r.participants[i].ticket_id == id,
        None => false,
    }
}

/// Whether the queue's indexes agree: at most one ticket per session bound, distinct ticket
/// identities and sessions, a client index entry naming every ticket's client, and the pools
/// and the reservation partitioning exactly the held tickets.
pub open spec fn indexes_valid(v: QueueView) -> bool {
    &&& v.tickets.len() <= MAX_QUEUE_TICKETS
    &&& forall|i: int, j: int|
        0 <= i < j < v.tickets.len() ==> (#[trigger] v.tickets[i]).ticket_id != (#[trigger] v.tickets[j]).ticket_id
            && v.tickets[i].lobby_session_id != v.tickets[j].lobby_session_id
    &&& v.client_tickets.len() == v.tickets.len()
    &&& forall|i: int|
        0 <= i < v.tickets.len() ==> {
            let c = client_index(v.client_tickets, (#[trigger] v.tickets[i]).netcode_client_id);
            c >= 0 && v.client_tickets[c].ticket == v.tickets[i].ticket_id
        }
    &&& forall|i: int| 0 <= i < v.tickets.len() ==> pooled(v, (#[trigger] v.tickets[i]).ticket_id) || reserved(v, v.tickets[i].ticket_id)
    &&& forall|id: QueueTicketId| #[trigger] pooled(v, id) ==> !reserved(v, id) && ticket_index(v.tickets, id) >= 0
    &&& forall|id: QueueTicketId| #[trigger] reserved(v, id) ==> ticket_index(v.tickets, id) >= 0
}

} // verus!

verus! {

impl Default for QueueCommandResult {
    fn default() -> (result: Self)
        ensures
            result == result_of(QueueCommandDisposition::Idle),
    {
        QueueCommandResult { disposition: QueueCommandDisposition::Idle, snapshot_changed: false }
    }
}

impl QueueCommandResult {
    /// Whether an outcome awaits delivery to the client.
    pub fn outcome_ready(self) -> (ready: bool)
        ensures
            ready == (self.disposition == QueueCommandDisposition::OutcomeReady),
    {
        self.disposition == QueueCommandDisposition::OutcomeReady
    }

    /// Whether the client must be disconnected for protocol abuse.
    pub fn disconnect(self) -> (disconnect: bool)
        ensures
            disconnect == (self.disposition == QueueCommandDisposition::Disconnect),
    {
        self.disposition == QueueCommandDisposition::Disconnect
    }

    /// Whether the aggregate snapshot changed.
    pub fn snapshot_changed(self) -> (changed: bool)
        ensures
            changed == self.snapshot_changed,
    {
        self.snapshot_changed
    }

    /// Whether an identical retry was answered by suppression.
    pub fn suppressed_identical_retry(self) -> (suppressed: bool)
        ensures
            suppressed == (self.disposition == QueueCommandDisposition::SuppressedIdenticalRetry),
    {
        self.disposition == QueueCommandDisposition::SuppressedIdenticalRetry
    }

    /// Whether an identical retry came before its retry deadline.
    pub fn early_identical_retry(self) -> (early: bool)
        ensures
            early == (self.disposition == QueueCommandDisposition::EarlyIdenticalRetry),
    {
        self.disposition == QueueCommandDisposition::EarlyIdenticalRetry
    }
}

} // verus!
