//! The executable queue authority.

use vstd::prelude::*;
use crate::catalog::ResolvedLobbyCatalog;
use crate::ids::{
    CatalogRevision, LobbySessionId, MatchReservationId, NetcodeClientId, QueueRequestId,
    QueueTicketId,
};
use crate::wire::{
    AdmittedBuild, BuildResolution, FormationAvailability, GameTypeId, QueueCancelCommand,
    QueueCommand, QueueCommandOutcome, QueueDecision, QueueJoinCommand, QueuePoolRow,
    QueuePoolSnapshot, QueueRejection, same_game, summarize_build,
};
use crate::session::LobbySession;
use crate::queue::telemetry::{QueueTelemetry};
use crate::queue::memory::{
    COMMAND_REFILL_MILLIS, EARLY_IDENTICAL_RETRY_LIMIT, IDENTICAL_RETRY_MILLIS, LastCommand,
    QueueCommandMemory, refilled, sat_add,
};
use crate::queue::model::{
    ClientTicket, Counter, MAX_QUEUE_TICKETS, QueueCommandDisposition, QueueCommandResult,
    QueueReservation, QueueTicket, QueueView, ReservedParticipant, SessionMemory,
    SnapshotPublication, acknowledged, admitted, as_value, bump, cancelled, client_index, commanded,
    disconnected, duplicate_handled, found_at, fresh_ticket, handoff_marked, initial_view,
    join_target_rejection, joined, lemma_first_index_at, lemma_first_index_facts,
    lemma_first_index_none, membership_of, memory_index, memory_of, namespace_of_seed, observe,
    participant_position, participant_tickets, pending_count, pool_position, rate_limit_delay,
    refresh, refreshed_rows, reservation_completed, row_index, session_removed,
    session_ticket_index, stored, ticket_id_in, ticket_index, ticket_of_client, ticket_of_session, ticket_with_id, with_memory, with_session_memory,
    without_ticket, without_tickets, RosterScan, candidate_of, formation_ready, kept_ids,
    lemma_roster_scan_aborted, ready_ids, roster_participants, roster_reserved, roster_scan,
    indexes_valid, pooled, reserved,
};

verus! {

/// Source of unpredictable nonzero ticket identities.
pub trait QueueTicketIdSource: Send + Sync {
    fn next(&mut self) -> Option<QueueTicketId>;
}

/// Bounded queue authority. The public aggregate revision starts at one and changes only with
/// counts.
pub struct QueueState<S> {
    catalog_revision: CatalogRevision,
    pool_rows: Vec<QueuePoolRow>,
    pools: Vec<Vec<QueueTicketId>>,
    tickets: Vec<QueueTicket>,
    client_tickets: Vec<ClientTicket>,
    reservation: Option<QueueReservation>,
    map_ordinals: Vec<u64>,
    memories: Vec<SessionMemory>,
    next_admission_order: u64,
    state_revision: u64,
    revision_exhausted: bool,
    ticket_namespace: Option<u64>,
    ticket_ids: S,
    telemetry: QueueTelemetry,
}

impl<S> View for QueueState<S> {
    type V = QueueView;

    closed spec fn view(&self) -> QueueView {
        QueueView {
            catalog_revision: self.catalog_revision,
            pool_rows: self.pool_rows@,
            pools: self.pools@.map_values(|p: Vec<QueueTicketId>| p@),
            tickets: self.tickets@,
            client_tickets: self.client_tickets@,
            reservation: match self.reservation {
                Some(r) => Some(r.model()),
                None => None,
            },
            map_ordinals: self.map_ordinals@,
            memories: self.memories@,
            next_admission_order: self.next_admission_order,
            state_revision: self.state_revision,
            revision_exhausted: self.revision_exhausted,
            ticket_namespace: self.ticket_namespace,
            telemetry: self.telemetry,
        }
    }
}

impl<S: QueueTicketIdSource> QueueState<S> {
    /// An empty queue over the catalog's game types, drawing ticket identities from `ticket_ids`.
    pub fn with_id_source(catalog: &ResolvedLobbyCatalog, ticket_ids: S) -> (queue: Self)
        requires
            catalog.well_formed(),
        ensures
            queue@ == initial_view(*catalog),
    {
        let mut pool_rows: Vec<QueuePoolRow> = Vec::new();
        let mut pools: Vec<Vec<QueueTicketId>> = Vec::new();
        let mut map_ordinals: Vec<u64> = Vec::new();
        let ghost games = catalog.game_types@;
        let mut i: usize = 0;
        while i < catalog.game_types.len()
            invariant
                games == catalog.game_types@,
                catalog.well_formed(),
                i <= games.len(),
                pool_rows@.len() == i,
                pools@.len() == i,
                map_ordinals@.len() == i,
                forall|j: int| 0 <= j < i ==> #[trigger] pool_rows@[j] == (QueuePoolRow {
                    game_type_id: games[j].id,
                    game_type_configuration_revision: games[j].configuration_revision,
                    queued: 0,
                    formation_size: (games[j].team_count * games[j].players_per_team) as u8,
                }),
                forall|j: int| 0 <= j < i ==> (#[trigger] pools@[j])@ == Seq::<QueueTicketId>::empty(),
                forall|j: int| 0 <= j < i ==> #[trigger] map_ordinals@[j] == 0,
            decreases games.len() - i,
        {
            let game = &catalog.game_types[i];
            assert(games[i as int].team_count * games[i as int].players_per_team <= u8::MAX);
            assert(game.team_count as int * game.players_per_team as int <= 255);
            let formation_size: u8 = (game.team_count as u16 * game.players_per_team as u16) as u8;
            pool_rows.push(
                QueuePoolRow {
                    game_type_id: game.id.duplicate(),
                    game_type_configuration_revision: game.configuration_revision,
                    queued: 0,
                    formation_size: formation_size,
                },
            );
            pools.push(Vec::new());
            map_ordinals.push(0);
            i = i + 1;
        }
        let queue = QueueState {
            catalog_revision: catalog.revision,
            pool_rows: pool_rows,
            pools: pools,
            tickets: Vec::new(),
            client_tickets: Vec::new(),
            reservation: None,
            map_ordinals: map_ordinals,
            memories: Vec::new(),
            next_admission_order: 1,
            state_revision: 1,
            revision_exhausted: false,
            ticket_namespace: None,
            ticket_ids: ticket_ids,
            telemetry: QueueTelemetry::default(),
        };
        assert(queue@.pool_rows =~= initial_view(*catalog).pool_rows);
        assert(queue@.pools =~= initial_view(*catalog).pools);
        assert(queue@.map_ordinals =~= initial_view(*catalog).map_ordinals);
        queue
    }

    // -----------------------------------------------------------------------------------------
    // Lookups
    // -----------------------------------------------------------------------------------------

    fn find_ticket(&self, id: QueueTicketId) -> (found: Option<usize>)
        ensures
            found_at(found, ticket_index(self@.tickets, id), self@.tickets.len() as int),
    {
        let mut i: usize = 0;
        while i < self.tickets.len()
            invariant
                i <= self.tickets@.len(),
                forall|j: int| 0 <= j < i ==> (#[trigger] self.tickets@[j]).ticket_id != id,
            decreases self.tickets@.len() - i,
        {
            if self.tickets[i].ticket_id == id {
                proof {
                    lemma_first_index_at(self.tickets@, |t: QueueTicket| t.ticket_id == id, i as int);
                }
                return Some(i);
            }
            i = i + 1;
        }
        proof {
            lemma_first_index_none(self.tickets@, |t: QueueTicket| t.ticket_id == id);
        }
        None
    }

    fn find_session_ticket(&self, session_id: LobbySessionId) -> (found: Option<usize>)
        ensures
            found_at(found, session_ticket_index(self@.tickets, session_id), self@.tickets.len() as int),
    {
        let mut i: usize = 0;
        while i < self.tickets.len()
            invariant
                i <= self.tickets@.len(),
                forall|j: int| 0 <= j < i ==> (#[trigger] self.tickets@[j]).lobby_session_id != session_id,
            decreases self.tickets@.len() - i,
        {
            if self.tickets[i].lobby_session_id == session_id {
                proof {
                    lemma_first_index_at(
                        self.tickets@,
                        |t: QueueTicket| t.lobby_session_id == session_id,
                        i as int,
                    );
                }
                return Some(i);
            }
            i = i + 1;
        }
        proof {
            lemma_first_index_none(self.tickets@, |t: QueueTicket| t.lobby_session_id == session_id);
        }
        None
    }

    fn find_memory(&self, session_id: LobbySessionId) -> (found: Option<usize>)
        ensures
            found_at(found, memory_index(self@.memories, session_id), self@.memories.len() as int),
    {
        let mut i: usize = 0;
        while i < self.memories.len()
            invariant
                i <= self.memories@.len(),
                forall|j: int| 0 <= j < i ==> (#[trigger] self.memories@[j]).session_id != session_id,
            decreases self.memories@.len() - i,
        {
            if self.memories[i].session_id == session_id {
                proof {
                    lemma_first_index_at(
                        self.memories@,
                        |m: SessionMemory| m.session_id == session_id,
                        i as int,
                    );
                }
                return Some(i);
            }
            i = i + 1;
        }
        proof {
            lemma_first_index_none(self.memories@, |m: SessionMemory| m.session_id == session_id);
        }
        None
    }

    fn find_client(&self, client: NetcodeClientId) -> (found: Option<usize>)
        ensures
            found_at(found, client_index(self@.client_tickets, client), self@.client_tickets.len() as int),
    {
        let mut i: usize = 0;
        while i < self.client_tickets.len()
            invariant
                i <= self.client_tickets@.len(),
                forall|j: int| 0 <= j < i ==> (#[trigger] self.client_tickets@[j]).client != client,
            decreases self.client_tickets@.len() - i,
        {
            if self.client_tickets[i].client == client {
                proof {
                    lemma_first_index_at(self.client_tickets@, |c: ClientTicket| c.client == client, i as int);
                }
                return Some(i);
            }
            i = i + 1;
        }
        proof {
            lemma_first_index_none(self.client_tickets@, |c: ClientTicket| c.client == client);
        }
        None
    }

    fn find_row(&self, id: &GameTypeId) -> (found: Option<usize>)
        ensures
            found_at(found, row_index(self@.pool_rows, *id), self@.pool_rows.len() as int),
    {
        let mut i: usize = 0;
        while i < self.pool_rows.len()
            invariant
                i <= self.pool_rows@.len(),
                forall|j: int| 0 <= j < i ==> !same_game((#[trigger] self.pool_rows@[j]).game_type_id, *id),
            decreases self.pool_rows@.len() - i,
        {
            if self.pool_rows[i].game_type_id.same_as(id) {
                proof {
                    lemma_first_index_at(
                        self.pool_rows@,
                        |r: QueuePoolRow| same_game(r.game_type_id, *id),
                        i as int,
                    );
                }
                return Some(i);
            }
            i = i + 1;
        }
        proof {
            lemma_first_index_none(self.pool_rows@, |r: QueuePoolRow| same_game(r.game_type_id, *id));
        }
        None
    }

    // -----------------------------------------------------------------------------------------
    // Read-only accessors
    // -----------------------------------------------------------------------------------------

    /// The public aggregate revision.
    pub fn state_revision(&self) -> (revision: u64)
        ensures
            revision == self@.state_revision,
    {
        self.state_revision
    }

    /// The admission order the next ticket receives.
    pub fn next_admission_order(&self) -> (order: u64)
        ensures
            order == self@.next_admission_order,
    {
        self.next_admission_order
    }

    /// Moves the public revision and the next admission order forward, as a queue resumed
    /// after a long run finds them. Counters never move back: a value below the current one
    /// leaves that counter as it is.
    pub fn advance_counters(&mut self, state_revision: u64, next_admission_order: u64)
        ensures
            final(self)@ == (QueueView {
                state_revision: if state_revision > old(self)@.state_revision {
                    state_revision
                } else {
                    old(self)@.state_revision
                },
                next_admission_order: if next_admission_order > old(self)@.next_admission_order {
                    next_admission_order
                } else {
                    old(self)@.next_admission_order
                },
                ..old(self)@
            }),
    {
        if state_revision > self.state_revision {
            self.state_revision = state_revision;
        }
        if next_admission_order > self.next_admission_order {
            self.next_admission_order = next_admission_order;
        }
    }

    /// Whether a removal happened after the aggregate revision ran out.
    pub fn revision_exhausted(&self) -> (exhausted: bool)
        ensures
            exhausted == self@.revision_exhausted,
    {
        self.revision_exhausted
    }

    /// The number of held tickets.
    pub fn ticket_count(&self) -> (count: usize)
        ensures
            count == self@.tickets.len(),
    {
        self.tickets.len()
    }

    /// The number of sessions with an outcome awaiting acknowledgement.
    pub fn pending_outcome_count(&self) -> (count: usize)
        ensures
            count == pending_count(self@.memories),
    {
        let mut count: usize = 0;
        let mut i: usize = 0;
        while i < self.memories.len()
            invariant
                i <= self.memories@.len(),
                count == pending_count(self.memories@.subrange(0, i as int)),
                count <= i,
            decreases self.memories@.len() - i,
        {
            proof {
                let s = self.memories@.subrange(0, i as int + 1);
                assert(s.drop_last() =~= self.memories@.subrange(0, i as int));
            }
            if self.memories[i].memory.pending_outcome.is_some() {
                count = count + 1;
            }
            i = i + 1;
        }
        assert(self.memories@.subrange(0, i as int) =~= self.memories@);
        count
    }

    /// The aggregate telemetry.
    pub fn telemetry(&self) -> (telemetry: &QueueTelemetry)
        ensures
            *telemetry == self@.telemetry,
    {
        &self.telemetry
    }

    /// The ticket with identity `id`.
    pub fn ticket(&self, id: QueueTicketId) -> (ticket: Option<&QueueTicket>)
        ensures
            as_value(ticket) == ticket_with_id(self@, id),
    {
        match self.find_ticket(id) {
            Some(i) => Some(&self.tickets[i]),
            None => None,
        }
    }

    /// The ticket of lobby session `id`.
    pub fn ticket_for_session(&self, id: LobbySessionId) -> (ticket: Option<&QueueTicket>)
        ensures
            as_value(ticket) == ticket_of_session(self@, id),
    {
        match self.find_session_ticket(id) {
            Some(i) => Some(&self.tickets[i]),
            None => None,
        }
    }

    /// The ticket of Netcode client `id`.
    pub fn ticket_for_client(&self, id: NetcodeClientId) -> (ticket: Option<&QueueTicket>)
        ensures
            as_value(ticket) == ticket_of_client(self@, id),
    {
        match self.find_client(id) {
            Some(c) => self.ticket(self.client_tickets[c].ticket),
            None => None,
        }
    }

    /// The tickets waiting in the pool of game type `id`, oldest first.
    pub fn pool(&self, id: &GameTypeId) -> (pool: Option<&Vec<QueueTicketId>>)
        ensures
            match pool {
                Some(p) => {
                    let g = row_index(self@.pool_rows, *id);
                    0 <= g < self@.pools.len() && p@ == self@.pools[g]
                },
                None => !(0 <= row_index(self@.pool_rows, *id) < self@.pools.len()),
            },
    {
        match self.find_row(id) {
            Some(g) => if g < self.pools.len() {
                Some(&self.pools[g])
            } else {
                None
            },
            None => None,
        }
    }

    /// The reservation with identity `id`.
    pub fn reservation(&self, id: MatchReservationId) -> (reservation: Option<&QueueReservation>)
        ensures
            match reservation {
                Some(r) => self@.reservation == Some(r.model()) && r.reservation_id == id,
                None => !(self@.reservation matches Some(r) && r.reservation_id == id),
            },
    {
        match &self.reservation {
            Some(r) => if r.reservation_id == id {
                Some(r)
            } else {
                None
            },
            None => None,
        }
    }

    /// The number of reservations (zero or one).
    pub fn reservation_count(&self) -> (count: usize)
        ensures
            count == (if self@.reservation is Some {
                1usize
            } else {
                0usize
            }),
    {
        if self.reservation.is_some() {
            1
        } else {
            0
        }
    }

    /// The reservation that holds ticket `ticket_id`.
    pub fn reservation_for_ticket(&self, ticket_id: QueueTicketId) -> (reservation: Option<&QueueReservation>)
        ensures
            match reservation {
                Some(r) => self@.reservation == Some(r.model()) && participant_position(
                    r.participants@,
                    ticket_id,
                ) >= 0,
                None => !(self@.reservation matches Some(r) && participant_position(r.participants, ticket_id) >= 0),
            },
    {
        match &self.reservation {
            Some(r) => if find_participant(&r.participants, ticket_id).is_some() {
                Some(r)
            } else {
                None
            },
            None => None,
        }
    }

    /// The outcome that lobby session `id` has not acknowledged yet.
    pub fn pending_outcome(&self, id: LobbySessionId) -> (outcome: Option<&QueueCommandOutcome>)
        ensures
            as_value(outcome) == (match memory_of(self@, id) {
                Some(m) => match m.pending_outcome {
                    Some(pending) => Some(pending.outcome),
                    None => None,
                },
                None => None,
            }),
    {
        match self.find_memory(id) {
            Some(i) => match &self.memories[i].memory.pending_outcome {
                Some(pending) => Some(&pending.outcome),
                None => None,
            },
            None => None,
        }
    }

    /// The privacy-safe aggregate snapshot.
    pub fn snapshot(&self) -> (snapshot: QueuePoolSnapshot)
        ensures
            snapshot.catalog_revision == self@.catalog_revision,
            snapshot.state_revision == self@.state_revision,
            snapshot.formation_availability == FormationAvailability::Available,
            snapshot.pools@ == self@.pool_rows,
    {
        let mut pools: Vec<QueuePoolRow> = Vec::new();
        let mut i: usize = 0;
        while i < self.pool_rows.len()
            invariant
                i <= self.pool_rows@.len(),
                pools@ == self.pool_rows@.subrange(0, i as int),
            decreases self.pool_rows@.len() - i,
        {
            pools.push(self.pool_rows[i].duplicate());
            assert(pools@ =~= self.pool_rows@.subrange(0, i as int + 1));
            i = i + 1;
        }
        assert(self.pool_rows@.subrange(0, i as int) =~= self.pool_rows@);
        QueuePoolSnapshot {
            catalog_revision: self.catalog_revision,
            state_revision: self.state_revision,
            formation_availability: FormationAvailability::Available,
            pools: pools,
        }
    }

    /// Count one snapshot publication of `kind`.
    pub fn record_snapshot_publication(&mut self, kind: SnapshotPublication)
        ensures
            final(self)@ == bump(
                old(self)@,
                match kind {
                    SnapshotPublication::Initial => Counter::InitialSnapshots,
                    SnapshotPublication::Mutation => Counter::MutationSnapshots,
                    SnapshotPublication::Refresh => Counter::RefreshSnapshots,
                },
            ),
    {
        match kind {
            SnapshotPublication::Initial => {
                QueueTelemetry::increment(&mut self.telemetry.initial_snapshot_publications);
            },
            SnapshotPublication::Mutation => {
                QueueTelemetry::increment(&mut self.telemetry.mutation_snapshot_publications);
            },
            SnapshotPublication::Refresh => {
                QueueTelemetry::increment(&mut self.telemetry.refresh_snapshot_publications);
            },
        }
    }

    /// Count one protocol-abuse disconnect decided outside the queue.
    pub fn record_protocol_abuse(&mut self)
        ensures
            final(self)@ == bump(old(self)@, Counter::ProtocolAbuse),
    {
        QueueTelemetry::increment(&mut self.telemetry.protocol_abuse_disconnects);
    }

    /// Acknowledge the pending outcome of request `request_id`.
    pub fn acknowledge(&mut self, session_id: LobbySessionId, request_id: QueueRequestId) -> (result: QueueCommandResult)
        ensures
            (final(self)@, result) == acknowledged(old(self)@, session_id, request_id),
    {
        proof {
            reveal(acknowledged);
        }
        let i = match self.find_memory(session_id) {
            Some(i) => i,
            None => return self.protocol_disconnect(),
        };
        let ghost before = self@;
        let ghost m = before.memories[i as int].memory;
        let joined_ticket: Option<Option<QueueTicketId>> = match &self.memories[i].memory.pending_outcome {
            Some(pending) => if pending.request_id == request_id {
                match &pending.outcome.decision {
                    QueueDecision::Joined(membership) => Some(Some(membership.ticket_id)),
                    _ => Some(None),
                }
            } else {
                None
            },
            None => None,
        };
        match joined_ticket {
            Some(joined) => {
                self.memories[i].memory.pending_outcome = None;
                self.memories[i].memory.last_acknowledged_outcome_request_id = Some(request_id);
                self.memories[i].memory.identical_retry_not_before = None;
                self.memories[i].memory.early_identical_retry_count = 0;
                let ghost m2 = QueueCommandMemory {
                    pending_outcome: None,
                    last_acknowledged_outcome_request_id: Some(request_id),
                    identical_retry_not_before: None,
                    early_identical_retry_count: 0,
                    ..m
                };
                assert(self.memories@ =~= with_memory(before, i as int, m2).memories);
                let ghost v2 = self@;
                if let Some(ticket_id) = joined {
                    if let Some(t) = self.find_ticket(ticket_id) {
                        self.tickets[t].formation_eligible = true;
                        assert(self.tickets@ =~= v2.tickets.update(
                            t as int,
                            QueueTicket { formation_eligible: true, ..v2.tickets[t as int] },
                        ));
                    }
                }
                self.observe_counts();
                QueueCommandResult { disposition: QueueCommandDisposition::Idle, snapshot_changed: false }
            },
            None => {
                let repeated = match self.memories[i].memory.last_acknowledged_outcome_request_id {
                    Some(acknowledged) => acknowledged == request_id,
                    None => false,
                };
                if repeated {
                    QueueCommandResult { disposition: QueueCommandDisposition::Idle, snapshot_changed: false }
                } else {
                    self.protocol_disconnect()
                }
            },
        }
    }

    /// Apply one queue command of `session` at `now_millis`. `admitted_build` is the build the
    /// profile authority admitted for a join, with its resolution.
    pub fn command(
        &mut self,
        session: &LobbySession,
        request_id: QueueRequestId,
        command: QueueCommand,
        now_millis: u64,
        admitted_build: Option<AdmittedBuild>,
    ) -> (result: QueueCommandResult)
        ensures
            exists|seed: Option<QueueTicketId>|
                (final(self)@, result) == commanded(
                    old(self)@,
                    *session,
                    request_id,
                    command,
                    now_millis,
                    admitted_build,
                    seed,
                ),
    {
        proof {
            reveal(commanded);
        }
        let ghost v0 = self@;
        let session_id = session.lobby_session_id;
        self.ensure_memory(session_id, now_millis);
        let ghost v1 = self@;
        if let Some(result) = self.handle_duplicate(session_id, request_id, &command, now_millis) {
            assert((self@, result) == commanded(v0, *session, request_id, command, now_millis, admitted_build, None));
            return result;
        }
        let i = match self.find_memory(session_id) {
            Some(i) => i,
            None => {
                assert(false);
                return self.protocol_disconnect();
            },
        };
        let ghost m = refilled(v1.memories[i as int].memory, now_millis);
        self.memories[i].memory.refill(now_millis);
        assert(self.memories@ =~= with_memory(v1, i as int, m).memories);
        let ghost v2 = self@;
        if self.memories[i].memory.pending_outcome.is_some() || self.memories[i].memory.rate_limit_notice_until.is_some() {
            let result = self.protocol_disconnect();
            assert((self@, result) == commanded(v0, *session, request_id, command, now_millis, admitted_build, None));
            return result;
        }
        if self.memories[i].memory.command_tokens == 0 {
            let refill_at = self.memories[i].memory.command_token_refill_at;
            let remainder = if now_millis >= refill_at {
                now_millis - refill_at
            } else {
                0
            };
            let capped = if remainder > 999 {
                999
            } else {
                remainder
            };
            let delay = COMMAND_REFILL_MILLIS - capped;
            assert(delay == rate_limit_delay(m, now_millis));
            self.memories[i].memory.rate_limit_notice_until = Some(now_millis.saturating_add(delay));
            assert(self.memories@ =~= with_memory(
                v2,
                i as int,
                QueueCommandMemory { rate_limit_notice_until: Some(sat_add(now_millis, delay)), ..m },
            ).memories);
            QueueTelemetry::increment(&mut self.telemetry.rate_limit_notices);
            let result = self.store_outcome(
                session_id,
                request_id,
                command,
                QueueDecision::Rejected(QueueRejection::RateLimited { retry_after_millis: delay as u16 }),
                now_millis,
                false,
                true,
            );
            assert((self@, result) == commanded(v0, *session, request_id, command, now_millis, admitted_build, None));
            return result;
        }
        self.memories[i].memory.command_tokens = self.memories[i].memory.command_tokens - 1;
        let ghost m3 = QueueCommandMemory { command_tokens: (m.command_tokens - 1) as u8, ..m };
        assert(self.memories@ =~= with_memory(v2, i as int, m3).memories);
        let stale = match &self.memories[i].memory.last {
            Some(last) => request_id.0 < last.request_id.0,
            None => false,
        };
        if stale {
            let result = self.store_outcome(
                session_id,
                request_id,
                command,
                QueueDecision::Rejected(QueueRejection::StaleRequest),
                now_millis,
                false,
                false,
            );
            assert((self@, result) == commanded(v0, *session, request_id, command, now_millis, admitted_build, None));
            return result;
        }
        let (decision, changed, seed) = match &command {
            QueueCommand::Join(join) => self.join(session, join, admitted_build),
            QueueCommand::Cancel(cancel) => {
                let (decision, changed) = self.cancel(session, *cancel);
                (decision, changed, Ghost(None))
            },
        };
        let result = self.store_outcome(session_id, request_id, command, decision, now_millis, changed, true);
        assert((self@, result) == commanded(v0, *session, request_id, command, now_millis, admitted_build, seed@));
        result
    }

    /// Remove the queue state of a lobby session before the session disappears. Returns whether
    /// a ticket was removed.
    pub fn remove_session(&mut self, session_id: LobbySessionId) -> (removed: bool)
        ensures
            (final(self)@, removed) == session_removed(old(self)@, session_id),
    {
        proof {
            reveal(session_removed);
        }
        let revision = self.state_revision;
        let ticket = match self.find_session_ticket(session_id) {
            Some(i) => Some(self.tickets[i].ticket_id),
            None => None,
        };
        if let Some(ticket_id) = ticket {
            self.remove_ticket(ticket_id);
        }
        if let Some(m) = self.find_memory(session_id) {
            self.memories.remove(m);
        }
        if ticket.is_some() {
            self.refresh_pool_rows();
            QueueTelemetry::increment(&mut self.telemetry.disconnect_removals);
            if revision == u64::MAX {
                self.revision_exhausted = true;
            } else {
                self.state_revision = revision + 1;
            }
        }
        self.observe_counts();
        ticket.is_some()
    }

    /// Complete (or dissolve) the reservation `reservation_id`: its still-held tickets leave the
    /// queue, and are returned in participant order.
    pub fn complete_reservation(&mut self, reservation_id: MatchReservationId) -> (tickets: Vec<QueueTicket>)
        ensures
            (final(self)@, tickets@) == reservation_completed(old(self)@, reservation_id),
    {
        proof {
            reveal(reservation_completed);
        }
        let participants = match &self.reservation {
            Some(r) => if r.reservation_id == reservation_id {
                r.participants.clone()
            } else {
                return Vec::new();
            },
            None => return Vec::new(),
        };
        let ghost v = self@;
        assert(participants@ == v.reservation.unwrap().participants);
        let mut tickets: Vec<QueueTicket> = Vec::new();
        let mut k: usize = 0;
        while k < participants.len()
            invariant
                k <= participants@.len(),
                self@ == v,
                tickets@ == participant_tickets(v, participants@.subrange(0, k as int)),
            decreases participants@.len() - k,
        {
            proof {
                assert(participants@.subrange(0, k as int + 1).drop_last() =~= participants@.subrange(0, k as int));
            }
            if let Some(t) = self.find_ticket(participants[k].ticket_id) {
                tickets.push(self.tickets[t].duplicate());
            }
            k = k + 1;
        }
        assert(participants@.subrange(0, k as int) =~= participants@);
        let mut k: usize = 0;
        while k < tickets.len()
            invariant
                k <= tickets@.len(),
                self@ == without_tickets(v, tickets@.subrange(0, k as int)),
            decreases tickets@.len() - k,
        {
            proof {
                assert(tickets@.subrange(0, k as int + 1).drop_last() =~= tickets@.subrange(0, k as int));
            }
            self.remove_ticket(tickets[k].ticket_id);
            k = k + 1;
        }
        assert(tickets@.subrange(0, k as int) =~= tickets@);
        self.refresh_pool_rows();
        self.observe_counts();
        tickets
    }

    /// Mark the reservation `reservation_id` ready for handoff. The first mark advances the map
    /// rotation of its game type; later marks, and unknown reservations, change nothing.
    pub fn mark_reservation_handoff_ready(&mut self, reservation_id: MatchReservationId) -> (marked: bool)
        ensures
            (final(self)@, marked) == handoff_marked(old(self)@, reservation_id),
    {
        proof {
            reveal(handoff_marked);
        }
        let game = match &self.reservation {
            Some(r) => if r.reservation_id == reservation_id && !r.handoff_ready {
                r.game_type_id.duplicate()
            } else {
                return false;
            },
            None => return false,
        };
        let ghost v = self@;
        let mut reservation = self.reservation.take();
        if let Some(r) = &mut reservation {
            r.handoff_ready = true;
        }
        self.reservation = reservation;
        if let Some(g) = self.find_row(&game) {
            if g < self.map_ordinals.len() {
                self.map_ordinals[g] = self.map_ordinals[g].saturating_add(1);
            }
        }
        true
    }

    /// Whether the queue's indexes agree with its tickets, pools and reservation.
    pub fn indexes_are_valid(&self) -> (valid: bool)
        ensures
            valid == indexes_valid(self@),
    {
        let ghost v = self@;
        if self.tickets.len() > MAX_QUEUE_TICKETS {
            return false;
        }
        let n = self.tickets.len();
        let mut i: usize = 0;
        while i < n
            invariant
                n == v.tickets.len(),
                i <= n,
                self@ == v,
                forall|a: int, b: int|
                    0 <= a < b < n && a < i ==> (#[trigger] v.tickets[a]).ticket_id != (#[trigger] v.tickets[b]).ticket_id
                        && v.tickets[a].lobby_session_id != v.tickets[b].lobby_session_id,
            decreases n - i,
        {
            let mut j: usize = i + 1;
            while j < n
                invariant
                    n == v.tickets.len(),
                    i < n,
                    i + 1 <= j <= n,
                    self@ == v,
                    forall|a: int, b: int|
                        0 <= a < b < n && a < i ==> (#[trigger] v.tickets[a]).ticket_id != (#[trigger] v.tickets[b]).ticket_id
                            && v.tickets[a].lobby_session_id != v.tickets[b].lobby_session_id,
                    forall|b: int|
                        i < b < j ==> v.tickets[i as int].ticket_id != (#[trigger] v.tickets[b]).ticket_id
                            && v.tickets[i as int].lobby_session_id != v.tickets[b].lobby_session_id,
                decreases n - j,
            {
                if self.tickets[i].ticket_id == self.tickets[j].ticket_id
                    || self.tickets[i].lobby_session_id == self.tickets[j].lobby_session_id {
                    return false;
                }
                j = j + 1;
            }
            i = i + 1;
        }
        if self.client_tickets.len() != n {
            return false;
        }
        let mut i: usize = 0;
        while i < n
            invariant
                n == v.tickets.len(),
                i <= n,
                self@ == v,
                forall|a: int|
                    0 <= a < i ==> {
                        let c = client_index(v.client_tickets, (#[trigger] v.tickets[a]).netcode_client_id);
                        c >= 0 && v.client_tickets[c].ticket == v.tickets[a].ticket_id
                    },
                forall|a: int| 0 <= a < i ==> pooled(v, (#[trigger] v.tickets[a]).ticket_id) || reserved(v, v.tickets[a].ticket_id),
            decreases n - i,
        {
            let ghost t = v.tickets[i as int];
            match self.find_client(self.tickets[i].netcode_client_id) {
                Some(c) => {
                    if self.client_tickets[c].ticket != self.tickets[i].ticket_id {
                        assert(!indexes_valid(v)) by {
                            assert(t == v.tickets[i as int]);
                        }
                        return false;
                    }
                },
                None => {
                    assert(!indexes_valid(v)) by {
                        assert(t == v.tickets[i as int]);
                    }
                    return false;
                },
            }
            let id = self.tickets[i].ticket_id;
            if !self.in_some_pool(id) && !self.in_reservation(id) {
                assert(!indexes_valid(v)) by {
                    assert(t == v.tickets[i as int]);
                }
                return false;
            }
            i = i + 1;
        }
        let mut g: usize = 0;
        while g < self.pools.len()
            invariant
                g <= v.pools.len(),
                self@ == v,
                forall|a: int, p: int|
                    0 <= a < g && 0 <= p < v.pools[a].len() ==> !reserved(v, #[trigger] v.pools[a][p])
                        && ticket_index(v.tickets, v.pools[a][p]) >= 0,
            decreases v.pools.len() - g,
        {
            let mut p: usize = 0;
            while p < self.pools[g].len()
                invariant
                    g < v.pools.len(),
                    p <= v.pools[g as int].len(),
                    self@ == v,
                    forall|a: int, q: int|
                        0 <= a < g && 0 <= q < v.pools[a].len() ==> !reserved(v, #[trigger] v.pools[a][q])
                            && ticket_index(v.tickets, v.pools[a][q]) >= 0,
                    forall|q: int|
                        0 <= q < p ==> !reserved(v, #[trigger] v.pools[g as int][q]) && ticket_index(
                            v.tickets,
                            v.pools[g as int][q],
                        ) >= 0,
                decreases v.pools[g as int].len() - p,
            {
                let id = self.pools[g][p];
                if self.in_reservation(id) || self.find_ticket(id).is_none() {
                    assert(!indexes_valid(v)) by {
                        assert(v.pools[g as int][p as int] == id);
                        assert(pooled(v, id));
                    }
                    return false;
                }
                p = p + 1;
            }
            g = g + 1;
        }
        match &self.reservation {
            Some(r) => {
                let mut k: usize = 0;
                while k < r.participants.len()
                    invariant
                        k <= r.participants@.len(),
                        self@ == v,
                        v.reservation == Some(r.model()),
                        forall|q: int| 0 <= q < k ==> ticket_index(v.tickets, (#[trigger] r.participants@[q]).ticket_id) >= 0,
                    decreases r.participants@.len() - k,
                {
                    if self.find_ticket(r.participants[k].ticket_id).is_none() {
                        assert(!indexes_valid(v)) by {
                            let pid = r.participants@[k as int].ticket_id;
                            assert(v.reservation.unwrap().participants[k as int].ticket_id == pid);
                            assert(reserved(v, pid));
                        }
                        return false;
                    }
                    k = k + 1;
                }
            },
            None => {},
        }
        true
    }

    fn in_some_pool(&self, id: QueueTicketId) -> (found: bool)
        ensures
            found == pooled(self@, id),
    {
        let ghost v = self@;
        let mut g: usize = 0;
        while g < self.pools.len()
            invariant
                g <= v.pools.len(),
                self@ == v,
                forall|a: int, p: int| 0 <= a < g && 0 <= p < v.pools[a].len() ==> v.pools[a][p] != id,
            decreases v.pools.len() - g,
        {
            if let Some(p) = find_in_pool(&self.pools[g], id) {
                proof {
                    lemma_first_index_facts(v.pools[g as int], |x: QueueTicketId| x == id);
                }
                return true;
            }
            proof {
                lemma_first_index_facts(v.pools[g as int], |x: QueueTicketId| x == id);
            }
            g = g + 1;
        }
        false
    }

    fn in_reservation(&self, id: QueueTicketId) -> (found: bool)
        ensures
            found == reserved(self@, id),
    {
        match &self.reservation {
            Some(r) => {
                proof {
                    lemma_first_index_facts(r.participants@, |p: ReservedParticipant| p.ticket_id == id);
                }
                assert(self@.reservation == Some(r.model()));
                match find_participant(&r.participants, id) {
                    Some(k) => {
                        assert(self@.reservation.unwrap().participants[k as int].ticket_id == id);
                        true
                    },
                    None => {
                        assert(forall|j: int| 0 <= j < r.participants@.len() ==> r.participants@[j].ticket_id != id);
                        assert(!reserved(self@, id));
                        false
                    },
                }
            },
            None => false,
        }
    }

    /// Atomically reserve the oldest complete formation-ready roster across the catalog's pools.
    /// Overflow stays queued in order, and catalog order breaks an identity tie.
    pub fn reserve_oldest_exact(
        &mut self,
        catalog: &ResolvedLobbyCatalog,
        reservation_id: MatchReservationId,
        live_sessions: &Vec<LobbySessionId>,
    ) -> (reservation: Option<QueueReservation>)
        requires
            catalog.well_formed(),
        ensures
            ({
                let (v, r) = roster_reserved(old(self)@, *catalog, reservation_id, live_sessions@);
                &&& final(self)@ == v
                &&& match reservation {
                    Some(x) => r == Some(x.model()),
                    None => r is None,
                }
            }),
    {
        proof {
            reveal(roster_reserved);
        }
        if self.reservation.is_some() {
            return None;
        }
        let ghost v = self@;
        let ghost games = catalog.game_types@;
        let ghost live = live_sessions@;
        let best = match self.scan_rosters(catalog, live_sessions) {
            Ok(best) => best,
            Err(()) => return None,
        };
        let (_, _, index, selected) = match best {
            Some(found) => found,
            None => return None,
        };
        if self.state_revision == u64::MAX {
            return None;
        }
        let game = &catalog.game_types[index];
        let g = match self.find_row(&game.id) {
            Some(g) => g,
            None => {
                assert(false);
                return None;
            },
        };
        let ordinal: u64 = if g < self.map_ordinals.len() {
            self.map_ordinals[g]
        } else {
            0
        };
        let ordinal_index: usize = if ordinal <= usize::MAX as u64 {
            ordinal as usize
        } else {
            0
        };
        let map_index = ordinal_index % game.map_preset_ids.len();
        let kept = kept_in(&self.pools[g], &selected);
        self.pools[g] = kept;
        assert(self@.pools =~= v.pools.update(g as int, kept_ids(v.pools[g as int], selected@)));
        let team_count = game.team_count;
        assert(team_count > 0) by (nonlinear_arith)
            requires
                selected@.len() == team_count * game.players_per_team,
                selected@.len() > 0,
        ;
        let mut participants: Vec<ReservedParticipant> = Vec::new();
        let mut k: usize = 0;
        while k < selected.len()
            invariant
                k <= selected@.len(),
                team_count > 0,
                participants@ == roster_participants(selected@, team_count).subrange(0, k as int),
            decreases selected@.len() - k,
        {
            let team = (k % (team_count as usize)) as u8;
            participants.push(ReservedParticipant { ticket_id: selected[k], team: team });
            assert(participants@ =~= roster_participants(selected@, team_count).subrange(0, k as int + 1));
            k = k + 1;
        }
        assert(participants@ =~= roster_participants(selected@, team_count));
        let reservation = QueueReservation {
            reservation_id: reservation_id,
            game_type_id: game.id.duplicate(),
            map_preset_id: game.map_preset_ids[map_index],
            team_count: team_count,
            players_per_team: game.players_per_team,
            participants: participants,
            handoff_ready: false,
        };
        self.reservation = Some(reservation.duplicate());
        self.state_revision = self.state_revision + 1;
        self.refresh_pool_rows();
        Some(reservation)
    }

    #[verifier::rlimit(60)]
    fn scan_rosters(
        &self,
        catalog: &ResolvedLobbyCatalog,
        live_sessions: &Vec<LobbySessionId>,
    ) -> (scanned: Result<Option<(u64, u128, usize, Vec<QueueTicketId>)>, ()>)
        requires
            catalog.well_formed(),
        ensures
            match scanned {
                Err(()) => roster_scan(self@, catalog.game_types@, live_sessions@, catalog.game_types@.len() as int) is Aborted,
                Ok(best) => {
                    &&& roster_scan(self@, catalog.game_types@, live_sessions@, catalog.game_types@.len() as int)
                        == RosterScan::Best(
                        candidate_of(
                            match best {
                                Some((o, t, i, s)) => Some((o, t, i, s@)),
                                None => None,
                            },
                        ),
                    )
                    &&& best matches Some((o, t, i, s)) ==> {
                        &&& i < catalog.game_types@.len()
                        &&& 0 <= row_index(self@.pool_rows, catalog.game_types@[i as int].id) < self@.pools.len()
                        &&& s@.len() == catalog.game_types@[i as int].team_count * catalog.game_types@[i as int].players_per_team
                        &&& s@.len() > 0
                    }
                },
            },
    {
        let ghost v = self@;
        let ghost games = catalog.game_types@;
        let ghost live = live_sessions@;
        let mut best: Option<(u64, u128, usize, Vec<QueueTicketId>)> = None;
        let mut ci: usize = 0;
        while ci < catalog.game_types.len()
            invariant
                self@ == v,
                games == catalog.game_types@,
                live == live_sessions@,
                catalog.well_formed(),
                ci <= games.len(),
                roster_scan(v, games, live, ci as int) == RosterScan::Best(
                    candidate_of(
                        match best {
                            Some((o, t, i, s)) => Some((o, t, i, s@)),
                            None => None,
                        },
                    ),
                ),
                best matches Some((o, t, i, s)) ==> {
                    &&& i < games.len()
                    &&& 0 <= row_index(v.pool_rows, games[i as int].id) < v.pools.len()
                    &&& s@.len() == games[i as int].team_count * games[i as int].players_per_team
                    &&& s@.len() > 0
                },
            decreases games.len() - ci,
        {
            let game = &catalog.game_types[ci];
            assert(games[ci as int].team_count * games[ci as int].players_per_team <= u8::MAX);
            let formation: usize = game.team_count as usize * game.players_per_team as usize;
            let g = match self.find_row(&game.id) {
                Some(g) => g,
                None => {
                    proof {
                        lemma_roster_scan_aborted(v, games, live, ci as int + 1, games.len() as int);
                    }
                    return Err(());
                },
            };
            if g >= self.pools.len() {
                proof {
                    lemma_roster_scan_aborted(v, games, live, ci as int + 1, games.len() as int);
                }
                return Err(());
            }
            let ready = self.ready_in_pool(g, live_sessions);
            if ready.len() >= formation {
                if formation == 0 {
                    proof {
                        lemma_roster_scan_aborted(v, games, live, ci as int + 1, games.len() as int);
                    }
                    return Err(());
                }
                let mut selected = ready;
                selected.truncate(formation);
                let t = match self.find_ticket(selected[0]) {
                    Some(t) => t,
                    None => {
                        proof {
                            lemma_roster_scan_aborted(v, games, live, ci as int + 1, games.len() as int);
                        }
                        return Err(());
                    },
                };
                let order = self.tickets[t].admission_order;
                let ticket = self.tickets[t].ticket_id.0;
                let better = match &best {
                    None => true,
                    Some((o, k, i, _)) => order < *o || (order == *o && (ticket < *k || (ticket == *k && ci < *i))),
                };
                if better {
                    best = Some((order, ticket, ci, selected));
                }
            }
            ci = ci + 1;
        }
        Ok(best)
    }

    fn is_formation_ready(&self, id: QueueTicketId, live_sessions: &Vec<LobbySessionId>) -> (ready: bool)
        ensures
            ready == formation_ready(self@, id, live_sessions@),
    {
        match self.find_ticket(id) {
            Some(t) => self.tickets[t].formation_eligible && session_listed(live_sessions, self.tickets[t].lobby_session_id),
            None => false,
        }
    }

    /// The formation-ready tickets of pool `g`, in queue order.
    #[verifier::rlimit(50)]
    fn ready_in_pool(&self, g: usize, live_sessions: &Vec<LobbySessionId>) -> (ready: Vec<QueueTicketId>)
        requires
            g < self@.pools.len(),
        ensures
            ready@ == ready_ids(self@, self@.pools[g as int], live_sessions@),
    {
        let pool = &self.pools[g];
        let ghost pool_view = self@.pools[g as int];
        assert(pool@ == pool_view);
        let mut ready: Vec<QueueTicketId> = Vec::new();
        let mut k: usize = 0;
        while k < pool.len()
            invariant
                k <= pool@.len(),
                pool@ == pool_view,
                ready@ == ready_ids(self@, pool_view.subrange(0, k as int), live_sessions@),
            decreases pool@.len() - k,
        {
            proof {
                assert(pool_view.subrange(0, k as int + 1).drop_last() =~= pool_view.subrange(0, k as int));
            }
            let id = pool[k];
            let is_ready = self.is_formation_ready(id, live_sessions);
            if is_ready {
                ready.push(id);
            }
            k = k + 1;
        }
        assert(pool_view.subrange(0, k as int) =~= pool_view);
        ready
    }

    // -----------------------------------------------------------------------------------------
    // Internal transitions
    // -----------------------------------------------------------------------------------------

    fn observe_counts(&mut self)
        ensures
            final(self)@ == observe(old(self)@),
    {
        proof {
            reveal(observe);
        }
        let pending = self.pending_outcome_count();
        self.telemetry.observe_counts(self.tickets.len(), pending);
    }

    fn protocol_disconnect(&mut self) -> (result: QueueCommandResult)
        ensures
            (final(self)@, result) == disconnected(old(self)@),
    {
        QueueTelemetry::increment(&mut self.telemetry.protocol_abuse_disconnects);
        QueueCommandResult { disposition: QueueCommandDisposition::Disconnect, snapshot_changed: false }
    }

    #[verifier::rlimit(40)]
    fn remove_ticket(&mut self, ticket_id: QueueTicketId)
        ensures
            final(self)@ == without_ticket(old(self)@, ticket_id),
    {
        proof {
            reveal(without_ticket);
        }
        let i = match self.find_ticket(ticket_id) {
            Some(i) => i,
            None => return ,
        };
        let ghost before = self@;
        let ticket = self.tickets.remove(i);
        if let Some(c) = self.find_client(ticket.netcode_client_id) {
            self.client_tickets.remove(c);
        }
        let reservation = self.reservation.take();
        self.reservation = match reservation {
            Some(mut r) => match find_participant(&r.participants, ticket_id) {
                Some(p) => if r.participants.len() == 1 {
                    None
                } else {
                    r.participants.remove(p);
                    Some(r)
                },
                None => Some(r),
            },
            None => None,
        };
        if let Some(g) = self.find_row(&ticket.game_type_id) {
            if g < self.pools.len() {
                if let Some(position) = find_in_pool(&self.pools[g], ticket_id) {
                    let ghost old_pools = self.pools@;
                    self.pools[g].remove(position);
                    assert(self@.pools =~= before.pools.update(
                        g as int,
                        before.pools[g as int].remove(position as int),
                    ));
                }
            }
        }
        if let Some(m) = self.find_memory(ticket.lobby_session_id) {
            self.memories[m].memory.active_ticket_id = None;
        }
        assert(self@ == without_ticket(before, ticket_id));
    }

    fn ensure_memory(&mut self, session_id: LobbySessionId, now_millis: u64)
        ensures
            final(self)@ == with_session_memory(old(self)@, session_id, now_millis),
            memory_index(final(self)@.memories, session_id) >= 0,
    {
        proof {
            reveal(with_session_memory);
        }
        if self.find_memory(session_id).is_none() {
            let ghost before = self@.memories;
            proof {
                lemma_first_index_facts(before, |m: SessionMemory| m.session_id == session_id);
            }
            self.memories.push(SessionMemory { session_id: session_id, memory: QueueCommandMemory::new(now_millis) });
            proof {
                assert(forall|j: int| 0 <= j < before.len() ==> self.memories@[j] == before[j]);
                lemma_first_index_at(
                    self.memories@,
                    |m: SessionMemory| m.session_id == session_id,
                    before.len() as int,
                );
            }
        } else {
            proof {
                lemma_first_index_facts(self.memories@, |m: SessionMemory| m.session_id == session_id);
            }
        }
    }

    fn fresh_ticket_id(&mut self, admission_order: u64) -> (drawn: (Option<QueueTicketId>, Ghost<Option<QueueTicketId>>))
        ensures
            (final(self)@, drawn.0) == fresh_ticket(old(self)@, admission_order, drawn.1@),
    {
        proof {
            reveal(fresh_ticket);
        }
        let namespace = match self.ticket_namespace {
            Some(namespace) => namespace,
            None => {
                let seed = self.ticket_ids.next();
                match seed {
                    None => return (None, Ghost(None)),
                    Some(seed) => {
                        let namespace = ticket_namespace_from_seed(seed.get());
                        self.ticket_namespace = Some(namespace);
                        return (ticket_id_in_namespace(namespace, admission_order), Ghost(Some(seed)));
                    },
                }
            },
        };
        (ticket_id_in_namespace(namespace, admission_order), Ghost(None))
    }

    fn store_outcome(
        &mut self,
        session_id: LobbySessionId,
        request_id: QueueRequestId,
        command: QueueCommand,
        decision: QueueDecision,
        now_millis: u64,
        changed: bool,
        remember: bool,
    ) -> (result: QueueCommandResult)
        ensures
            (final(self)@, result) == stored(
                old(self)@,
                session_id,
                request_id,
                command,
                decision,
                now_millis,
                changed,
                remember,
            ),
    {
        proof {
            reveal(stored);
        }
        let ghost before = self@;
        let outcome = QueueCommandOutcome { request_id: request_id, decision: decision };
        if let Some(i) = self.find_memory(session_id) {
            let ghost retained_spec = LastCommand { request_id: request_id, command: command, outcome: outcome };
            let ghost m = before.memories[i as int].memory;
            let ghost m1 = match outcome.decision {
                QueueDecision::Cancelled { ticket_id, .. } => QueueCommandMemory {
                    last_cancelled: Some((ticket_id, outcome)),
                    ..m
                },
                _ => m,
            };
            let ghost m2 = if remember {
                QueueCommandMemory { last: Some(retained_spec), ..m1 }
            } else {
                m1
            };
            if let QueueDecision::Cancelled { ticket_id, .. } = &outcome.decision {
                self.memories[i].memory.last_cancelled = Some((*ticket_id, outcome.duplicate()));
            }
            assert(self.memories@[i as int].memory == m1);
            let retained = LastCommand { request_id: request_id, command: command, outcome: outcome };
            if remember {
                self.memories[i].memory.last = Some(retained.duplicate());
            }
            assert(self.memories@[i as int].memory == m2);
            self.memories[i].memory.pending_outcome = Some(retained);
            self.memories[i].memory.identical_retry_not_before = Some(
                now_millis.saturating_add(IDENTICAL_RETRY_MILLIS),
            );
            self.memories[i].memory.early_identical_retry_count = 0;
            let ghost m3 = QueueCommandMemory {
                pending_outcome: Some(retained_spec),
                identical_retry_not_before: Some(sat_add(now_millis, IDENTICAL_RETRY_MILLIS)),
                early_identical_retry_count: 0,
                ..m2
            };
            assert(self.memories@[i as int].memory == m3);
            assert(self.memories@ =~= with_memory(before, i as int, m3).memories);
            assert(self@ == with_memory(before, i as int, m3));
        }
        self.observe_counts();
        QueueCommandResult { disposition: QueueCommandDisposition::OutcomeReady, snapshot_changed: changed }
    }

    fn validate_join_target(&self, join: &QueueJoinCommand) -> (rejection: Option<QueueRejection>)
        ensures
            rejection == join_target_rejection(self@, *join),
    {
        proof {
            reveal(join_target_rejection);
        }
        if join.catalog_revision != self.catalog_revision {
            return Some(QueueRejection::StaleCatalog);
        }
        match self.find_row(&join.game_type_id) {
            None => Some(QueueRejection::UnknownGameType),
            Some(g) => if self.pool_rows[g].game_type_configuration_revision
                != join.game_type_configuration_revision {
                Some(QueueRejection::StaleGameConfiguration)
            } else {
                None
            },
        }
    }

    fn handle_duplicate(
        &mut self,
        session_id: LobbySessionId,
        request_id: QueueRequestId,
        command: &QueueCommand,
        now_millis: u64,
    ) -> (handled: Option<QueueCommandResult>)
        ensures
            match duplicate_handled(old(self)@, session_id, request_id, *command, now_millis) {
                Some((v, result)) => handled == Some(result) && final(self)@ == v,
                None => handled is None && final(self)@ == old(self)@,
            },
    {
        proof {
            reveal(duplicate_handled);
        }
        let i = match self.find_memory(session_id) {
            Some(i) => i,
            None => return None,
        };
        let ghost before = self@;
        let ghost m = before.memories[i as int].memory;
        let pending: Option<(QueueRequestId, bool)> = match &self.memories[i].memory.pending_outcome {
            Some(pending) => Some((pending.request_id, command.same_as(&pending.command))),
            None => None,
        };
        match pending {
            Some((pending_request, same)) => {
                if request_id != pending_request {
                    return None;
                }
                if !same {
                    return Some(self.protocol_disconnect());
                }
                let deadline = match self.memories[i].memory.identical_retry_not_before {
                    Some(deadline) => deadline,
                    None => now_millis.saturating_add(IDENTICAL_RETRY_MILLIS),
                };
                if now_millis >= deadline {
                    self.memories[i].memory.identical_retry_not_before = Some(
                        now_millis.saturating_add(IDENTICAL_RETRY_MILLIS),
                    );
                    self.memories[i].memory.early_identical_retry_count = 0;
                    assert(self.memories@ =~= with_memory(
                        before,
                        i as int,
                        QueueCommandMemory {
                            identical_retry_not_before: Some(sat_add(now_millis, IDENTICAL_RETRY_MILLIS)),
                            early_identical_retry_count: 0,
                            ..m
                        },
                    ).memories);
                    QueueTelemetry::increment(&mut self.telemetry.suppressed_identical_retries);
                    return Some(
                        QueueCommandResult {
                            disposition: QueueCommandDisposition::SuppressedIdenticalRetry,
                            snapshot_changed: false,
                        },
                    );
                }
                let count = self.memories[i].memory.early_identical_retry_count.saturating_add(1);
                self.memories[i].memory.early_identical_retry_count = count;
                assert(self.memories@ =~= with_memory(
                    before,
                    i as int,
                    QueueCommandMemory { early_identical_retry_count: count, ..m },
                ).memories);
                QueueTelemetry::increment(&mut self.telemetry.early_identical_retries);
                if count >= EARLY_IDENTICAL_RETRY_LIMIT {
                    return Some(self.protocol_disconnect());
                }
                Some(
                    QueueCommandResult {
                        disposition: QueueCommandDisposition::EarlyIdenticalRetry,
                        snapshot_changed: false,
                    },
                )
            },
            None => {
                let last: Option<(QueueRequestId, bool)> = match &self.memories[i].memory.last {
                    Some(last) => Some((last.request_id, command.same_as(&last.command))),
                    None => None,
                };
                match last {
                    None => None,
                    Some((last_request, same)) => {
                        if request_id != last_request {
                            return None;
                        }
                        if !same {
                            return Some(self.protocol_disconnect());
                        }
                        let replay = match &self.memories[i].memory.last {
                            Some(last) => last.duplicate(),
                            None => {
                                assert(false);
                                return None;
                            },
                        };
                        self.memories[i].memory.pending_outcome = Some(replay);
                        self.memories[i].memory.identical_retry_not_before = Some(
                            now_millis.saturating_add(IDENTICAL_RETRY_MILLIS),
                        );
                        assert(self.memories@ =~= with_memory(
                            before,
                            i as int,
                            QueueCommandMemory {
                                pending_outcome: m.last,
                                identical_retry_not_before: Some(sat_add(now_millis, IDENTICAL_RETRY_MILLIS)),
                                ..m
                            },
                        ).memories);
                        self.observe_counts();
                        Some(
                            QueueCommandResult {
                                disposition: QueueCommandDisposition::OutcomeReady,
                                snapshot_changed: false,
                            },
                        )
                    },
                }
            },
        }
    }

    fn join(
        &mut self,
        session: &LobbySession,
        join: &QueueJoinCommand,
        admitted_build: Option<AdmittedBuild>,
    ) -> (outcome: (QueueDecision, bool, Ghost<Option<QueueTicketId>>))
        ensures
            (final(self)@, outcome.0, outcome.1) == joined(old(self)@, *session, *join, admitted_build, outcome.2@),
    {
        proof {
            reveal(joined);
        }
        if let Some(rejection) = self.validate_join_target(join) {
            QueueTelemetry::increment(&mut self.telemetry.game_rejections);
            return (QueueDecision::Rejected(rejection), false, Ghost(None));
        }
        if let Some(i) = self.find_session_ticket(session.lobby_session_id) {
            let ticket = &self.tickets[i];
            if ticket.catalog_revision == join.catalog_revision && ticket.game_type_id.same_as(&join.game_type_id)
                && ticket.game_type_configuration_revision == join.game_type_configuration_revision
                && ticket.build_snapshot.brawler_id == join.brawler_id
                && ticket.build_snapshot.brawler_revision == join.brawler_revision {
                return (QueueDecision::Joined(membership_from_ticket(ticket)), false, Ghost(None));
            }
            QueueTelemetry::increment(&mut self.telemetry.membership_rejections);
            return (QueueDecision::Rejected(QueueRejection::MustCancelFirst), false, Ghost(None));
        }
        if self.tickets.len() >= MAX_QUEUE_TICKETS {
            QueueTelemetry::increment(&mut self.telemetry.unavailable_rejections);
            return (QueueDecision::Rejected(QueueRejection::TemporarilyUnavailable), false, Ghost(None));
        }
        let build = match admitted_build {
            Some(build) if build.snapshot.brawler_id == join.brawler_id && build.snapshot.brawler_revision
                == join.brawler_revision => build,
            _ => {
                QueueTelemetry::increment(&mut self.telemetry.build_rejections);
                return (QueueDecision::Rejected(QueueRejection::InternalBuildResolution), false, Ghost(None));
            },
        };
        let resolved = match build.resolution {
            BuildResolution::FighterUnavailable => {
                return (QueueDecision::Rejected(QueueRejection::TemporarilyUnavailable), false, Ghost(None));
            },
            BuildResolution::Rejected => {
                QueueTelemetry::increment(&mut self.telemetry.build_rejections);
                return (QueueDecision::Rejected(QueueRejection::InternalBuildResolution), false, Ghost(None));
            },
            BuildResolution::Resolved(resolved) => resolved,
        };
        let admission_order = self.next_admission_order;
        if admission_order == u64::MAX {
            QueueTelemetry::increment(&mut self.telemetry.unavailable_rejections);
            return (QueueDecision::Rejected(QueueRejection::TemporarilyUnavailable), false, Ghost(None));
        }
        let (drawn, seed) = self.fresh_ticket_id(admission_order);
        let ticket_id = match drawn {
            Some(ticket_id) => ticket_id,
            None => {
                QueueTelemetry::increment(&mut self.telemetry.unavailable_rejections);
                return (QueueDecision::Rejected(QueueRejection::TemporarilyUnavailable), false, seed);
            },
        };
        if self.state_revision == u64::MAX {
            QueueTelemetry::increment(&mut self.telemetry.unavailable_rejections);
            return (QueueDecision::Rejected(QueueRejection::TemporarilyUnavailable), false, seed);
        }
        let revision = self.state_revision + 1;
        let ticket = QueueTicket {
            ticket_id: ticket_id,
            lobby_session_id: session.lobby_session_id,
            player_id: session.player_id,
            netcode_client_id: session.netcode_client_id,
            catalog_revision: join.catalog_revision,
            game_type_id: join.game_type_id.duplicate(),
            game_type_configuration_revision: join.game_type_configuration_revision,
            accepted_build: summarize_build(&build.snapshot, &resolved),
            build_snapshot: build.snapshot,
            admission_order: admission_order,
            admitted_at_pool_state_revision: revision,
            formation_eligible: false,
        };
        let membership = membership_from_ticket(&ticket);
        self.admit_ticket(ticket, admission_order + 1, revision);
        (QueueDecision::Joined(membership), true, seed)
    }

    fn admit_ticket(&mut self, ticket: QueueTicket, next_order: u64, revision: u64)
        ensures
            final(self)@ == admitted(old(self)@, ticket, next_order, revision),
    {
        proof {
            reveal(admitted);
        }
        let ghost v1 = self@;
        let ticket_id = ticket.ticket_id;
        self.next_admission_order = next_order;
        self.state_revision = revision;
        if let Some(g) = self.find_row(&ticket.game_type_id) {
            if g < self.pools.len() {
                self.pools[g].push(ticket_id);
                assert(self@.pools =~= v1.pools.update(g as int, v1.pools[g as int].push(ticket_id)));
            }
        }
        let entry = ClientTicket { client: ticket.netcode_client_id, ticket: ticket_id };
        match self.find_client(ticket.netcode_client_id) {
            Some(c) => {
                self.client_tickets[c] = entry;
            },
            None => {
                self.client_tickets.push(entry);
            },
        }
        if let Some(m) = self.find_memory(ticket.lobby_session_id) {
            self.memories[m].memory.active_ticket_id = Some(ticket_id);
        }
        self.tickets.push(ticket);
        self.refresh_pool_rows();
        QueueTelemetry::increment(&mut self.telemetry.admissions);
    }

    fn cancel(&mut self, session: &LobbySession, cancel: QueueCancelCommand) -> (outcome: (QueueDecision, bool))
        ensures
            (final(self)@, outcome.0, outcome.1) == cancelled(old(self)@, *session, cancel),
    {
        proof {
            reveal(cancelled);
        }
        if let Some(m) = self.find_memory(session.lobby_session_id) {
            if let Some((ticket_id, outcome)) = &self.memories[m].memory.last_cancelled {
                if *ticket_id == cancel.ticket_id {
                    return (outcome.decision.duplicate(), false);
                }
            }
        }
        match self.find_session_ticket(session.lobby_session_id) {
            Some(i) => {
                let owned = self.tickets[i].ticket_id;
                if owned == cancel.ticket_id {
                    if self.state_revision == u64::MAX {
                        QueueTelemetry::increment(&mut self.telemetry.unavailable_rejections);
                        return (QueueDecision::Rejected(QueueRejection::TemporarilyUnavailable), false);
                    }
                    let revision = self.state_revision + 1;
                    self.remove_ticket(owned);
                    self.state_revision = revision;
                    self.refresh_pool_rows();
                    QueueTelemetry::increment(&mut self.telemetry.cancellations);
                    return (
                        QueueDecision::Cancelled { ticket_id: owned, resulting_pool_state_revision: revision },
                        true,
                    );
                }
            },
            None => {},
        }
        QueueTelemetry::increment(&mut self.telemetry.membership_rejections);
        (QueueDecision::Rejected(QueueRejection::TicketMismatch), false)
    }

    fn refresh_pool_rows(&mut self)
        ensures
            final(self)@ == refresh(old(self)@),
    {
        proof {
            reveal(refresh);
        }
        let ghost before = self@;
        let ghost old_rows = self.pool_rows@;
        let ghost pools = self@.pools;
        let mut i: usize = 0;
        while i < self.pool_rows.len()
            invariant
                i <= self.pool_rows@.len(),
                self.pool_rows@.len() == old_rows.len(),
                pools == before.pools,
                self@ == (QueueView { pool_rows: self.pool_rows@, ..before }),
                forall|j: int| 0 <= j < i ==> #[trigger] self.pool_rows@[j] == refreshed_rows(old_rows, pools)[j],
                forall|j: int| i <= j < old_rows.len() ==> #[trigger] self.pool_rows@[j] == old_rows[j],
            decreases old_rows.len() - i,
        {
            let queued: u16 = if i < self.pools.len() {
                crate::queue::telemetry::saturate_count(self.pools[i].len())
            } else {
                0
            };
            self.pool_rows[i].queued = queued;
            i = i + 1;
        }
        assert(self.pool_rows@ =~= refreshed_rows(old_rows, pools));
        self.observe_counts();
    }
}

/// The membership that a ticket grants.
pub fn membership_from_ticket(ticket: &QueueTicket) -> (membership: crate::wire::QueueMembership)
    ensures
        membership == membership_of(*ticket),
{
    crate::wire::QueueMembership {
        ticket_id: ticket.ticket_id,
        catalog_revision: ticket.catalog_revision,
        game_type_id: ticket.game_type_id.duplicate(),
        game_type_configuration_revision: ticket.game_type_configuration_revision,
        brawler_id: ticket.build_snapshot.brawler_id,
        brawler_revision: ticket.build_snapshot.brawler_revision,
        accepted_build: ticket.accepted_build,
        admitted_at_pool_state_revision: ticket.admitted_at_pool_state_revision,
    }
}

/// The namespace that a random seed selects for ticket identities: the exclusive or of the
/// seed's two 64-bit halves, or one when that is zero.
pub fn ticket_namespace_from_seed(seed: u128) -> (namespace: u64)
    ensures
        namespace == namespace_of_seed(seed),
{
    let high = (seed >> 64u32) as u64;
    let low = (seed & 0xffff_ffff_ffff_ffffu128) as u64;
    let mixed = high ^ low;
    if mixed == 0 {
        1
    } else {
        mixed
    }
}

/// The ticket identity of admission `order` within `namespace`: the namespace in the high 64
/// bits and the order in the low 64 bits, refusing zero.
pub fn ticket_id_in_namespace(namespace: u64, order: u64) -> (id: Option<QueueTicketId>)
    ensures
        id == ticket_id_in(namespace, order),
{
    QueueTicketId::new(((namespace as u128) << 64u32) | (order as u128))
}

/// Whether `session_id` is one of `sessions`.
fn session_listed(sessions: &Vec<LobbySessionId>, session_id: LobbySessionId) -> (listed: bool)
    ensures
        listed == sessions@.contains(session_id),
{
    let mut k: usize = 0;
    while k < sessions.len()
        invariant
            k <= sessions@.len(),
            forall|j: int| 0 <= j < k ==> sessions@[j] != session_id,
        decreases sessions@.len() - k,
    {
        if sessions[k] == session_id {
            return true;
        }
        k = k + 1;
    }
    false
}

/// The ids of `pool` that are not in `removed`, in order.
fn kept_in(pool: &Vec<QueueTicketId>, removed: &Vec<QueueTicketId>) -> (kept: Vec<QueueTicketId>)
    ensures
        kept@ == kept_ids(pool@, removed@),
{
    let mut kept: Vec<QueueTicketId> = Vec::new();
    let mut k: usize = 0;
    while k < pool.len()
        invariant
            k <= pool@.len(),
            kept@ == kept_ids(pool@.subrange(0, k as int), removed@),
        decreases pool@.len() - k,
    {
        proof {
            assert(pool@.subrange(0, k as int + 1).drop_last() =~= pool@.subrange(0, k as int));
        }
        let mut listed = false;
        let mut j: usize = 0;
        while j < removed.len()
            invariant
                j <= removed@.len(),
                k < pool@.len(),
                listed == (exists|x: int| 0 <= x < j && removed@[x] == pool@[k as int]),
            decreases removed@.len() - j,
        {
            if removed[j] == pool[k] {
                listed = true;
            }
            j = j + 1;
        }
        if !listed {
            kept.push(pool[k]);
        }
        k = k + 1;
    }
    assert(pool@.subrange(0, k as int) =~= pool@);
    kept
}

/// Position of ticket `ticket_id` among reservation participants.
fn find_participant(participants: &Vec<ReservedParticipant>, ticket_id: QueueTicketId) -> (found: Option<usize>)
    ensures
        found_at(found, participant_position(participants@, ticket_id), participants@.len() as int),
{
    let mut i: usize = 0;
    while i < participants.len()
        invariant
            i <= participants@.len(),
            forall|j: int| 0 <= j < i ==> (#[trigger] participants@[j]).ticket_id != ticket_id,
        decreases participants@.len() - i,
    {
        if participants[i].ticket_id == ticket_id {
            proof {
                lemma_first_index_at(participants@, |p: ReservedParticipant| p.ticket_id == ticket_id, i as int);
            }
            return Some(i);
        }
        i = i + 1;
    }
    proof {
        lemma_first_index_none(participants@, |p: ReservedParticipant| p.ticket_id == ticket_id);
    }
    None
}

/// Position of ticket `ticket_id` in a pool.
fn find_in_pool(pool: &Vec<QueueTicketId>, ticket_id: QueueTicketId) -> (found: Option<usize>)
    ensures
        found_at(found, pool_position(pool@, ticket_id), pool@.len() as int),
{
    let mut i: usize = 0;
    while i < pool.len()
        invariant
            i <= pool@.len(),
            forall|j: int| 0 <= j < i ==> (#[trigger] pool@[j]) != ticket_id,
        decreases pool@.len() - i,
    {
        if pool[i] == ticket_id {
            proof {
                lemma_first_index_at(pool@, |x: QueueTicketId| x == ticket_id, i as int);
            }
            return Some(i);
        }
        i = i + 1;
    }
    proof {
        lemma_first_index_none(pool@, |x: QueueTicketId| x == ticket_id);
    }
    None
}

} // verus!
