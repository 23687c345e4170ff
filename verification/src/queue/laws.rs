//! Properties that hold across queue operations: how the public revision moves, how ticket
//! identities are issued, and which structure every operation keeps.

use vstd::prelude::*;
use crate::ids::{LobbySessionId, MatchReservationId, QueueRequestId, QueueTicketId};
use crate::wire::{AdmittedBuild, QueueCancelCommand, QueueCommand, QueueDecision};
use crate::session::LobbySession;
use crate::queue::model::{
    QueueView, bump, cancelled, commanded, duplicate_handled, fresh_ticket, admitted, joined,
    observe, refresh, stored, ticket_id_in, ticket_id_value, with_memory, with_session_memory,
    without_ticket, ticket_index, ticket_of_session, lemma_first_index_facts,
    acknowledged, session_removed, roster_reserved, reservation_completed, handoff_marked, initial_view,
    indexes_valid, roster_scan, row_index, ready_ids, formation_ready, QueueCommandResult,
    QueueCommandDisposition, result_of, pool_position, RosterScan,
};
use crate::queue::consistency::{
    queue_consistent, client_free, holds, lemma_initial_consistent, lemma_consistent_indexes_valid,
    lemma_consistent_commanded, lemma_consistent_acknowledged, lemma_consistent_session_removed,
    lemma_consistent_roster_reserved, lemma_consistent_reservation_completed, lemma_consistent_handoff_marked,
    lemma_roster_scan_found, lemma_ready_ids,
};

verus! {

/// Whether two states hold the same membership: the same tickets, pools, pool rows, client
/// index, reservation, admission order and public revision. Command memories, telemetry and
/// the ticket namespace may differ.
pub open spec fn same_membership(a: QueueView, b: QueueView) -> bool {
    &&& a.catalog_revision == b.catalog_revision
    &&& a.pool_rows == b.pool_rows
    &&& a.pools == b.pools
    &&& a.tickets == b.tickets
    &&& a.client_tickets == b.client_tickets
    &&& a.reservation == b.reservation
    &&& a.map_ordinals == b.map_ordinals
    &&& a.next_admission_order == b.next_admission_order
    &&& a.state_revision == b.state_revision
    &&& a.revision_exhausted == b.revision_exhausted
}

/// Whether a drawn ticket namespace survives from `a` to `b`.
pub open spec fn namespace_kept(a: QueueView, b: QueueView) -> bool {
    a.ticket_namespace is Some ==> b.ticket_namespace == a.ticket_namespace
}

pub(crate) proof fn lemma_small_steps_keep_membership(v: QueueView, i: int, m: crate::queue::memory::QueueCommandMemory, c: crate::queue::model::Counter)
    ensures
        same_membership(v, observe(v)) && observe(v).ticket_namespace == v.ticket_namespace,
        same_membership(v, bump(v, c)) && bump(v, c).ticket_namespace == v.ticket_namespace,
        same_membership(v, with_memory(v, i, m)) && with_memory(v, i, m).ticket_namespace == v.ticket_namespace,
{
    reveal(observe);
}

pub(crate) proof fn lemma_stored_keeps_membership(
    v: QueueView,
    session_id: LobbySessionId,
    request_id: QueueRequestId,
    command: QueueCommand,
    decision: crate::wire::QueueDecision,
    now_millis: u64,
    changed: bool,
    remember: bool,
)
    ensures
        same_membership(v, stored(v, session_id, request_id, command, decision, now_millis, changed, remember).0),
        stored(v, session_id, request_id, command, decision, now_millis, changed, remember).0.ticket_namespace
            == v.ticket_namespace,
        stored(v, session_id, request_id, command, decision, now_millis, changed, remember).1.snapshot_changed
            == changed,
{
    reveal(stored);
    reveal(observe);
}

pub(crate) proof fn lemma_duplicate_keeps_membership(
    v: QueueView,
    session_id: LobbySessionId,
    request_id: QueueRequestId,
    command: QueueCommand,
    now_millis: u64,
)
    ensures
        duplicate_handled(v, session_id, request_id, command, now_millis) matches Some((v2, r)) ==> {
            &&& same_membership(v, v2)
            &&& v2.ticket_namespace == v.ticket_namespace
            &&& !r.snapshot_changed
        },
{
    reveal(duplicate_handled);
    reveal(observe);
}

/// The revision and identity facts of a join.
proof fn lemma_joined_facts(
    v: QueueView,
    session: LobbySession,
    join: crate::wire::QueueJoinCommand,
    build: Option<AdmittedBuild>,
    seed: Option<QueueTicketId>,
)
    ensures ({
        let (v2, d, changed) = joined(v, session, join, build, seed);
        &&& namespace_kept(v, v2)
        &&& !changed ==> same_membership(v, v2)
        &&& changed ==> {
            &&& v.state_revision < u64::MAX
            &&& v2.state_revision == v.state_revision + 1
            &&& v.next_admission_order < u64::MAX
            &&& v2.next_admission_order == v.next_admission_order + 1
            &&& v2.tickets.len() == v.tickets.len() + 1
            &&& v2.tickets.drop_last() == v.tickets
            &&& v2.ticket_namespace matches Some(ns) && ticket_id_in(ns, v.next_admission_order)
                == Some(v2.tickets.last().ticket_id)
            &&& v2.tickets.last().admission_order == v.next_admission_order
            &&& v2.tickets.last().lobby_session_id == session.lobby_session_id
        }
        &&& !changed ==> v2.next_admission_order == v.next_admission_order
    }),
{
    reveal(joined);
    reveal(fresh_ticket);
    reveal(admitted);
    reveal(refresh);
    reveal(observe);
    let (v2, d, changed) = joined(v, session, join, build, seed);
    if changed {
        assert(v2.tickets.drop_last() =~= v.tickets);
    }
}

/// The revision facts of a cancellation.
proof fn lemma_cancelled_facts(v: QueueView, session: LobbySession, cancel: crate::wire::QueueCancelCommand)
    ensures ({
        let (v2, d, changed) = cancelled(v, session, cancel);
        &&& v2.ticket_namespace == v.ticket_namespace
        &&& v2.next_admission_order == v.next_admission_order
        &&& !changed ==> same_membership(v, v2)
        &&& changed ==> {
            &&& v.state_revision < u64::MAX
            &&& v2.state_revision == v.state_revision + 1
            &&& v2.tickets.len() + 1 == v.tickets.len()
        }
    }),
{
    reveal(cancelled);
    reveal(refresh);
    reveal(observe);
    reveal(without_ticket);
    let (v2, d, changed) = cancelled(v, session, cancel);
    if changed {
        let t = ticket_of_session(v, session.lobby_session_id).unwrap();
        lemma_first_index_facts(v.tickets, |u: crate::queue::model::QueueTicket| u.lobby_session_id == session.lobby_session_id);
        lemma_first_index_facts(v.tickets, |u: crate::queue::model::QueueTicket| u.ticket_id == t.ticket_id);
        assert(ticket_index(v.tickets, t.ticket_id) >= 0);
    }
}

/// A queue command moves the public revision by exactly one when, and only when, it reports a
/// changed snapshot, and then a join admitted exactly one ticket or a cancellation removed
/// exactly one. A command that
/// reports no change leaves every ticket, pool, pool row, reservation and the admission order
/// as they were.
pub proof fn law_command_revision_tracks_membership(
    v: QueueView,
    session: LobbySession,
    request_id: QueueRequestId,
    command: QueueCommand,
    now_millis: u64,
    build: Option<AdmittedBuild>,
    seed: Option<QueueTicketId>,
)
    ensures ({
        let (v2, result) = commanded(v, session, request_id, command, now_millis, build, seed);
        &&& v2.state_revision == v.state_revision + if result.snapshot_changed { 1int } else { 0int }
        &&& !result.snapshot_changed ==> same_membership(v, v2)
        &&& result.snapshot_changed ==> (command is Join && v2.tickets.len() == v.tickets.len() + 1) || (
        command is Cancel && v2.tickets.len() + 1 == v.tickets.len())
    }),
{
    lemma_command_facts(v, session, request_id, command, now_millis, build, seed);
}

/// Ticket identities are issued in admission order within one namespace: a drawn namespace never
/// changes, the admission order never goes back, and a command that admits a ticket appends it
/// with the identity of the current admission order and advances that order by one.
pub proof fn law_command_issues_next_identity(
    v: QueueView,
    session: LobbySession,
    request_id: QueueRequestId,
    command: QueueCommand,
    now_millis: u64,
    build: Option<AdmittedBuild>,
    seed: Option<QueueTicketId>,
)
    ensures ({
        let (v2, result) = commanded(v, session, request_id, command, now_millis, build, seed);
        &&& namespace_kept(v, v2)
        &&& v2.next_admission_order == v.next_admission_order || v2.next_admission_order == v.next_admission_order + 1
        &&& v2.next_admission_order == v.next_admission_order + 1 ==> {
            &&& v2.tickets.len() == v.tickets.len() + 1
            &&& v2.tickets.drop_last() == v.tickets
            &&& v2.tickets.last().admission_order == v.next_admission_order
            &&& v2.tickets.last().lobby_session_id == session.lobby_session_id
            &&& v2.ticket_namespace matches Some(ns) && ticket_id_in(ns, v.next_admission_order)
                == Some(v2.tickets.last().ticket_id)
        }
    }),
{
    lemma_command_facts(v, session, request_id, command, now_millis, build, seed);
}

/// Within one namespace, identities issued at different admission orders differ, so a retired
/// identity is never issued again.
pub proof fn law_ticket_identities_distinct(namespace: u64, first: u64, second: u64)
    requires
        first != second,
    ensures
        ticket_id_in(namespace, first) is Some && ticket_id_in(namespace, second) is Some ==> ticket_id_in(
            namespace,
            first,
        ) != ticket_id_in(namespace, second),
        ticket_id_value(namespace, first) != ticket_id_value(namespace, second),
{
    assert(first != second ==> ((namespace as u128) << 64u32) | (first as u128) != ((namespace as u128) << 64u32)
        | (second as u128)) by (bit_vector);
}

proof fn lemma_command_facts(
    v: QueueView,
    session: LobbySession,
    request_id: QueueRequestId,
    command: QueueCommand,
    now_millis: u64,
    build: Option<AdmittedBuild>,
    seed: Option<QueueTicketId>,
)
    ensures ({
        let (v2, result) = commanded(v, session, request_id, command, now_millis, build, seed);
        &&& v2.state_revision == v.state_revision + if result.snapshot_changed { 1int } else { 0int }
        &&& !result.snapshot_changed ==> same_membership(v, v2)
        &&& result.snapshot_changed ==> (command is Join && v2.tickets.len() == v.tickets.len() + 1) || (
        command is Cancel && v2.tickets.len() + 1 == v.tickets.len())
        &&& namespace_kept(v, v2)
        &&& v2.next_admission_order == v.next_admission_order || v2.next_admission_order == v.next_admission_order + 1
        &&& v2.next_admission_order == v.next_admission_order + 1 ==> {
            &&& v2.tickets.len() == v.tickets.len() + 1
            &&& v2.tickets.drop_last() == v.tickets
            &&& v2.tickets.last().admission_order == v.next_admission_order
            &&& v2.tickets.last().lobby_session_id == session.lobby_session_id
            &&& v2.ticket_namespace matches Some(ns) && ticket_id_in(ns, v.next_admission_order)
                == Some(v2.tickets.last().ticket_id)
        }
    }),
{
    reveal(commanded);
    let session_id = session.lobby_session_id;
    let v1 = with_session_memory(v, session_id, now_millis);
    assert(same_membership(v, v1) && v1.ticket_namespace == v.ticket_namespace) by {
        reveal(with_session_memory);
    }
    lemma_duplicate_keeps_membership(v1, session_id, request_id, command, now_millis);
    match duplicate_handled(v1, session_id, request_id, command, now_millis) {
        Some(handled) => {},
        None => {
            let i = crate::queue::model::memory_index(v1.memories, session_id);
            let m = crate::queue::memory::refilled(v1.memories[i].memory, now_millis);
            let v2 = with_memory(v1, i, m);
            lemma_small_steps_keep_membership(v1, i, m, crate::queue::model::Counter::ProtocolAbuse);
            if m.pending_outcome is Some || m.rate_limit_notice_until is Some {
                lemma_small_steps_keep_membership(v2, i, m, crate::queue::model::Counter::ProtocolAbuse);
            } else if m.command_tokens == 0 {
                let delay = crate::queue::model::rate_limit_delay(m, now_millis);
                let m2 = crate::queue::memory::QueueCommandMemory {
                    rate_limit_notice_until: Some(crate::queue::memory::sat_add(now_millis, delay)),
                    ..m
                };
                let v3a = with_memory(v2, i, m2);
                lemma_small_steps_keep_membership(v2, i, m2, crate::queue::model::Counter::RateLimitNotices);
                lemma_small_steps_keep_membership(v3a, i, m2, crate::queue::model::Counter::RateLimitNotices);
                let v3 = bump(v3a, crate::queue::model::Counter::RateLimitNotices);
                lemma_stored_keeps_membership(
                    v3,
                    session_id,
                    request_id,
                    command,
                    crate::wire::QueueDecision::Rejected(
                        crate::wire::QueueRejection::RateLimited { retry_after_millis: delay as u16 },
                    ),
                    now_millis,
                    false,
                    true,
                );
            } else {
                let m3 = crate::queue::memory::QueueCommandMemory { command_tokens: (m.command_tokens - 1) as u8, ..m };
                let v3 = with_memory(v2, i, m3);
                lemma_small_steps_keep_membership(v2, i, m3, crate::queue::model::Counter::ProtocolAbuse);
                if m3.last matches Some(last) && request_id.0 < last.request_id.0 {
                    lemma_stored_keeps_membership(
                        v3,
                        session_id,
                        request_id,
                        command,
                        crate::wire::QueueDecision::Rejected(crate::wire::QueueRejection::StaleRequest),
                        now_millis,
                        false,
                        false,
                    );
                } else {
                    let (v4, decision, changed) = match command {
                        QueueCommand::Join(join) => joined(v3, session, join, build, seed),
                        QueueCommand::Cancel(cancel) => cancelled(v3, session, cancel),
                    };
                    match command {
                        QueueCommand::Join(join) => lemma_joined_facts(v3, session, join, build, seed),
                        QueueCommand::Cancel(cancel) => lemma_cancelled_facts(v3, session, cancel),
                    }
                    lemma_stored_keeps_membership(v4, session_id, request_id, command, decision, now_millis, changed, true);
                }
            }
        },
    }
}

/// A new queue authority is consistent, so it passes its index check.
pub proof fn law_new_queue_is_consistent(catalog: crate::catalog::ResolvedLobbyCatalog)
    ensures
        queue_consistent(initial_view(catalog)),
        indexes_valid(initial_view(catalog)),
{
    lemma_initial_consistent(catalog);
    lemma_consistent_indexes_valid(initial_view(catalog));
}

/// A consistent queue passes its index check: at most one ticket per session, the client index
/// naming every ticket, and the pools and reservation holding exactly the held tickets.
pub proof fn law_consistent_queue_passes_index_check(v: QueueView)
    requires
        queue_consistent(v),
    ensures
        indexes_valid(v),
{
    lemma_consistent_indexes_valid(v);
}

/// Every queue command keeps the queue consistent, provided the commanding client holds no other
/// session's ticket (each authenticated client owns one lobby session).
pub proof fn law_command_keeps_consistency(
    v: QueueView,
    session: LobbySession,
    request_id: QueueRequestId,
    command: QueueCommand,
    now_millis: u64,
    build: Option<AdmittedBuild>,
    seed: Option<QueueTicketId>,
)
    requires
        queue_consistent(v),
        client_free(v, session),
    ensures
        queue_consistent(commanded(v, session, request_id, command, now_millis, build, seed).0),
{
    lemma_consistent_commanded(v, session, request_id, command, now_millis, build, seed);
}

/// Acknowledging an outcome keeps the queue consistent.
pub proof fn law_acknowledge_keeps_consistency(v: QueueView, session_id: LobbySessionId, request_id: QueueRequestId)
    requires
        queue_consistent(v),
    ensures
        queue_consistent(acknowledged(v, session_id, request_id).0),
{
    lemma_consistent_acknowledged(v, session_id, request_id);
}

/// Removing a departing session keeps the queue consistent, removes exactly that session's
/// ticket, and, when it removed one, advances the public revision or marks it exhausted.
pub proof fn law_session_removal_removes_exactly_its_ticket(v: QueueView, session_id: LobbySessionId)
    requires
        queue_consistent(v),
    ensures ({
        let (w, removed) = session_removed(v, session_id);
        &&& queue_consistent(w)
        &&& removed == (ticket_of_session(v, session_id) is Some)
        &&& ticket_of_session(w, session_id) is None
        &&& forall|x: QueueTicketId| holds(w, x) <==> holds(v, x) && (ticket_of_session(v, session_id) matches Some(t) ==> x
            != t.ticket_id)
        &&& removed ==> (v.state_revision < u64::MAX && w.state_revision == v.state_revision + 1) || (v.state_revision
            == u64::MAX && w.revision_exhausted)
        &&& !removed ==> w.state_revision == v.state_revision
    }),
{
    lemma_consistent_session_removed(v, session_id);
    reveal(session_removed);
    reveal(refresh);
    reveal(observe);
    reveal(without_ticket);
}

/// Reserving a roster keeps the queue consistent.
pub proof fn law_reservation_keeps_consistency(
    v: QueueView,
    catalog: crate::catalog::ResolvedLobbyCatalog,
    reservation_id: MatchReservationId,
    live: Seq<LobbySessionId>,
)
    requires
        queue_consistent(v),
    ensures
        queue_consistent(roster_reserved(v, catalog, reservation_id, live).0),
{
    lemma_consistent_roster_reserved(v, catalog, reservation_id, live);
}

/// A reserved roster is exact and balanced: it has exactly team count times players per team
/// participants, the i-th plays on team `i % team_count`, and each is a held, acknowledged ticket
/// of a live session.
pub proof fn law_reserved_roster_is_exact_and_balanced(
    v: QueueView,
    catalog: crate::catalog::ResolvedLobbyCatalog,
    reservation_id: MatchReservationId,
    live: Seq<LobbySessionId>,
)
    ensures
        roster_reserved(v, catalog, reservation_id, live).1 matches Some(r) ==> {
            &&& r.team_count > 0
            &&& r.participants.len() == r.team_count * r.players_per_team
            &&& forall|i: int| 0 <= i < r.participants.len() ==> (#[trigger] r.participants[i]).team == i % (r.team_count as int)
            &&& forall|i: int| 0 <= i < r.participants.len() ==> formation_ready(v, (#[trigger] r.participants[i]).ticket_id, live)
            &&& !r.handoff_ready
            &&& r.reservation_id == reservation_id
        },
{
    reveal(roster_reserved);
    let games = catalog.game_types@;
    lemma_roster_scan_found(v, games, live, games.len() as int);
    if let Some(r) = roster_reserved(v, catalog, reservation_id, live).1 {
        let c = roster_scan(v, games, live, games.len() as int)->Best_0->0;
        let game = games[c.index];
        let g = row_index(v.pool_rows, game.id);
        let ready = ready_ids(v, v.pools[g], live);
        let f = game.team_count * game.players_per_team;
        lemma_ready_ids(v, v.pools[g], live);
        assert(game.team_count > 0) by (nonlinear_arith)
            requires
                f == game.team_count * game.players_per_team,
                f > 0,
        ;
        assert forall|i: int| 0 <= i < r.participants.len() implies formation_ready(v, (#[trigger] r.participants[i]).ticket_id, live) by {
            assert(r.participants[i].ticket_id == c.selected[i]);
            assert(c.selected[i] == ready[i]);
            assert(ready.contains(ready[i]));
        }
    }
}

/// Completing a reservation keeps the queue consistent.
pub proof fn law_completion_keeps_consistency(v: QueueView, reservation_id: MatchReservationId)
    requires
        queue_consistent(v),
    ensures
        queue_consistent(reservation_completed(v, reservation_id).0),
{
    lemma_consistent_reservation_completed(v, reservation_id);
}

/// Marking a reservation ready for handoff keeps the queue consistent.
pub proof fn law_handoff_keeps_consistency(v: QueueView, reservation_id: MatchReservationId)
    requires
        queue_consistent(v),
    ensures
        queue_consistent(handoff_marked(v, reservation_id).0),
{
    lemma_consistent_handoff_marked(v, reservation_id);
}


/// Whether a queue call's result is coherent: a snapshot change is only ever reported together
/// with a freshly ready outcome, so a disconnect, a suppressed or early retry, or an
/// acknowledgement never reports one.
pub open spec fn result_coherent(r: QueueCommandResult) -> bool {
    r.snapshot_changed ==> r.disposition == QueueCommandDisposition::OutcomeReady
}

/// Every queue command reports a snapshot change only with a ready outcome, and a disconnect
/// never comes with a snapshot change.
pub proof fn law_command_result_coherent(
    v: QueueView,
    session: LobbySession,
    request_id: QueueRequestId,
    command: QueueCommand,
    now_millis: u64,
    admitted_build: Option<AdmittedBuild>,
    seed: Option<QueueTicketId>,
)
    ensures
        result_coherent(commanded(v, session, request_id, command, now_millis, admitted_build, seed).1),
        commanded(v, session, request_id, command, now_millis, admitted_build, seed).1.disposition
            == QueueCommandDisposition::Disconnect ==> !commanded(
            v,
            session,
            request_id,
            command,
            now_millis,
            admitted_build,
            seed,
        ).1.snapshot_changed,
{
    reveal(commanded);
    reveal(duplicate_handled);
    reveal(stored);
}

/// An acknowledgement never reports a snapshot change.
pub proof fn law_acknowledge_never_changes_snapshot(v: QueueView, session_id: LobbySessionId, request_id: QueueRequestId)
    ensures
        !acknowledged(v, session_id, request_id).1.snapshot_changed,
        result_coherent(acknowledged(v, session_id, request_id).1),
{
    reveal(acknowledged);
}

/// The default result is idle: no outcome, no disconnect and no snapshot change.
pub proof fn law_default_result_is_idle()
    ensures
        result_of(QueueCommandDisposition::Idle).disposition == QueueCommandDisposition::Idle,
        !result_of(QueueCommandDisposition::Idle).snapshot_changed,
        result_coherent(result_of(QueueCommandDisposition::Idle)),
{
}

/// Whether `after` is `before` with ticket `id` taken out of the pools that hold it, every
/// other ticket keeping its place in first-in, first-out order, and the other pools unchanged.
pub open spec fn pools_without_keep_order(before: Seq<Seq<QueueTicketId>>, after: Seq<Seq<QueueTicketId>>, id: QueueTicketId) -> bool {
    &&& after.len() == before.len()
    &&& forall|g: int|
        0 <= g < before.len() ==> {
            ||| #[trigger] after[g] == before[g]
            ||| {
                let p = pool_position(before[g], id);
                &&& 0 <= p < before[g].len()
                &&& before[g][p] == id
                &&& after[g] == before[g].remove(p)
            }
        }
    &&& forall|g: int| 0 <= g < before.len() && !before[g].contains(id) ==> #[trigger] after[g] == before[g]
}

/// Removing a ticket takes it out of its pool by position: the other tickets of that pool keep
/// their first-in, first-out order and every other pool is unchanged.
pub proof fn law_ticket_removal_keeps_fifo(v: QueueView, id: QueueTicketId)
    ensures
        pools_without_keep_order(v.pools, without_ticket(v, id).pools, id),
{
    reveal(without_ticket);
    let i = ticket_index(v.tickets, id);
    if i >= 0 {
        let t = v.tickets[i];
        let g = row_index(v.pool_rows, t.game_type_id);
        if 0 <= g < v.pools.len() && pool_position(v.pools[g], id) >= 0 {
            lemma_first_index_facts(v.pools[g], |x: QueueTicketId| x == id);
            let p = pool_position(v.pools[g], id);
            assert(v.pools[g][p] == id);
            assert(v.pools[g].contains(id));
        }
    }
}

/// A successful cancellation of a queued ticket removes it from its pool: the pool's other
/// tickets keep their first-in, first-out order, every other pool is unchanged, and the public
/// revision moves by one. A refused or replayed cancellation leaves every pool unchanged.
pub proof fn law_cancellation_keeps_fifo(v: QueueView, session: LobbySession, cancel: QueueCancelCommand)
    ensures
        ({
            let (after, decision, changed) = cancelled(v, session, cancel);
            &&& changed ==> decision == (QueueDecision::Cancelled {
                ticket_id: cancel.ticket_id,
                resulting_pool_state_revision: (v.state_revision + 1) as u64,
            })
            &&& changed ==> after.state_revision == v.state_revision + 1
            &&& changed ==> pools_without_keep_order(v.pools, after.pools, cancel.ticket_id)
            &&& !changed ==> after.pools == v.pools
        }),
{
    reveal(cancelled);
    reveal(refresh);
    reveal(observe);
    law_ticket_removal_keeps_fifo(v, cancel.ticket_id);
}

/// A queue cancellation that reports a snapshot change took the ticket out of its pool: the
/// pool's other tickets keep their first-in, first-out order, every other pool is unchanged,
/// and the public revision moved by one.
pub proof fn law_command_cancellation_keeps_fifo(
    v: QueueView,
    session: LobbySession,
    request_id: QueueRequestId,
    cancel: QueueCancelCommand,
    now_millis: u64,
    admitted_build: Option<AdmittedBuild>,
    seed: Option<QueueTicketId>,
)
    ensures
        ({
            let (after, result) = commanded(
                v,
                session,
                request_id,
                QueueCommand::Cancel(cancel),
                now_millis,
                admitted_build,
                seed,
            );
            result.snapshot_changed ==> {
                &&& pools_without_keep_order(v.pools, after.pools, cancel.ticket_id)
                &&& after.state_revision == v.state_revision + 1
            }
        }),
{
    reveal(commanded);
    reveal(with_session_memory);
    let command = QueueCommand::Cancel(cancel);
    let session_id = session.lobby_session_id;
    let v1 = with_session_memory(v, session_id, now_millis);
    assert(v1.pools == v.pools && v1.state_revision == v.state_revision);
    lemma_duplicate_keeps_membership(v1, session_id, request_id, command, now_millis);
    reveal(duplicate_handled);
    if duplicate_handled(v1, session_id, request_id, command, now_millis) is None {
        let i = crate::queue::model::memory_index(v1.memories, session_id);
        let m = crate::queue::memory::refilled(v1.memories[i].memory, now_millis);
        let v2 = with_memory(v1, i, m);
        if m.pending_outcome is Some || m.rate_limit_notice_until is Some {
        } else if m.command_tokens == 0 {
            reveal(stored);
        } else {
            let m3 = crate::queue::memory::QueueCommandMemory { command_tokens: (m.command_tokens - 1) as u8, ..m };
            let v3 = with_memory(v2, i, m3);
            assert(v3.pools == v.pools && v3.state_revision == v.state_revision);
            reveal(stored);
            if !(m3.last matches Some(last) && request_id.0 < last.request_id.0) {
                law_cancellation_keeps_fifo(v3, session, cancel);
                let (v4, decision, changed) = cancelled(v3, session, cancel);
                lemma_stored_keeps_membership(v4, session_id, request_id, command, decision, now_millis, changed, true);
            }
        }
    }
}

/// Moving the public revision and the next admission order forward keeps a consistent queue
/// consistent.
pub proof fn law_advanced_counters_keep_consistency(v: QueueView, state_revision: u64, next_admission_order: u64)
    requires
        queue_consistent(v),
        next_admission_order >= v.next_admission_order,
    ensures
        queue_consistent(QueueView { state_revision, next_admission_order, ..v }),
{
    let w = QueueView { state_revision, next_admission_order, ..v };
    assert(w.pools == v.pools && w.tickets == v.tickets && w.reservation == v.reservation);
    assert forall|id: QueueTicketId| #[trigger] crate::queue::model::pooled(w, id) implies !crate::queue::model::reserved(w, id) && holds(w, id) by {
        assert(crate::queue::model::pooled(v, id));
    }
    assert forall|id: QueueTicketId| #[trigger] crate::queue::model::reserved(w, id) implies holds(w, id) by {
        assert(crate::queue::model::reserved(v, id));
    }
}

/// For any queue state, removing a session reports a removal exactly when the session held a
/// ticket; a removal advances the public revision, or marks it exhausted when none is left; and
/// without one, the tickets, pools, client index, reservation and revision stay as they were.
pub proof fn law_session_removal_effects(v: QueueView, session_id: LobbySessionId)
    ensures
        ({
            let (w, removed) = session_removed(v, session_id);
            &&& removed == (ticket_of_session(v, session_id) is Some)
            &&& removed ==> (v.state_revision < u64::MAX && w.state_revision == v.state_revision + 1) || (
            v.state_revision == u64::MAX && w.state_revision == u64::MAX && w.revision_exhausted)
            &&& !removed ==> {
                &&& w.tickets == v.tickets
                &&& w.pools == v.pools
                &&& w.client_tickets == v.client_tickets
                &&& w.reservation == v.reservation
                &&& w.state_revision == v.state_revision
            }
        }),
{
    reveal(session_removed);
    reveal(refresh);
    reveal(observe);
    reveal(without_ticket);
}

/// Whether the pool of the `i`-th game type of `games` holds a complete roster of
/// formation-ready tickets.
#[verifier::opaque]
pub open spec fn roster_ready_for(
    v: QueueView,
    games: Seq<crate::catalog::AdvertisedGameType>,
    live: Seq<LobbySessionId>,
    i: int,
) -> bool {
    let g = row_index(v.pool_rows, games[i].id);
    &&& 0 <= g < v.pools.len()
    &&& ready_ids(v, v.pools[g], live).len() >= games[i].team_count * games[i].players_per_team
}

/// Whether every game type of `games` has a pool in `v` and a formation of at least one seat.
pub open spec fn pools_follow_games(v: QueueView, games: Seq<crate::catalog::AdvertisedGameType>) -> bool {
    forall|i: int|
        0 <= i < games.len() ==> {
            &&& 0 <= #[trigger] row_index(v.pool_rows, games[i].id) < v.pools.len()
            &&& games[i].team_count * games[i].players_per_team > 0
        }
}

#[verifier::spinoff_prover]
proof fn lemma_roster_scan_step(
    v: QueueView,
    games: Seq<crate::catalog::AdvertisedGameType>,
    live: Seq<LobbySessionId>,
    k: int,
)
    requires
        0 < k <= games.len(),
        pools_follow_games(v, games),
        roster_scan(v, games, live, k - 1) is Best,
    ensures
        roster_scan(v, games, live, k) is Best,
        (roster_scan(v, games, live, k)->Best_0 is Some) <==> (roster_scan(v, games, live, k - 1)->Best_0 is Some
            || roster_ready_for(v, games, live, k - 1)),
{
    reveal(roster_ready_for);
    let game = games[k - 1];
    let g = row_index(v.pool_rows, game.id);
    assert(0 <= g < v.pools.len() && game.team_count * game.players_per_team > 0);
    let ready = ready_ids(v, v.pools[g], live);
    let f = game.team_count * game.players_per_team;
    if ready.len() >= f {
        lemma_ready_ids(v, v.pools[g], live);
        let selected = ready.take(f);
        assert(selected[0] == ready[0]);
        assert(ready.contains(ready[0]));
        assert(formation_ready(v, ready[0], live));
        assert(crate::queue::model::ticket_with_id(v, selected[0]) is Some);
    }
}

#[verifier::spinoff_prover]
proof fn lemma_roster_scan_step_exact(
    v: QueueView,
    games: Seq<crate::catalog::AdvertisedGameType>,
    live: Seq<LobbySessionId>,
    k: int,
)
    requires
        0 < k <= games.len(),
        pools_follow_games(v, games),
    ensures
        !roster_ready_for(v, games, live, k - 1) ==> scan_best(v, games, live, k) == scan_best(v, games, live, k - 1),
        roster_ready_for(v, games, live, k - 1) ==> {
            let head = roster_head(v, games, live, k - 1);
            let best = scan_best(v, games, live, k - 1);
            let kept = best matches Some(c) && !crate::queue::model::key_before(head.admission_order, head.ticket_id.0, k - 1, c);
            &&& kept ==> scan_best(v, games, live, k) == best
            &&& !kept ==> (scan_best(v, games, live, k) matches Some(c) && c.order == head.admission_order
                && c.ticket == head.ticket_id.0 && c.index == k - 1)
        },
        (scan_best(v, games, live, k - 1) is Some) <==> exists|j: int| 0 <= j < k - 1 && #[trigger] roster_ready_for(v, games, live, j),
{
    reveal(scan_best);
    reveal(roster_head);
    lemma_roster_scan_finds_ready(v, games, live, k - 1);
    reveal(roster_ready_for);
    let game = games[k - 1];
    let g = row_index(v.pool_rows, game.id);
    assert(0 <= g < v.pools.len() && game.team_count * game.players_per_team > 0);
    let ready = ready_ids(v, v.pools[g], live);
    let f = game.team_count * game.players_per_team;
    if ready.len() >= f {
        lemma_ready_ids(v, v.pools[g], live);
        let selected = ready.take(f);
        assert(selected[0] == ready[0]);
        assert(ready.contains(ready[0]));
        assert(formation_ready(v, ready[0], live));
        assert(crate::queue::model::ticket_with_id(v, selected[0]) is Some);
    }
}

/// The best roster a scan of the first `k` game types found, if any.
#[verifier::opaque]
pub open spec fn scan_best(
    v: QueueView,
    games: Seq<crate::catalog::AdvertisedGameType>,
    live: Seq<LobbySessionId>,
    k: int,
) -> Option<crate::queue::model::RosterCandidate> {
    match roster_scan(v, games, live, k) {
        RosterScan::Best(best) => best,
        RosterScan::Aborted => None,
    }
}

#[verifier::spinoff_prover]
#[verifier::rlimit(40)]
proof fn lemma_roster_scan_finds_ready(
    v: QueueView,
    games: Seq<crate::catalog::AdvertisedGameType>,
    live: Seq<LobbySessionId>,
    k: int,
)
    requires
        0 <= k <= games.len(),
        pools_follow_games(v, games),
    ensures
        roster_scan(v, games, live, k) is Best,
        (roster_scan(v, games, live, k)->Best_0 is Some) <==> exists|i: int| 0 <= i < k && #[trigger] roster_ready_for(v, games, live, i),
    decreases k,
{
    if k > 0 {
        lemma_roster_scan_finds_ready(v, games, live, k - 1);
        lemma_roster_scan_step(v, games, live, k);
        if roster_ready_for(v, games, live, k - 1) {
            assert(0 <= k - 1 < k && roster_ready_for(v, games, live, k - 1));
        } else {
            assert forall|i: int| 0 <= i < k && #[trigger] roster_ready_for(v, games, live, i) implies i < k - 1 by {
            }
        }
    }
}

/// A reservation attempt makes none exactly when a reservation is outstanding, the public
/// revision has run out, or no game type's pool holds a complete roster of formation-ready
/// tickets of live sessions; and when it makes none, the queue is unchanged.
pub proof fn law_reservation_refused_exactly_without_roster(
    v: QueueView,
    catalog: crate::catalog::ResolvedLobbyCatalog,
    reservation_id: MatchReservationId,
    live: Seq<LobbySessionId>,
)
    requires
        pools_follow_games(v, catalog.game_types@),
    ensures
        ({
            let (w, r) = roster_reserved(v, catalog, reservation_id, live);
            &&& r is None <==> (v.reservation is Some || v.state_revision == u64::MAX || forall|i: int|
                0 <= i < catalog.game_types@.len() ==> !#[trigger] roster_ready_for(v, catalog.game_types@, live, i))
            &&& r is None ==> w == v
        }),
{
    reveal(roster_reserved);
    let games = catalog.game_types@;
    lemma_roster_scan_finds_ready(v, games, live, games.len() as int);
}

/// A queue built from a resolved catalog whose game types each seat at least one player has a
/// pool for every game type, so its reservation attempts are refused exactly as
/// `law_reservation_refused_exactly_without_roster` states.
pub proof fn law_new_queue_pools_follow_games(catalog: crate::catalog::ResolvedLobbyCatalog)
    requires
        catalog.well_formed(),
        forall|i: int|
            0 <= i < catalog.game_types@.len() ==> #[trigger] catalog.game_types@[i].team_count
                * catalog.game_types@[i].players_per_team > 0,
    ensures
        pools_follow_games(initial_view(catalog), catalog.game_types@),
{
    let games = catalog.game_types@;
    let v = initial_view(catalog);
    assert forall|i: int| 0 <= i < games.len() implies 0 <= #[trigger] row_index(v.pool_rows, games[i].id) < v.pools.len() by {
        let p = |r: crate::wire::QueuePoolRow| crate::wire::same_game(r.game_type_id, games[i].id);
        assert(p(v.pool_rows[i]));
        assert forall|j: int| 0 <= j < i implies !p(#[trigger] v.pool_rows[j]) by {
            assert(v.pool_rows[j].game_type_id == games[j].id);
        }
        crate::queue::model::lemma_first_index_at(v.pool_rows, p, i);
    }
}

/// The ticket namespace is drawn once, from the first seed the identity source yields: it is
/// the exclusive or of the seed's halves, or one when that is zero, and every identity issued
/// afterwards is the admission order within that namespace, whatever later seeds would be.
pub proof fn law_fresh_ticket_namespace_drawn_once(v: QueueView, order: u64, seed: Option<QueueTicketId>)
    ensures
        ({
            let (w, id) = fresh_ticket(v, order, seed);
            match v.ticket_namespace {
                Some(ns) => w == v && id == ticket_id_in(ns, order),
                None => match seed {
                    Some(s) => {
                        &&& w.ticket_namespace == Some(crate::queue::model::namespace_of_seed(s.0))
                        &&& crate::queue::model::namespace_of_seed(s.0) != 0
                        &&& id == ticket_id_in(crate::queue::model::namespace_of_seed(s.0), order)
                    },
                    None => w == v && id is None,
                },
            }
        }),
{
    reveal(fresh_ticket);
}

/// The first formation-ready ticket of the pool of the `i`-th game type of `games`.
#[verifier::opaque]
pub open spec fn roster_head(
    v: QueueView,
    games: Seq<crate::catalog::AdvertisedGameType>,
    live: Seq<LobbySessionId>,
    i: int,
) -> crate::queue::model::QueueTicket {
    let g = row_index(v.pool_rows, games[i].id);
    crate::queue::model::ticket_with_id(v, ready_ids(v, v.pools[g], live)[0])->Some_0
}

/// Whether the roster of game type `i`, headed by `a`, is older than that of game type `j`,
/// headed by `b`: by admission order, then ticket identity, then catalog order.
pub open spec fn roster_older(a: crate::queue::model::QueueTicket, i: int, b: crate::queue::model::QueueTicket, j: int) -> bool {
    a.admission_order < b.admission_order || (a.admission_order == b.admission_order && (a.ticket_id.0 < b.ticket_id.0 || (
    a.ticket_id.0 == b.ticket_id.0 && i < j)))
}

#[verifier::spinoff_prover]
proof fn lemma_roster_scan_oldest(
    v: QueueView,
    games: Seq<crate::catalog::AdvertisedGameType>,
    live: Seq<LobbySessionId>,
    k: int,
)
    requires
        0 <= k <= games.len(),
        pools_follow_games(v, games),
    ensures
        scan_best(v, games, live, k) matches Some(c) ==> {
            &&& 0 <= c.index < k
            &&& roster_ready_for(v, games, live, c.index)
            &&& c.order == roster_head(v, games, live, c.index).admission_order
            &&& c.ticket == roster_head(v, games, live, c.index).ticket_id.0
            &&& forall|i: int|
                0 <= i < k && #[trigger] roster_ready_for(v, games, live, i) ==> !roster_older(
                    roster_head(v, games, live, i),
                    i,
                    roster_head(v, games, live, c.index),
                    c.index,
                )
        },
    decreases k,
{
    if k == 0 {
        reveal(scan_best);
    } else {
        lemma_roster_scan_oldest(v, games, live, k - 1);
        lemma_roster_scan_step_exact(v, games, live, k);
        let best = scan_best(v, games, live, k - 1);
        if roster_ready_for(v, games, live, k - 1) {
            let head = roster_head(v, games, live, k - 1);
            if best matches Some(c) && !crate::queue::model::key_before(head.admission_order, head.ticket_id.0, k - 1, c) {
                let c = best->Some_0;
                let hc = roster_head(v, games, live, c.index);
                assert(!roster_older(head, k - 1, hc, c.index));
            } else {
                let c2 = scan_best(v, games, live, k)->Some_0;
                assert forall|i: int|
                    0 <= i < k && #[trigger] roster_ready_for(v, games, live, i) implies !roster_older(
                    roster_head(v, games, live, i),
                    i,
                    roster_head(v, games, live, c2.index),
                    c2.index,
                ) by {
                    if i < k - 1 {
                        let c = best->Some_0;
                        let hc = roster_head(v, games, live, c.index);
                        assert(!roster_older(roster_head(v, games, live, i), i, hc, c.index));
                    }
                }
            }
        } else {
            assert forall|i: int| 0 <= i < k && #[trigger] roster_ready_for(v, games, live, i) implies i < k - 1 by {
            }
        }
    }
}

/// A reservation takes the oldest complete roster: the reserved game type's pool holds a
/// complete roster of formation-ready tickets, and no other game type's complete roster is
/// headed by an older ticket (by admission order, then identity, then catalog order).
pub proof fn law_reservation_takes_oldest_roster(
    v: QueueView,
    catalog: crate::catalog::ResolvedLobbyCatalog,
    reservation_id: MatchReservationId,
    live: Seq<LobbySessionId>,
)
    requires
        pools_follow_games(v, catalog.game_types@),
    ensures
        roster_reserved(v, catalog, reservation_id, live).1 matches Some(r) ==> exists|c: int|
            0 <= c < catalog.game_types@.len() && r.game_type_id == catalog.game_types@[c].id && #[trigger] roster_ready_for(
                v,
                catalog.game_types@,
                live,
                c,
            ) && forall|i: int|
                0 <= i < catalog.game_types@.len() && #[trigger] roster_ready_for(v, catalog.game_types@, live, i)
                    ==> !roster_older(
                    roster_head(v, catalog.game_types@, live, i),
                    i,
                    roster_head(v, catalog.game_types@, live, c),
                    c,
                ),
{
    reveal(roster_reserved);
    let games = catalog.game_types@;
    lemma_roster_scan_oldest(v, games, live, games.len() as int);
    reveal(scan_best);
    if let RosterScan::Best(Some(c)) = roster_scan(v, games, live, games.len() as int) {
        assert(roster_ready_for(v, games, live, c.index));
    }
}

/// An acknowledgement that was answered as idle may be repeated: acknowledging the same
/// request again is idle too and changes nothing.
pub proof fn law_repeated_acknowledgement_is_idle(v: QueueView, session_id: LobbySessionId, request_id: QueueRequestId)
    ensures
        acknowledged(v, session_id, request_id).1 == result_of(QueueCommandDisposition::Idle) ==> ({
            let w = acknowledged(v, session_id, request_id).0;
            acknowledged(w, session_id, request_id) == (w, result_of(QueueCommandDisposition::Idle))
        }),
{
    reveal(acknowledged);
    reveal(observe);
    let i = crate::queue::model::memory_index(v.memories, session_id);
    if i >= 0 && acknowledged(v, session_id, request_id).1 == result_of(QueueCommandDisposition::Idle) {
        let w = acknowledged(v, session_id, request_id).0;
        let p = |m: crate::queue::model::SessionMemory| m.session_id == session_id;
        lemma_first_index_facts(v.memories, p);
        assert(w.memories.len() == v.memories.len());
        assert forall|j: int| 0 <= j < v.memories.len() implies p(#[trigger] v.memories[j]) == p(w.memories[j]) by {
        }
        crate::queue::consistency::lemma_first_index_agree(v.memories, p, w.memories, p);
        assert(crate::queue::model::memory_index(w.memories, session_id) == i);
    }
}

/// One call on the queue authority, with the values it is made with; a command carries the
/// seed its identity source would yield.
pub enum QueueStep {
    Command {
        session: LobbySession,
        request_id: QueueRequestId,
        command: QueueCommand,
        now_millis: u64,
        build: Option<AdmittedBuild>,
        seed: Option<QueueTicketId>,
    },
    Acknowledge { session_id: LobbySessionId, request_id: QueueRequestId },
    RemoveSession { session_id: LobbySessionId },
    Reserve { reservation_id: MatchReservationId, live: Seq<LobbySessionId> },
    Complete { reservation_id: MatchReservationId },
    MarkHandoffReady { reservation_id: MatchReservationId },
}

/// The state after one call, reserving over `catalog`.
pub open spec fn after_step(v: QueueView, catalog: crate::catalog::ResolvedLobbyCatalog, step: QueueStep) -> QueueView {
    match step {
        QueueStep::Command { session, request_id, command, now_millis, build, seed } => commanded(
            v,
            session,
            request_id,
            command,
            now_millis,
            build,
            seed,
        ).0,
        QueueStep::Acknowledge { session_id, request_id } => acknowledged(v, session_id, request_id).0,
        QueueStep::RemoveSession { session_id } => session_removed(v, session_id).0,
        QueueStep::Reserve { reservation_id, live } => roster_reserved(v, catalog, reservation_id, live).0,
        QueueStep::Complete { reservation_id } => reservation_completed(v, reservation_id).0,
        QueueStep::MarkHandoffReady { reservation_id } => handoff_marked(v, reservation_id).0,
    }
}

/// The state after the calls `steps`, in order.
pub open spec fn after_steps(v: QueueView, catalog: crate::catalog::ResolvedLobbyCatalog, steps: Seq<QueueStep>) -> QueueView
    decreases steps.len(),
{
    if steps.len() == 0 {
        v
    } else {
        after_step(after_steps(v, catalog, steps.drop_last()), catalog, steps.last())
    }
}

/// Whether every command among `steps` comes from a client that holds no other session's
/// ticket in the state it is made in, as the lobby guarantees by giving each client one session.
pub open spec fn commands_from_own_sessions(
    v: QueueView,
    catalog: crate::catalog::ResolvedLobbyCatalog,
    steps: Seq<QueueStep>,
) -> bool
    decreases steps.len(),
{
    if steps.len() == 0 {
        true
    } else {
        &&& commands_from_own_sessions(v, catalog, steps.drop_last())
        &&& (steps.last() matches QueueStep::Command { session, .. } ==> client_free(
            after_steps(v, catalog, steps.drop_last()),
            session,
        ))
    }
}

/// Every state reached from a new queue by any sequence of commands, acknowledgements, session
/// removals, reservations, completions and handoff marks is consistent and passes the index
/// check, as long as each command's client holds no other session's ticket.
pub proof fn law_reachable_queue_passes_index_check(
    catalog: crate::catalog::ResolvedLobbyCatalog,
    steps: Seq<QueueStep>,
)
    requires
        commands_from_own_sessions(initial_view(catalog), catalog, steps),
    ensures
        queue_consistent(after_steps(initial_view(catalog), catalog, steps)),
        indexes_valid(after_steps(initial_view(catalog), catalog, steps)),
    decreases steps.len(),
{
    let v0 = initial_view(catalog);
    if steps.len() == 0 {
        lemma_initial_consistent(catalog);
    } else {
        law_reachable_queue_passes_index_check(catalog, steps.drop_last());
        let v = after_steps(v0, catalog, steps.drop_last());
        match steps.last() {
            QueueStep::Command { session, request_id, command, now_millis, build, seed } => {
                lemma_consistent_commanded(v, session, request_id, command, now_millis, build, seed);
            },
            QueueStep::Acknowledge { session_id, request_id } => {
                lemma_consistent_acknowledged(v, session_id, request_id);
            },
            QueueStep::RemoveSession { session_id } => {
                lemma_consistent_session_removed(v, session_id);
            },
            QueueStep::Reserve { reservation_id, live } => {
                lemma_consistent_roster_reserved(v, catalog, reservation_id, live);
            },
            QueueStep::Complete { reservation_id } => {
                lemma_consistent_reservation_completed(v, reservation_id);
            },
            QueueStep::MarkHandoffReady { reservation_id } => {
                lemma_consistent_handoff_marked(v, reservation_id);
            },
        }
        lemma_consistent_indexes_valid(after_steps(v0, catalog, steps));
    }
}

/// The first handoff mark of the outstanding reservation raises the map ordinal of its game
/// type's pool row by one, saturating, and leaves every other row's ordinal as it was; any other
/// mark changes nothing.
pub proof fn law_handoff_mark_advances_map_rotation(v: QueueView, reservation_id: MatchReservationId)
    ensures
        ({
            let (w, marked) = handoff_marked(v, reservation_id);
            &&& marked <==> (v.reservation matches Some(r) && r.reservation_id == reservation_id && !r.handoff_ready)
            &&& !marked ==> w == v
            &&& marked ==> {
                let r = v.reservation->Some_0;
                let g = row_index(v.pool_rows, r.game_type_id);
                &&& w.reservation matches Some(x) && x.handoff_ready && x.reservation_id == r.reservation_id
                    && x.game_type_id == r.game_type_id && x.map_preset_id == r.map_preset_id
                    && x.participants == r.participants
                &&& w.map_ordinals.len() == v.map_ordinals.len()
                &&& forall|k: int| 0 <= k < v.map_ordinals.len() && k != g ==> #[trigger] w.map_ordinals[k] == v.map_ordinals[k]
                &&& 0 <= g < v.map_ordinals.len() ==> w.map_ordinals[g] as int == if v.map_ordinals[g] == u64::MAX {
                    u64::MAX as int
                } else {
                    v.map_ordinals[g] + 1
                }
                &&& w.pool_rows == v.pool_rows && w.pools == v.pools && w.tickets == v.tickets
            }
        }),
{
    reveal(handoff_marked);
}

/// Whether `b` keeps the game type of every pool row of `a`, and its map ordinals.
pub open spec fn rows_and_ordinals_kept(a: QueueView, b: QueueView) -> bool {
    &&& b.pool_rows.len() == a.pool_rows.len()
    &&& forall|i: int| 0 <= i < a.pool_rows.len() ==> #[trigger] b.pool_rows[i].game_type_id == a.pool_rows[i].game_type_id
    &&& b.map_ordinals == a.map_ordinals
}

proof fn lemma_row_index_kept(a: QueueView, b: QueueView, id: crate::wire::GameTypeId)
    requires
        b.pool_rows.len() == a.pool_rows.len(),
        forall|i: int| 0 <= i < a.pool_rows.len() ==> #[trigger] b.pool_rows[i].game_type_id == a.pool_rows[i].game_type_id,
    ensures
        row_index(b.pool_rows, id) == row_index(a.pool_rows, id),
{
    let p = |r: crate::wire::QueuePoolRow| crate::wire::same_game(r.game_type_id, id);
    assert forall|i: int| 0 <= i < a.pool_rows.len() implies p(#[trigger] a.pool_rows[i]) == p(b.pool_rows[i]) by {
    }
    crate::queue::consistency::lemma_first_index_agree(a.pool_rows, p, b.pool_rows, p);
}

proof fn lemma_without_tickets_keeps_rows(v: QueueView, tickets: Seq<crate::queue::model::QueueTicket>)
    ensures
        crate::queue::model::without_tickets(v, tickets).pool_rows == v.pool_rows,
        crate::queue::model::without_tickets(v, tickets).map_ordinals == v.map_ordinals,
    decreases tickets.len(),
{
    reveal(without_ticket);
    if tickets.len() > 0 {
        lemma_without_tickets_keeps_rows(v, tickets.drop_last());
    }
}

proof fn lemma_reserve_and_complete_keep_rows(
    v: QueueView,
    catalog: crate::catalog::ResolvedLobbyCatalog,
    reservation_id: MatchReservationId,
    live: Seq<LobbySessionId>,
)
    ensures
        rows_and_ordinals_kept(v, roster_reserved(v, catalog, reservation_id, live).0),
        rows_and_ordinals_kept(v, reservation_completed(v, reservation_id).0),
{
    reveal(roster_reserved);
    reveal(reservation_completed);
    reveal(refresh);
    reveal(observe);
    if let Some(r) = v.reservation {
        if r.reservation_id == reservation_id {
            let tickets = crate::queue::model::participant_tickets(v, r.participants);
            lemma_without_tickets_keeps_rows(v, tickets);
        }
    }
}

/// The map ordinal of pool row `g` as a map index: zero for a missing row or an ordinal past
/// the platform's index range.
pub open spec fn ordinal_index(v: QueueView, g: int) -> int {
    let ordinal = if 0 <= g < v.map_ordinals.len() {
        v.map_ordinals[g]
    } else {
        0
    };
    if ordinal <= usize::MAX {
        ordinal as int
    } else {
        0
    }
}

proof fn lemma_reserved_map(
    v: QueueView,
    catalog: crate::catalog::ResolvedLobbyCatalog,
    reservation_id: MatchReservationId,
    live: Seq<LobbySessionId>,
)
    ensures
        roster_reserved(v, catalog, reservation_id, live).1 matches Some(r) ==> exists|c: int|
            0 <= c < catalog.game_types@.len() && #[trigger] catalog.game_types@[c].id == r.game_type_id
                && r.map_preset_id == catalog.game_types@[c].map_preset_ids@[ordinal_index(
                v,
                row_index(v.pool_rows, r.game_type_id),
            ) % (catalog.game_types@[c].map_preset_ids@.len() as int)],
{
    reveal(roster_reserved);
    let games = catalog.game_types@;
    lemma_roster_scan_found(v, games, live, games.len() as int);
    if let Some(r) = roster_reserved(v, catalog, reservation_id, live).1 {
        let c = roster_scan(v, games, live, games.len() as int)->Best_0->Some_0;
        assert(0 <= c.index < games.len() && games[c.index].id == r.game_type_id);
    }
}

proof fn lemma_reservation_outstanding(
    v: QueueView,
    catalog: crate::catalog::ResolvedLobbyCatalog,
    reservation_id: MatchReservationId,
    live: Seq<LobbySessionId>,
)
    ensures
        roster_reserved(v, catalog, reservation_id, live).1 matches Some(r) ==> {
            &&& roster_reserved(v, catalog, reservation_id, live).0.reservation == Some(r)
            &&& r.reservation_id == reservation_id
            &&& !r.handoff_ready
        },
{
    reveal(roster_reserved);
    reveal(refresh);
    reveal(observe);
}

/// Consecutive reservations of one game type rotate its maps: when a reservation is marked
/// ready for handoff and completed, the next reservation of the same game type takes the map
/// after the one the first took, in the game type's map order, wrapping around.
#[verifier::spinoff_prover]
#[verifier::rlimit(60)]
pub proof fn law_consecutive_reservations_rotate_maps(
    v: QueueView,
    catalog: crate::catalog::ResolvedLobbyCatalog,
    first_id: MatchReservationId,
    first_live: Seq<LobbySessionId>,
    second_id: MatchReservationId,
    second_live: Seq<LobbySessionId>,
)
    requires
        catalog.well_formed(),
    ensures
        ({
            let (v1, r1) = roster_reserved(v, catalog, first_id, first_live);
            let v2 = handoff_marked(v1, first_id).0;
            let v3 = reservation_completed(v2, first_id).0;
            let r2 = roster_reserved(v3, catalog, second_id, second_live).1;
            let g = row_index(v.pool_rows, r1->Some_0.game_type_id);
            (r1 is Some && r2 is Some && r2->Some_0.game_type_id == r1->Some_0.game_type_id && 0 <= g
                < v.map_ordinals.len() && v.map_ordinals[g] < u64::MAX && v.map_ordinals[g] < usize::MAX) ==> exists|c: int|
                0 <= c < catalog.game_types@.len() && #[trigger] catalog.game_types@[c].id == r1->Some_0.game_type_id && {
                    let maps = catalog.game_types@[c].map_preset_ids@;
                    let o = v.map_ordinals[g] as int;
                    &&& r1->Some_0.map_preset_id == maps[o % (maps.len() as int)]
                    &&& r2->Some_0.map_preset_id == maps[(o + 1) % (maps.len() as int)]
                }
        }),
{
    let games = catalog.game_types@;
    let (v1, r1) = roster_reserved(v, catalog, first_id, first_live);
    let v2 = handoff_marked(v1, first_id).0;
    let v3 = reservation_completed(v2, first_id).0;
    let r2 = roster_reserved(v3, catalog, second_id, second_live).1;
    if r1 is Some && r2 is Some {
        let a = r1->Some_0;
        let b = r2->Some_0;
        let g = row_index(v.pool_rows, a.game_type_id);
        if b.game_type_id == a.game_type_id && 0 <= g < v.map_ordinals.len() && v.map_ordinals[g] < u64::MAX
            && v.map_ordinals[g] < usize::MAX {
            lemma_reserved_map(v, catalog, first_id, first_live);
            lemma_reserved_map(v3, catalog, second_id, second_live);
            lemma_reserve_and_complete_keep_rows(v, catalog, first_id, first_live);
            lemma_reserve_and_complete_keep_rows(v2, catalog, first_id, first_live);
            lemma_reservation_outstanding(v, catalog, first_id, first_live);
            law_handoff_mark_advances_map_rotation(v1, first_id);
            lemma_row_index_kept(v, v1, a.game_type_id);
            lemma_row_index_kept(v1, v3, a.game_type_id);
            let c = choose|c: int| 0 <= c < games.len() && #[trigger] games[c].id == a.game_type_id
                && a.map_preset_id == games[c].map_preset_ids@[ordinal_index(v, g) % (games[c].map_preset_ids@.len() as int)];
            let c2 = choose|c2: int| 0 <= c2 < games.len() && #[trigger] games[c2].id == b.game_type_id
                && b.map_preset_id == games[c2].map_preset_ids@[ordinal_index(
                v3,
                row_index(v3.pool_rows, b.game_type_id),
            ) % (games[c2].map_preset_ids@.len() as int)];
            if c2 != c {
                assert(crate::wire::same_game(games[c].id, games[c2].id));
            }
            assert(c2 == c);
            assert(v3.map_ordinals[g] == v.map_ordinals[g] + 1);
            assert(games[c].id == a.game_type_id);
        }
    }
}
} // verus!
