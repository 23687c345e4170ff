//! The structural consistency of the queue state, which implies its published index check and
//! which every queue operation keeps.

use vstd::prelude::*;
use crate::ids::{NetcodeClientId, LobbySessionId, QueueTicketId};
use crate::wire::QueuePoolRow;
use crate::queue::model::{
    ClientTicket, MAX_QUEUE_TICKETS, QueueTicket, QueueView, first_index, indexes_valid, pooled, reserved,
    row_index, ticket_id_in, without_ticket, admitted, joined, cancelled, commanded, fresh_ticket,
    ticket_of_session, with_session_memory, duplicate_handled, stored, kept_ids, ready_ids, formation_ready,
    roster_scan, RosterScan, RosterCandidate, roster_reserved, roster_participants, acknowledged,
    session_removed, without_tickets, reservation_completed, handoff_marked, ticket_index, client_index, refresh, refreshed_rows, observe, bump, with_memory,
    lemma_first_index_at, lemma_first_index_facts, lemma_first_index_none, initial_view,
};
use crate::queue::laws::same_membership;

verus! {

/// Whether ticket `id` is held.
pub open spec fn holds(v: QueueView, id: QueueTicketId) -> bool {
    exists|k: int| 0 <= k < v.tickets.len() && #[trigger] v.tickets[k].ticket_id == id
}

/// The client-index entry of a ticket.
pub open spec fn client_entry(t: QueueTicket) -> ClientTicket {
    ClientTicket { client: t.netcode_client_id, ticket: t.ticket_id }
}

/// Whether `(g, p)` is a position of some pool.
pub open spec fn pool_slot(v: QueueView, g: int, p: int) -> bool {
    0 <= g < v.pools.len() && 0 <= p < v.pools[g].len()
}

/// Whether the held tickets have distinct identities, sessions and clients.
pub open spec fn tickets_distinct(tickets: Seq<QueueTicket>) -> bool {
    forall|i: int, j: int|
        0 <= i < j < tickets.len() ==> {
            &&& (#[trigger] tickets[i]).ticket_id != (#[trigger] tickets[j]).ticket_id
            &&& tickets[i].lobby_session_id != tickets[j].lobby_session_id
            &&& tickets[i].netcode_client_id != tickets[j].netcode_client_id
        }
}

/// Whether every pool position holds a different ticket.
pub open spec fn slots_distinct(v: QueueView) -> bool {
    forall|g1: int, p1: int, g2: int, p2: int|
        pool_slot(v, g1, p1) && pool_slot(v, g2, p2) && #[trigger] v.pools[g1][p1] == #[trigger] v.pools[g2][p2]
            ==> g1 == g2 && p1 == p2
}

/// Whether every pooled ticket waits in the pool of its own game type.
pub open spec fn pooled_in_own_game(v: QueueView) -> bool {
    forall|k: int, g: int, p: int|
        0 <= k < v.tickets.len() && pool_slot(v, g, p) && #[trigger] v.pools[g][p] == (#[trigger] v.tickets[k]).ticket_id
            ==> row_index(v.pool_rows, v.tickets[k].game_type_id) == g
}

/// Whether the reservation names each ticket at most once.
pub open spec fn participants_distinct(v: QueueView) -> bool {
    match v.reservation {
        Some(r) => forall|i: int, j: int|
            0 <= i < j < r.participants.len() ==> (#[trigger] r.participants[i]).ticket_id
                != (#[trigger] r.participants[j]).ticket_id,
        None => true,
    }
}

/// Whether every held ticket carries the identity of its admission order in the drawn
/// namespace, below the next admission order; before a namespace is drawn nothing is held.
pub open spec fn identities_issued(v: QueueView) -> bool {
    match v.ticket_namespace {
        Some(ns) => forall|k: int|
            0 <= k < v.tickets.len() ==> ticket_id_in(ns, (#[trigger] v.tickets[k]).admission_order) == Some(
                v.tickets[k].ticket_id,
            ) && v.tickets[k].admission_order < v.next_admission_order,
        None => v.tickets.len() == 0,
    }
}

/// The structural consistency of the queue: a bounded set of tickets with distinct identities,
/// sessions and clients; a client index aligned with the tickets; pools and the reservation
/// partitioning exactly the held tickets, each ticket once and in its own game's pool; and
/// identities issued in admission order.
pub open spec fn queue_consistent(v: QueueView) -> bool {
    &&& v.tickets.len() <= MAX_QUEUE_TICKETS
    &&& v.pools.len() == v.pool_rows.len()
    &&& tickets_distinct(v.tickets)
    &&& v.client_tickets.len() == v.tickets.len()
    &&& forall|k: int| 0 <= k < v.tickets.len() ==> v.client_tickets[k] == client_entry(#[trigger] v.tickets[k])
    &&& forall|k: int|
        0 <= k < v.tickets.len() ==> pooled(v, (#[trigger] v.tickets[k]).ticket_id) || reserved(v, v.tickets[k].ticket_id)
    &&& forall|id: QueueTicketId| #[trigger] pooled(v, id) ==> !reserved(v, id) && holds(v, id)
    &&& forall|id: QueueTicketId| #[trigger] reserved(v, id) ==> holds(v, id)
    &&& slots_distinct(v)
    &&& pooled_in_own_game(v)
    &&& participants_distinct(v)
    &&& identities_issued(v)
}

/// Two searches over sequences that agree element by element find the same first index.
pub proof fn lemma_first_index_agree<T, U>(s: Seq<T>, p: spec_fn(T) -> bool, r: Seq<U>, q: spec_fn(U) -> bool)
    requires
        s.len() == r.len(),
        forall|i: int| 0 <= i < s.len() ==> p(#[trigger] s[i]) == q(r[i]),
    ensures
        first_index(s, p) == first_index(r, q),
{
    lemma_first_index_facts(s, p);
    lemma_first_index_facts(r, q);
    let k = first_index(s, p);
    if k >= 0 {
        assert forall|j: int| 0 <= j < k implies !q(#[trigger] r[j]) by {
            assert(p(s[j]) == q(r[j]));
        }
        assert(p(s[k]) == q(r[k]));
        lemma_first_index_at(r, q, k);
    } else {
        assert forall|j: int| 0 <= j < r.len() implies !q(#[trigger] r[j]) by {
            assert(p(s[j]) == q(r[j]));
        }
        lemma_first_index_none(r, q);
    }
}

/// A ticket is found by identity exactly when it is held.
pub proof fn lemma_ticket_index_holds(v: QueueView, id: QueueTicketId)
    ensures
        ticket_index(v.tickets, id) >= 0 <==> holds(v, id),
        ticket_index(v.tickets, id) >= 0 ==> ticket_index(v.tickets, id) < v.tickets.len()
            && v.tickets[ticket_index(v.tickets, id)].ticket_id == id,
{
    lemma_first_index_facts(v.tickets, |t: QueueTicket| t.ticket_id == id);
    if holds(v, id) {
        let k = choose|k: int| 0 <= k < v.tickets.len() && #[trigger] v.tickets[k].ticket_id == id;
        assert((|t: QueueTicket| t.ticket_id == id)(v.tickets[k]));
    }
}

/// With distinct identities, the ticket at index `k` is found at `k`.
pub proof fn lemma_ticket_index_at(tickets: Seq<QueueTicket>, k: int)
    requires
        tickets_distinct(tickets),
        0 <= k < tickets.len(),
    ensures
        ticket_index(tickets, tickets[k].ticket_id) == k,
{
    let id = tickets[k].ticket_id;
    assert forall|j: int| 0 <= j < k implies !(|t: QueueTicket| t.ticket_id == id)(#[trigger] tickets[j]) by {
        assert(tickets[j].ticket_id != tickets[k].ticket_id);
    }
    lemma_first_index_at(tickets, |t: QueueTicket| t.ticket_id == id, k);
}

/// With the client index aligned to distinct tickets, the entry of the ticket at index `k`'s
/// client is at `k`.
pub proof fn lemma_client_index_at(v: QueueView, k: int)
    requires
        queue_consistent(v),
        0 <= k < v.tickets.len(),
    ensures
        client_index(v.client_tickets, v.tickets[k].netcode_client_id) == k,
{
    let c = v.tickets[k].netcode_client_id;
    assert(v.client_tickets[k] == client_entry(v.tickets[k]));
    assert forall|j: int| 0 <= j < k implies !(|e: ClientTicket| e.client == c)(#[trigger] v.client_tickets[j]) by {
        assert(v.client_tickets[j] == client_entry(v.tickets[j]));
        assert(v.tickets[j].netcode_client_id != v.tickets[k].netcode_client_id);
    }
    lemma_first_index_at(v.client_tickets, |e: ClientTicket| e.client == c, k);
}

/// A client that no held ticket has has no client-index entry.
pub proof fn lemma_client_index_absent(v: QueueView, c: NetcodeClientId)
    requires
        queue_consistent(v),
        forall|k: int| 0 <= k < v.tickets.len() ==> (#[trigger] v.tickets[k]).netcode_client_id != c,
    ensures
        client_index(v.client_tickets, c) == -1,
{
    assert forall|j: int| 0 <= j < v.client_tickets.len() implies !(|e: ClientTicket| e.client == c)(
        #[trigger] v.client_tickets[j],
    ) by {
        assert(v.client_tickets[j] == client_entry(v.tickets[j]));
    }
    lemma_first_index_none(v.client_tickets, |e: ClientTicket| e.client == c);
}

/// A consistent queue passes its index check.
pub proof fn lemma_consistent_indexes_valid(v: QueueView)
    requires
        queue_consistent(v),
    ensures
        indexes_valid(v),
{
    assert forall|i: int, j: int| 0 <= i < j < v.tickets.len() implies (#[trigger] v.tickets[i]).ticket_id
        != (#[trigger] v.tickets[j]).ticket_id && v.tickets[i].lobby_session_id != v.tickets[j].lobby_session_id by {
    }
    assert forall|i: int| 0 <= i < v.tickets.len() implies {
        let c = client_index(v.client_tickets, (#[trigger] v.tickets[i]).netcode_client_id);
        c >= 0 && v.client_tickets[c].ticket == v.tickets[i].ticket_id
    } by {
        lemma_client_index_at(v, i);
        assert(v.client_tickets[i] == client_entry(v.tickets[i]));
    }
    assert forall|id: QueueTicketId| #[trigger] pooled(v, id) implies !reserved(v, id) && ticket_index(v.tickets, id) >= 0 by {
        lemma_ticket_index_holds(v, id);
    }
    assert forall|id: QueueTicketId| #[trigger] reserved(v, id) implies ticket_index(v.tickets, id) >= 0 by {
        lemma_ticket_index_holds(v, id);
    }
}

/// Refreshing pool rows keeps every row's game type, so row lookups are unchanged.
pub proof fn lemma_row_index_refreshed(rows: Seq<QueuePoolRow>, pools: Seq<Seq<QueueTicketId>>, id: crate::wire::GameTypeId)
    ensures
        row_index(refreshed_rows(rows, pools), id) == row_index(rows, id),
        refreshed_rows(rows, pools).len() == rows.len(),
{
    let p = |r: QueuePoolRow| crate::wire::same_game(r.game_type_id, id);
    let s = refreshed_rows(rows, pools);
    assert forall|i: int| 0 <= i < s.len() implies p(#[trigger] s[i]) == p(rows[i]) by {}
    lemma_first_index_agree(s, p, rows, p);
}

/// States with the same membership and namespace are equally consistent.
pub proof fn lemma_consistent_same_membership(a: QueueView, b: QueueView)
    requires
        queue_consistent(a),
        same_membership(a, b),
        a.ticket_namespace == b.ticket_namespace,
    ensures
        queue_consistent(b),
{
    assert(forall|id: QueueTicketId| pooled(a, id) == pooled(b, id));
    assert(forall|id: QueueTicketId| reserved(a, id) == reserved(b, id));
    assert(forall|id: QueueTicketId| holds(a, id) == holds(b, id));
}

/// Refreshing pool rows keeps the queue consistent.
pub proof fn lemma_consistent_refresh(v: QueueView)
    requires
        queue_consistent(v),
    ensures
        queue_consistent(refresh(v)),
{
    reveal(refresh);
    let u = QueueView { pool_rows: refreshed_rows(v.pool_rows, v.pools), ..v };
    lemma_row_index_refreshed(v.pool_rows, v.pools, v.pool_rows[0].game_type_id);
    assert(u.pools.len() == u.pool_rows.len());
    assert(pooled_in_own_game(u)) by {
        assert forall|k: int, g: int, p: int|
            0 <= k < u.tickets.len() && pool_slot(u, g, p) && #[trigger] u.pools[g][p] == (#[trigger] u.tickets[k]).ticket_id
            implies row_index(u.pool_rows, u.tickets[k].game_type_id) == g by {
            lemma_row_index_refreshed(v.pool_rows, v.pools, v.tickets[k].game_type_id);
            assert(pool_slot(v, g, p) && v.pools[g][p] == v.tickets[k].ticket_id);
        }
    }
    assert(slots_distinct(u)) by {
        assert(u.pools == v.pools);
    }
    assert forall|id: QueueTicketId| pooled(u, id) == pooled(v, id) by {}
    assert forall|id: QueueTicketId| reserved(u, id) == reserved(v, id) by {}
    assert forall|id: QueueTicketId| holds(u, id) == holds(v, id) by {}
    assert(queue_consistent(u));
    reveal(observe);
    lemma_consistent_same_membership(u, observe(u));
}

/// Observing counts, bumping a counter and replacing a command memory keep the queue
/// consistent.
pub proof fn lemma_consistent_small_steps(
    v: QueueView,
    i: int,
    m: crate::queue::memory::QueueCommandMemory,
    c: crate::queue::model::Counter,
)
    requires
        queue_consistent(v),
    ensures
        queue_consistent(observe(v)),
        queue_consistent(bump(v, c)),
        queue_consistent(with_memory(v, i, m)),
{
    reveal(observe);
    lemma_consistent_same_membership(v, observe(v));
    lemma_consistent_same_membership(v, bump(v, c));
    lemma_consistent_same_membership(v, with_memory(v, i, m));
}

/// The queue of a freshly resolved catalog is consistent.
pub proof fn lemma_initial_consistent(catalog: crate::catalog::ResolvedLobbyCatalog)
    ensures
        queue_consistent(initial_view(catalog)),
{
    let v = initial_view(catalog);
    assert forall|id: QueueTicketId| #[trigger] pooled(v, id) implies !reserved(v, id) && holds(v, id) by {
        let (g, p) = choose|g: int, p: int| 0 <= g < v.pools.len() && 0 <= p < v.pools[g].len() && v.pools[g][p] == id;
    }
}

/// Removing position `p` of pool `g` removes exactly that ticket from the pools, keeps every
/// other ticket in its pool, and keeps pool positions distinct.
pub proof fn lemma_pool_removal(v: QueueView, w: QueueView, g: int, p: int)
    requires
        slots_distinct(v),
        pool_slot(v, g, p),
        w.pools == v.pools.update(g, v.pools[g].remove(p)),
    ensures
        forall|x: QueueTicketId| pooled(w, x) <==> pooled(v, x) && x != v.pools[g][p],
        slots_distinct(w),
        forall|g1: int, p1: int| #[trigger] pool_slot(w, g1, p1) ==> exists|p2: int| pool_slot(v, g1, p2) && v.pools[g1][p2] == w.pools[g1][p1],
{
    let id = v.pools[g][p];
    v.pools[g].remove_ensures(p);
    assert forall|g1: int, p1: int| pool_slot(w, g1, p1) implies w.pools[g1][p1] == (if g1 == g && p1 >= p {
        v.pools[g1][p1 + 1]
    } else {
        v.pools[g1][p1]
    }) && pool_slot(v, g1, if g1 == g && p1 >= p { p1 + 1 } else { p1 }) by {}
    assert forall|g1: int, p1: int| #[trigger] pool_slot(w, g1, p1) implies exists|p2: int| pool_slot(v, g1, p2) && v.pools[g1][p2] == w.pools[g1][p1] by {
        let p2 = if g1 == g && p1 >= p { p1 + 1 } else { p1 };
        assert(pool_slot(v, g1, p2) && v.pools[g1][p2] == w.pools[g1][p1]);
    }
    assert forall|x: QueueTicketId| pooled(w, x) implies pooled(v, x) && x != id by {
        let (g1, p1) = choose|g1: int, p1: int| 0 <= g1 < w.pools.len() && 0 <= p1 < w.pools[g1].len() && w.pools[g1][p1] == x;
        assert(pool_slot(w, g1, p1));
        let p2 = if g1 == g && p1 >= p { p1 + 1 } else { p1 };
        assert(pool_slot(v, g1, p2) && v.pools[g1][p2] == x);
        if x == id {
            assert(v.pools[g1][p2] == v.pools[g][p]);
        }
    }
    assert forall|x: QueueTicketId| pooled(v, x) && x != id implies pooled(w, x) by {
        let (g1, p1) = choose|g1: int, p1: int| 0 <= g1 < v.pools.len() && 0 <= p1 < v.pools[g1].len() && v.pools[g1][p1] == x;
        let q = if g1 == g && p1 > p { p1 - 1 } else { p1 };
        assert(g1 != g || p1 != p);
        assert(pool_slot(w, g1, q) && w.pools[g1][q] == x);
    }
    assert forall|g1: int, p1: int, g2: int, p2: int|
        pool_slot(w, g1, p1) && pool_slot(w, g2, p2) && #[trigger] w.pools[g1][p1] == #[trigger] w.pools[g2][p2]
        implies g1 == g2 && p1 == p2 by {
        let q1 = if g1 == g && p1 >= p { p1 + 1 } else { p1 };
        let q2 = if g2 == g && p2 >= p { p2 + 1 } else { p2 };
        assert(pool_slot(v, g1, q1) && pool_slot(v, g2, q2) && v.pools[g1][q1] == v.pools[g2][q2]);
    }
}

/// Whether participants name ticket `x`.
pub open spec fn lists(parts: Seq<crate::queue::model::ReservedParticipant>, x: QueueTicketId) -> bool {
    exists|i: int| 0 <= i < parts.len() && #[trigger] parts[i].ticket_id == x
}

/// Removing participant `p` from distinct participants removes exactly that ticket.
pub proof fn lemma_participant_removal(parts: Seq<crate::queue::model::ReservedParticipant>, p: int)
    requires
        0 <= p < parts.len(),
        forall|i: int, j: int| 0 <= i < j < parts.len() ==> (#[trigger] parts[i]).ticket_id != (#[trigger] parts[j]).ticket_id,
    ensures
        forall|x: QueueTicketId| #[trigger] lists(parts.remove(p), x) <==> lists(parts, x) && x != parts[p].ticket_id,
        forall|i: int, j: int|
            0 <= i < j < parts.remove(p).len() ==> (#[trigger] parts.remove(p)[i]).ticket_id != (
            #[trigger] parts.remove(p)[j]).ticket_id,
{
    let r = parts.remove(p);
    parts.remove_ensures(p);
    assert forall|x: QueueTicketId| #[trigger] lists(r, x) <==> lists(parts, x) && x != parts[p].ticket_id by {
        if exists|i: int| 0 <= i < r.len() && #[trigger] r[i].ticket_id == x {
            let i = choose|i: int| 0 <= i < r.len() && #[trigger] r[i].ticket_id == x;
            let k = if i < p { i } else { i + 1 };
            assert(parts[k].ticket_id == x);
            assert(k != p);
            if x == parts[p].ticket_id {
                if k < p {
                    assert(parts[k].ticket_id != parts[p].ticket_id);
                } else {
                    assert(parts[p].ticket_id != parts[k].ticket_id);
                }
            }
        }
        if (exists|i: int| 0 <= i < parts.len() && #[trigger] parts[i].ticket_id == x) && x != parts[p].ticket_id {
            let k = choose|k: int| 0 <= k < parts.len() && #[trigger] parts[k].ticket_id == x;
            let i = if k < p { k } else { k - 1 };
            assert(k != p);
            assert(r[i].ticket_id == x);
        }
    }
    assert forall|i: int, j: int| 0 <= i < j < r.len() implies (#[trigger] r[i]).ticket_id != (#[trigger] r[j]).ticket_id by {
        let a = if i < p { i } else { i + 1 };
        let b = if j < p { j } else { j + 1 };
        assert(parts[a] == r[i] && parts[b] == r[j] && a < b);
    }
}

/// The fields of the queue state that removing a ticket leaves alone.
pub open spec fn removal_frame(v: QueueView, w: QueueView) -> bool {
    &&& w.catalog_revision == v.catalog_revision
    &&& w.pool_rows == v.pool_rows
    &&& w.map_ordinals == v.map_ordinals
    &&& w.next_admission_order == v.next_admission_order
    &&& w.state_revision == v.state_revision
    &&& w.revision_exhausted == v.revision_exhausted
    &&& w.ticket_namespace == v.ticket_namespace
    &&& w.telemetry == v.telemetry
}

/// The pools of the state without ticket `id`: `id` is gone from them and every other
/// ticket waits where it waited.
proof fn lemma_without_ticket_pools(v: QueueView, id: QueueTicketId)
    requires
        queue_consistent(v),
        holds(v, id),
    ensures ({
        let w = without_ticket(v, id);
        &&& forall|x: QueueTicketId| pooled(w, x) <==> pooled(v, x) && x != id
        &&& slots_distinct(w)
        &&& w.pools.len() == v.pools.len()
        &&& forall|g1: int, p1: int| #[trigger] pool_slot(w, g1, p1) ==> exists|p2: int| pool_slot(v, g1, p2) && v.pools[g1][p2] == w.pools[g1][p1]
    }),
{
    reveal(without_ticket);
    lemma_ticket_index_holds(v, id);
    let w = without_ticket(v, id);
    let i = ticket_index(v.tickets, id);
    let t = v.tickets[i];
    let g = row_index(v.pool_rows, t.game_type_id);
    if pooled(v, id) {
        let (g0, p0) = choose|g0: int, p0: int| 0 <= g0 < v.pools.len() && 0 <= p0 < v.pools[g0].len() && v.pools[g0][p0] == id;
        assert(pool_slot(v, g0, p0) && v.pools[g0][p0] == v.tickets[i].ticket_id);
        assert(g == g0);
        lemma_first_index_facts(v.pools[g], |x: QueueTicketId| x == id);
        assert((|x: QueueTicketId| x == id)(v.pools[g][p0]));
        let pp = crate::queue::model::pool_position(v.pools[g], id);
        assert(pool_slot(v, g, pp) && v.pools[g][pp] == id);
        lemma_pool_removal(v, w, g, pp);
    } else {
        if 0 <= g < v.pools.len() {
            lemma_first_index_facts(v.pools[g], |x: QueueTicketId| x == id);
            let pp = crate::queue::model::pool_position(v.pools[g], id);
            if pp >= 0 {
                assert(v.pools[g][pp] == id);
                assert(pooled(v, id));
            }
        }
        assert(w.pools == v.pools);
        assert forall|g1: int, p1: int| #[trigger] pool_slot(w, g1, p1) implies exists|p2: int| pool_slot(v, g1, p2) && v.pools[g1][p2] == w.pools[g1][p1] by {
            assert(pool_slot(v, g1, p1));
        }
        assert forall|x: QueueTicketId| pooled(w, x) <==> pooled(v, x) && x != id by {
            if pooled(w, x) {
                assert(pooled(v, x));
            }
        }
    }
}

/// The reservation of the state without ticket `id` names every other ticket it named.
proof fn lemma_without_ticket_reservation(v: QueueView, id: QueueTicketId)
    requires
        queue_consistent(v),
        holds(v, id),
    ensures ({
        let w = without_ticket(v, id);
        &&& forall|x: QueueTicketId| reserved(w, x) <==> reserved(v, x) && x != id
        &&& participants_distinct(w)
    }),
{
    reveal(without_ticket);
    lemma_ticket_index_holds(v, id);
    let w = without_ticket(v, id);
    match v.reservation {
        Some(r) => {
            let parts = r.participants;
            lemma_first_index_facts(parts, |q: crate::queue::model::ReservedParticipant| q.ticket_id == id);
            let pp = crate::queue::model::participant_position(parts, id);
            assert(forall|x: QueueTicketId| reserved(v, x) == lists(parts, x));
            if pp < 0 {
                assert(!lists(parts, id)) by {
                    if lists(parts, id) {
                        let k = choose|k: int| 0 <= k < parts.len() && #[trigger] parts[k].ticket_id == id;
                        assert((|q: crate::queue::model::ReservedParticipant| q.ticket_id == id)(parts[k]));
                    }
                }
                assert(w.reservation == v.reservation);
            } else if parts.len() == 1 {
                assert(w.reservation is None);
                assert forall|x: QueueTicketId| reserved(v, x) implies x == id by {
                    let k = choose|k: int| 0 <= k < parts.len() && #[trigger] parts[k].ticket_id == x;
                }
            } else {
                lemma_participant_removal(parts, pp);
                let r2 = w.reservation->0;
                assert(r2.participants == parts.remove(pp));
                assert(forall|x: QueueTicketId| reserved(w, x) == lists(parts.remove(pp), x));
            }
        },
        None => {},
    }
}

/// Removing ticket `id` keeps the queue consistent and removes exactly that ticket.
#[verifier::spinoff_prover]
#[verifier::rlimit(50)]
pub proof fn lemma_consistent_without_ticket(v: QueueView, id: QueueTicketId)
    requires
        queue_consistent(v),
    ensures ({
        let w = without_ticket(v, id);
        &&& queue_consistent(w)
        &&& forall|x: QueueTicketId| holds(w, x) <==> holds(v, x) && x != id
        &&& holds(v, id) ==> w.tickets.len() + 1 == v.tickets.len()
        &&& holds(v, id) ==> w.tickets == v.tickets.remove(ticket_index(v.tickets, id))
        &&& !holds(v, id) ==> w == v
        &&& removal_frame(v, w)
    }),
{
    reveal(without_ticket);
    lemma_ticket_index_holds(v, id);
    let w = without_ticket(v, id);
    if holds(v, id) {
        let i = ticket_index(v.tickets, id);
        lemma_client_index_at(v, i);
        v.tickets.remove_ensures(i);
        v.client_tickets.remove_ensures(i);
        lemma_without_ticket_pools(v, id);
        lemma_without_ticket_reservation(v, id);
        assert(w.tickets == v.tickets.remove(i));
        assert(w.client_tickets == v.client_tickets.remove(i));
        assert forall|k: int| 0 <= k < w.tickets.len() implies #[trigger] w.tickets[k] == v.tickets[if k < i { k } else { k + 1 }] by {}
        assert forall|x: QueueTicketId| holds(w, x) <==> holds(v, x) && x != id by {
            if holds(w, x) {
                let k = choose|k: int| 0 <= k < w.tickets.len() && #[trigger] w.tickets[k].ticket_id == x;
                let k2 = if k < i { k } else { k + 1 };
                assert(v.tickets[k2].ticket_id == x);
                if k2 < i {
                    assert(v.tickets[k2].ticket_id != v.tickets[i].ticket_id);
                } else {
                    assert(v.tickets[i].ticket_id != v.tickets[k2].ticket_id);
                }
            }
            if holds(v, x) && x != id {
                let k = choose|k: int| 0 <= k < v.tickets.len() && #[trigger] v.tickets[k].ticket_id == x;
                assert(k != i);
                let k2 = if k < i { k } else { k - 1 };
                assert(w.tickets[k2].ticket_id == x);
            }
        }
        assert(tickets_distinct(w.tickets)) by {
            assert forall|a: int, b: int| 0 <= a < b < w.tickets.len() implies {
                &&& (#[trigger] w.tickets[a]).ticket_id != (#[trigger] w.tickets[b]).ticket_id
                &&& w.tickets[a].lobby_session_id != w.tickets[b].lobby_session_id
                &&& w.tickets[a].netcode_client_id != w.tickets[b].netcode_client_id
            } by {
                let a2 = if a < i { a } else { a + 1 };
                let b2 = if b < i { b } else { b + 1 };
                assert(w.tickets[a] == v.tickets[a2] && w.tickets[b] == v.tickets[b2] && a2 < b2);
            }
        }
        assert forall|k: int| 0 <= k < w.tickets.len() implies w.client_tickets[k] == client_entry(#[trigger] w.tickets[k]) by {
            let k2 = if k < i { k } else { k + 1 };
            assert(v.client_tickets[k2] == client_entry(v.tickets[k2]));
        }
        assert forall|k: int| 0 <= k < w.tickets.len() implies pooled(w, (#[trigger] w.tickets[k]).ticket_id)
            || reserved(w, w.tickets[k].ticket_id) by {
            let k2 = if k < i { k } else { k + 1 };
            assert(v.tickets[k2] == w.tickets[k]);
            assert(pooled(v, v.tickets[k2].ticket_id) || reserved(v, v.tickets[k2].ticket_id));
            if k2 < i {
                assert(v.tickets[k2].ticket_id != v.tickets[i].ticket_id);
            } else {
                assert(v.tickets[i].ticket_id != v.tickets[k2].ticket_id);
            }
        }
        assert forall|x: QueueTicketId| #[trigger] pooled(w, x) implies !reserved(w, x) && holds(w, x) by {
            assert(pooled(v, x));
        }
        assert forall|x: QueueTicketId| #[trigger] reserved(w, x) implies holds(w, x) by {
            assert(reserved(v, x));
        }
        assert(pooled_in_own_game(w)) by {
            assert forall|k: int, g: int, p: int|
                0 <= k < w.tickets.len() && pool_slot(w, g, p) && #[trigger] w.pools[g][p] == (
                #[trigger] w.tickets[k]).ticket_id implies row_index(w.pool_rows, w.tickets[k].game_type_id) == g by {
                let k2 = if k < i { k } else { k + 1 };
                assert(v.tickets[k2] == w.tickets[k]);
                assert(pool_slot(w, g, p));
                let p2 = choose|p2: int| pool_slot(v, g, p2) && v.pools[g][p2] == w.pools[g][p];
                assert(v.pools[g][p2] == v.tickets[k2].ticket_id);
            }
        }
        assert(identities_issued(w)) by {
            match v.ticket_namespace {
                Some(ns) => {
                    assert forall|k: int| 0 <= k < w.tickets.len() implies ticket_id_in(ns, (
                    #[trigger] w.tickets[k]).admission_order) == Some(w.tickets[k].ticket_id)
                        && w.tickets[k].admission_order < w.next_admission_order by {
                        let k2 = if k < i { k } else { k + 1 };
                        assert(v.tickets[k2] == w.tickets[k]);
                    }
                },
                None => {},
            }
        }
    }
}

/// Appending a ticket that waits nowhere to pool `g` adds exactly that ticket to the pools, at
/// the end of pool `g`, and keeps pool positions distinct.
pub proof fn lemma_pool_append(v: QueueView, w: QueueView, g: int, id: QueueTicketId)
    requires
        slots_distinct(v),
        0 <= g < v.pools.len(),
        !pooled(v, id),
        w.pools == v.pools.update(g, v.pools[g].push(id)),
    ensures
        forall|x: QueueTicketId| pooled(w, x) <==> pooled(v, x) || x == id,
        slots_distinct(w),
        forall|g1: int, p1: int| #[trigger] pool_slot(w, g1, p1) ==> (g1 == g && p1 == v.pools[g].len() && w.pools[g1][p1] == id)
            || (pool_slot(v, g1, p1) && v.pools[g1][p1] == w.pools[g1][p1]),
{
    let n = v.pools[g].len() as int;
    assert forall|g1: int, p1: int| #[trigger] pool_slot(w, g1, p1) implies (g1 == g && p1 == n && w.pools[g1][p1] == id)
        || (pool_slot(v, g1, p1) && v.pools[g1][p1] == w.pools[g1][p1]) by {}
    assert forall|x: QueueTicketId| pooled(w, x) <==> pooled(v, x) || x == id by {
        if pooled(w, x) {
            let (g1, p1) = choose|g1: int, p1: int| 0 <= g1 < w.pools.len() && 0 <= p1 < w.pools[g1].len() && w.pools[g1][p1] == x;
            assert(pool_slot(w, g1, p1));
        }
        if pooled(v, x) {
            let (g1, p1) = choose|g1: int, p1: int| 0 <= g1 < v.pools.len() && 0 <= p1 < v.pools[g1].len() && v.pools[g1][p1] == x;
            assert(w.pools[g1][p1] == x);
        }
        if x == id {
            assert(w.pools[g][n] == id);
        }
    }
    assert forall|g1: int, p1: int, g2: int, p2: int|
        pool_slot(w, g1, p1) && pool_slot(w, g2, p2) && #[trigger] w.pools[g1][p1] == #[trigger] w.pools[g2][p2]
        implies g1 == g2 && p1 == p2 by {
        assert(pool_slot(w, g1, p1) && pool_slot(w, g2, p2));
        if pool_slot(v, g1, p1) && v.pools[g1][p1] == w.pools[g1][p1] {
            if !(pool_slot(v, g2, p2) && v.pools[g2][p2] == w.pools[g2][p2]) {
                assert(v.pools[g1][p1] == id);
                assert(pooled(v, id));
            }
        } else if pool_slot(v, g2, p2) && v.pools[g2][p2] == w.pools[g2][p2] {
            assert(v.pools[g2][p2] == id);
            assert(pooled(v, id));
        }
    }
}

/// The conditions under which admitting `ticket` keeps the queue consistent: room for it, an
/// identity that is not held, a session and a client that hold no ticket, a known game type,
/// and the identity of its admission order in the drawn namespace below the next order.
pub open spec fn admissible(v: QueueView, ticket: QueueTicket, next_order: u64) -> bool {
    &&& v.tickets.len() < MAX_QUEUE_TICKETS
    &&& !holds(v, ticket.ticket_id)
    &&& forall|k: int| 0 <= k < v.tickets.len() ==> (#[trigger] v.tickets[k]).lobby_session_id != ticket.lobby_session_id
        && v.tickets[k].netcode_client_id != ticket.netcode_client_id
    &&& row_index(v.pool_rows, ticket.game_type_id) >= 0
    &&& v.ticket_namespace matches Some(ns) && ticket_id_in(ns, ticket.admission_order) == Some(ticket.ticket_id)
    &&& ticket.admission_order < next_order
    &&& v.next_admission_order <= next_order
}

/// Admitting an admissible ticket keeps the queue consistent and adds exactly that ticket.
#[verifier::spinoff_prover]
#[verifier::rlimit(50)]
pub proof fn lemma_consistent_admitted(v: QueueView, ticket: QueueTicket, next_order: u64, revision: u64)
    requires
        queue_consistent(v),
        admissible(v, ticket, next_order),
    ensures
        queue_consistent(admitted(v, ticket, next_order, revision)),
        forall|x: QueueTicketId| holds(admitted(v, ticket, next_order, revision), x) <==> holds(v, x) || x == ticket.ticket_id,
{
    reveal(admitted);
    let id = ticket.ticket_id;
    let g = row_index(v.pool_rows, ticket.game_type_id);
    lemma_first_index_facts(v.pool_rows, |r: QueuePoolRow| crate::wire::same_game(r.game_type_id, ticket.game_type_id));
    lemma_client_index_absent(v, ticket.netcode_client_id);
    let m = crate::queue::model::memory_index(v.memories, ticket.lobby_session_id);
    let u = QueueView {
        next_admission_order: next_order,
        state_revision: revision,
        pools: v.pools.update(g, v.pools[g].push(id)),
        client_tickets: v.client_tickets.push(ClientTicket { client: ticket.netcode_client_id, ticket: id }),
        memories: if m >= 0 {
            v.memories.update(
                m,
                crate::queue::model::SessionMemory {
                    session_id: v.memories[m].session_id,
                    memory: crate::queue::memory::QueueCommandMemory {
                        active_ticket_id: Some(id),
                        ..v.memories[m].memory
                    },
                },
            )
        } else {
            v.memories
        },
        tickets: v.tickets.push(ticket),
        ..v
    };
    assert(admitted(v, ticket, next_order, revision) == bump(refresh(u), crate::queue::model::Counter::Admissions));
    assert(!pooled(v, id));
    lemma_pool_append(v, u, g, id);
    let n = v.tickets.len() as int;
    assert forall|x: QueueTicketId| holds(u, x) <==> holds(v, x) || x == id by {
        if holds(u, x) {
            let k = choose|k: int| 0 <= k < u.tickets.len() && #[trigger] u.tickets[k].ticket_id == x;
            if k < n {
                assert(v.tickets[k].ticket_id == x);
            }
        }
        if holds(v, x) {
            let k = choose|k: int| 0 <= k < v.tickets.len() && #[trigger] v.tickets[k].ticket_id == x;
            assert(u.tickets[k].ticket_id == x);
        }
        if x == id {
            assert(u.tickets[n].ticket_id == x);
        }
    }
    assert(forall|x: QueueTicketId| reserved(u, x) == reserved(v, x));
    assert(tickets_distinct(u.tickets)) by {
        assert forall|a: int, b: int| 0 <= a < b < u.tickets.len() implies {
            &&& (#[trigger] u.tickets[a]).ticket_id != (#[trigger] u.tickets[b]).ticket_id
            &&& u.tickets[a].lobby_session_id != u.tickets[b].lobby_session_id
            &&& u.tickets[a].netcode_client_id != u.tickets[b].netcode_client_id
        } by {
            if b == n {
                assert(u.tickets[a] == v.tickets[a]);
                if u.tickets[a].ticket_id == id {
                    assert(holds(v, id));
                }
            } else {
                assert(u.tickets[a] == v.tickets[a] && u.tickets[b] == v.tickets[b]);
            }
        }
    }
    assert forall|k: int| 0 <= k < u.tickets.len() implies u.client_tickets[k] == client_entry(#[trigger] u.tickets[k]) by {
        if k < n {
            assert(v.client_tickets[k] == client_entry(v.tickets[k]));
        }
    }
    assert forall|k: int| 0 <= k < u.tickets.len() implies pooled(u, (#[trigger] u.tickets[k]).ticket_id)
        || reserved(u, u.tickets[k].ticket_id) by {
        if k < n {
            assert(u.tickets[k] == v.tickets[k]);
            assert(pooled(v, v.tickets[k].ticket_id) || reserved(v, v.tickets[k].ticket_id));
        }
    }
    assert forall|x: QueueTicketId| #[trigger] pooled(u, x) implies !reserved(u, x) && holds(u, x) by {
        if x != id {
            assert(pooled(v, x));
        } else if reserved(v, x) {
            assert(holds(v, x));
        }
    }
    assert forall|x: QueueTicketId| #[trigger] reserved(u, x) implies holds(u, x) by {
        assert(reserved(v, x));
    }
    assert(pooled_in_own_game(u)) by {
        assert forall|k: int, g1: int, p1: int|
            0 <= k < u.tickets.len() && pool_slot(u, g1, p1) && #[trigger] u.pools[g1][p1] == (
            #[trigger] u.tickets[k]).ticket_id implies row_index(u.pool_rows, u.tickets[k].game_type_id) == g1 by {
            assert(pool_slot(u, g1, p1));
            if k < n {
                assert(u.tickets[k] == v.tickets[k]);
                if g1 == g && p1 == v.pools[g].len() {
                    assert(holds(v, id));
                }
            } else {
                if pool_slot(v, g1, p1) && v.pools[g1][p1] == u.pools[g1][p1] {
                    assert(pooled(v, id));
                }
            }
        }
    }
    assert(identities_issued(u)) by {
        let ns = v.ticket_namespace->0;
        assert forall|k: int| 0 <= k < u.tickets.len() implies ticket_id_in(ns, (#[trigger] u.tickets[k]).admission_order)
            == Some(u.tickets[k].ticket_id) && u.tickets[k].admission_order < u.next_admission_order by {
            if k < n {
                assert(u.tickets[k] == v.tickets[k]);
            }
        }
    }
    assert(queue_consistent(u));
    lemma_consistent_refresh(u);
    lemma_consistent_small_steps(refresh(u), 0, v.memories[0].memory, crate::queue::model::Counter::Admissions);
    assert forall|x: QueueTicketId| holds(admitted(v, ticket, next_order, revision), x) == holds(u, x) by {
        reveal(refresh);
        reveal(observe);
    }
}

/// A state that agrees with a consistent one on tickets, pools, pool rows, client index,
/// reservation, namespace and admission order is consistent.
pub proof fn lemma_consistent_frame(a: QueueView, b: QueueView)
    requires
        queue_consistent(a),
        b.tickets == a.tickets,
        b.pools == a.pools,
        b.pool_rows == a.pool_rows,
        b.client_tickets == a.client_tickets,
        b.reservation == a.reservation,
        b.ticket_namespace == a.ticket_namespace,
        b.next_admission_order == a.next_admission_order,
    ensures
        queue_consistent(b),
{
    assert(forall|id: QueueTicketId| pooled(a, id) == pooled(b, id));
    assert(forall|id: QueueTicketId| reserved(a, id) == reserved(b, id));
    assert(forall|id: QueueTicketId| holds(a, id) == holds(b, id));
}

/// Whether no other session's ticket is held by the client of `session`: each authenticated
/// client owns one lobby session.
pub open spec fn client_free(v: QueueView, session: crate::session::LobbySession) -> bool {
    forall|k: int|
        0 <= k < v.tickets.len() && (#[trigger] v.tickets[k]).lobby_session_id != session.lobby_session_id
            ==> v.tickets[k].netcode_client_id != session.netcode_client_id
}

/// A join keeps the queue consistent when the joining client holds no other session's ticket.
#[verifier::spinoff_prover]
#[verifier::rlimit(50)]
pub proof fn lemma_consistent_joined(
    v: QueueView,
    session: crate::session::LobbySession,
    join: crate::wire::QueueJoinCommand,
    build: Option<crate::wire::AdmittedBuild>,
    seed: Option<QueueTicketId>,
)
    requires
        queue_consistent(v),
        client_free(v, session),
    ensures
        queue_consistent(joined(v, session, join, build, seed).0),
{
    reveal(joined);
    let c = crate::queue::model::Counter::Admissions;
    lemma_consistent_small_steps(v, 0, v.memories[0].memory, crate::queue::model::Counter::GameRejections);
    lemma_consistent_small_steps(v, 0, v.memories[0].memory, crate::queue::model::Counter::MembershipRejections);
    lemma_consistent_small_steps(v, 0, v.memories[0].memory, crate::queue::model::Counter::UnavailableRejections);
    lemma_consistent_small_steps(v, 0, v.memories[0].memory, crate::queue::model::Counter::BuildRejections);
    if crate::queue::model::join_target_rejection(v, join) is None && ticket_of_session(v, session.lobby_session_id) is None
        && v.tickets.len() < MAX_QUEUE_TICKETS {
        match build {
            Some(b) => {
                if b.snapshot.brawler_id == join.brawler_id && b.snapshot.brawler_revision == join.brawler_revision {
                    match b.resolution {
                        crate::wire::BuildResolution::Resolved(resolved) => {
                            let order = v.next_admission_order;
                            if order != u64::MAX {
                                let (v1, idopt) = fresh_ticket(v, order, seed);
                                assert(v1.ticket_namespace is Some || idopt is None) by {
                                    reveal(fresh_ticket);
                                }
                                assert(queue_consistent(v1)) by {
                                    reveal(fresh_ticket);
                                    if v.ticket_namespace is None {
                                        assert(v.tickets.len() == 0);
                                        lemma_consistent_frame_namespace(v, v1);
                                    }
                                }
                                lemma_consistent_small_steps(v1, 0, v.memories[0].memory, crate::queue::model::Counter::UnavailableRejections);
                                if let Some(ticket_id) = idopt {
                                    if v1.state_revision != u64::MAX {
                                        let revision = (v1.state_revision + 1) as u64;
                                        let ticket = QueueTicket {
                                            ticket_id: ticket_id,
                                            lobby_session_id: session.lobby_session_id,
                                            player_id: session.player_id,
                                            netcode_client_id: session.netcode_client_id,
                                            catalog_revision: join.catalog_revision,
                                            game_type_id: join.game_type_id,
                                            game_type_configuration_revision: join.game_type_configuration_revision,
                                            accepted_build: crate::wire::accepted_summary(b.snapshot, resolved),
                                            build_snapshot: b.snapshot,
                                            admission_order: order,
                                            admitted_at_pool_state_revision: revision,
                                            formation_eligible: false,
                                        };
                                        assert(admissible(v1, ticket, (order + 1) as u64)) by {
                                            lemma_joined_admissible(v, v1, session, join, order, seed, ticket);
                                        }
                                        lemma_consistent_admitted(v1, ticket, (order + 1) as u64, revision);
                                    }
                                }
                            }
                        },
                        _ => {},
                    }
                }
            },
            None => {},
        }
    }
}

/// Drawing the namespace of an empty queue keeps it consistent.
proof fn lemma_consistent_frame_namespace(v: QueueView, v1: QueueView)
    requires
        queue_consistent(v),
        v.tickets.len() == 0,
        v1 == (QueueView { ticket_namespace: v1.ticket_namespace, ..v }),
    ensures
        queue_consistent(v1),
{
    assert(forall|id: QueueTicketId| pooled(v, id) == pooled(v1, id));
    assert(forall|id: QueueTicketId| reserved(v, id) == reserved(v1, id));
    assert(forall|id: QueueTicketId| holds(v, id) == holds(v1, id));
}

/// The ticket a join admits is admissible.
proof fn lemma_joined_admissible(
    v: QueueView,
    v1: QueueView,
    session: crate::session::LobbySession,
    join: crate::wire::QueueJoinCommand,
    order: u64,
    seed: Option<QueueTicketId>,
    ticket: QueueTicket,
)
    requires
        queue_consistent(v),
        queue_consistent(v1),
        client_free(v, session),
        crate::queue::model::join_target_rejection(v, join) is None,
        ticket_of_session(v, session.lobby_session_id) is None,
        v.tickets.len() < MAX_QUEUE_TICKETS,
        order == v.next_admission_order,
        order < u64::MAX,
        (v1, Some(ticket.ticket_id)) == fresh_ticket(v, order, seed),
        ticket.lobby_session_id == session.lobby_session_id,
        ticket.netcode_client_id == session.netcode_client_id,
        ticket.game_type_id == join.game_type_id,
        ticket.admission_order == order,
    ensures
        admissible(v1, ticket, (order + 1) as u64),
{
    reveal(fresh_ticket);
    reveal(crate::queue::model::join_target_rejection);
    assert(v1.tickets == v.tickets && v1.pool_rows == v.pool_rows && v1.next_admission_order == v.next_admission_order);
    let ns = v1.ticket_namespace->0;
    assert(ticket_id_in(ns, order) == Some(ticket.ticket_id));
    lemma_first_index_facts(v.tickets, |t: QueueTicket| t.lobby_session_id == session.lobby_session_id);
    assert forall|k: int| 0 <= k < v1.tickets.len() implies (#[trigger] v1.tickets[k]).lobby_session_id != ticket.lobby_session_id
        && v1.tickets[k].netcode_client_id != ticket.netcode_client_id by {
        assert(!(|t: QueueTicket| t.lobby_session_id == session.lobby_session_id)(v.tickets[k]));
        assert(v.tickets[k] == v1.tickets[k]);
    }
    if holds(v1, ticket.ticket_id) {
        let k = choose|k: int| 0 <= k < v1.tickets.len() && #[trigger] v1.tickets[k].ticket_id == ticket.ticket_id;
        let o = v1.tickets[k].admission_order;
        assert(ticket_id_in(ns, o) == Some(ticket.ticket_id) && o < order);
        crate::queue::laws::law_ticket_identities_distinct(ns, o, order);
    }
}

/// A cancellation keeps the queue consistent.
#[verifier::spinoff_prover]
pub proof fn lemma_consistent_cancelled(
    v: QueueView,
    session: crate::session::LobbySession,
    cancel: crate::wire::QueueCancelCommand,
)
    requires
        queue_consistent(v),
    ensures
        queue_consistent(cancelled(v, session, cancel).0),
{
    reveal(cancelled);
    lemma_consistent_small_steps(v, 0, v.memories[0].memory, crate::queue::model::Counter::UnavailableRejections);
    lemma_consistent_small_steps(v, 0, v.memories[0].memory, crate::queue::model::Counter::MembershipRejections);
    match ticket_of_session(v, session.lobby_session_id) {
        Some(t) => {
            if t.ticket_id == cancel.ticket_id && v.state_revision != u64::MAX {
                let w = without_ticket(v, t.ticket_id);
                lemma_consistent_without_ticket(v, t.ticket_id);
                let u = QueueView { state_revision: (v.state_revision + 1) as u64, ..w };
                lemma_consistent_frame(w, u);
                lemma_consistent_refresh(u);
                lemma_consistent_small_steps(refresh(u), 0, v.memories[0].memory, crate::queue::model::Counter::Cancellations);
            }
        },
        None => {},
    }
}

/// A whole queue command keeps the queue consistent when the commanding client holds no other
/// session's ticket.
#[verifier::spinoff_prover]
#[verifier::rlimit(50)]
pub proof fn lemma_consistent_commanded(
    v: QueueView,
    session: crate::session::LobbySession,
    request_id: crate::ids::QueueRequestId,
    command: crate::wire::QueueCommand,
    now_millis: u64,
    build: Option<crate::wire::AdmittedBuild>,
    seed: Option<QueueTicketId>,
)
    requires
        queue_consistent(v),
        client_free(v, session),
    ensures
        queue_consistent(commanded(v, session, request_id, command, now_millis, build, seed).0),
{
    reveal(commanded);
    let session_id = session.lobby_session_id;
    let v1 = with_session_memory(v, session_id, now_millis);
    assert(same_membership(v, v1) && v1.ticket_namespace == v.ticket_namespace) by {
        reveal(with_session_memory);
    }
    lemma_consistent_same_membership(v, v1);
    crate::queue::laws::lemma_duplicate_keeps_membership(v1, session_id, request_id, command, now_millis);
    match duplicate_handled(v1, session_id, request_id, command, now_millis) {
        Some(handled) => {
            lemma_consistent_same_membership(v1, handled.0);
        },
        None => {
            let i = crate::queue::model::memory_index(v1.memories, session_id);
            let m = crate::queue::memory::refilled(v1.memories[i].memory, now_millis);
            let v2 = with_memory(v1, i, m);
            lemma_consistent_small_steps(v1, i, m, crate::queue::model::Counter::ProtocolAbuse);
            lemma_consistent_small_steps(v2, i, m, crate::queue::model::Counter::ProtocolAbuse);
            if m.pending_outcome is Some || m.rate_limit_notice_until is Some {
            } else if m.command_tokens == 0 {
                let delay = crate::queue::model::rate_limit_delay(m, now_millis);
                let m2 = crate::queue::memory::QueueCommandMemory {
                    rate_limit_notice_until: Some(crate::queue::memory::sat_add(now_millis, delay)),
                    ..m
                };
                let v3a = with_memory(v2, i, m2);
                lemma_consistent_small_steps(v2, i, m2, crate::queue::model::Counter::RateLimitNotices);
                lemma_consistent_small_steps(v3a, i, m2, crate::queue::model::Counter::RateLimitNotices);
                let v3 = bump(v3a, crate::queue::model::Counter::RateLimitNotices);
                let d = crate::wire::QueueDecision::Rejected(
                    crate::wire::QueueRejection::RateLimited { retry_after_millis: delay as u16 },
                );
                crate::queue::laws::lemma_stored_keeps_membership(v3, session_id, request_id, command, d, now_millis, false, true);
                lemma_consistent_same_membership(v3, stored(v3, session_id, request_id, command, d, now_millis, false, true).0);
            } else {
                let m3 = crate::queue::memory::QueueCommandMemory { command_tokens: (m.command_tokens - 1) as u8, ..m };
                let v3 = with_memory(v2, i, m3);
                lemma_consistent_small_steps(v2, i, m3, crate::queue::model::Counter::ProtocolAbuse);
                if m3.last matches Some(last) && request_id.0 < last.request_id.0 {
                    let d = crate::wire::QueueDecision::Rejected(crate::wire::QueueRejection::StaleRequest);
                    crate::queue::laws::lemma_stored_keeps_membership(v3, session_id, request_id, command, d, now_millis, false, false);
                    lemma_consistent_same_membership(v3, stored(v3, session_id, request_id, command, d, now_millis, false, false).0);
                } else {
                    assert(client_free(v3, session)) by {
                        reveal(with_session_memory);
                    }
                    let (v4, decision, changed) = match command {
                        crate::wire::QueueCommand::Join(join) => joined(v3, session, join, build, seed),
                        crate::wire::QueueCommand::Cancel(cancel) => cancelled(v3, session, cancel),
                    };
                    match command {
                        crate::wire::QueueCommand::Join(join) => lemma_consistent_joined(v3, session, join, build, seed),
                        crate::wire::QueueCommand::Cancel(cancel) => lemma_consistent_cancelled(v3, session, cancel),
                    }
                    crate::queue::laws::lemma_stored_keeps_membership(v4, session_id, request_id, command, decision, now_millis, changed, true);
                    lemma_consistent_same_membership(v4, stored(v4, session_id, request_id, command, decision, now_millis, changed, true).0);
                }
            }
        },
    }
}

/// The kept identities of a pool are those of the pool not removed; a pool without repeats
/// keeps none twice.
pub proof fn lemma_kept_ids(pool: Seq<QueueTicketId>, removed: Seq<QueueTicketId>)
    ensures
        forall|x: QueueTicketId| #[trigger] kept_ids(pool, removed).contains(x) <==> pool.contains(x) && !removed.contains(x),
        pool.no_duplicates() ==> kept_ids(pool, removed).no_duplicates(),
    decreases pool.len(),
{
    if pool.len() > 0 {
        let rest = pool.drop_last();
        lemma_kept_ids(rest, removed);
        assert(pool == rest.push(pool.last()));
        assert forall|x: QueueTicketId| pool.contains(x) <==> rest.contains(x) || x == pool.last() by {
            if pool.contains(x) {
                let i = choose|i: int| 0 <= i < pool.len() && pool[i] == x;
                if i < rest.len() {
                    assert(rest[i] == x);
                }
            }
            if rest.contains(x) {
                let i = choose|i: int| 0 <= i < rest.len() && rest[i] == x;
                assert(pool[i] == x);
            }
            if x == pool.last() {
                assert(pool[pool.len() - 1] == x);
            }
        }
        let k = kept_ids(rest, removed);
        assert(kept_ids(pool, removed) == if removed.contains(pool.last()) { k } else { k.push(pool.last()) });
        if !removed.contains(pool.last()) {
            assert forall|x: QueueTicketId| k.push(pool.last()).contains(x) <==> k.contains(x) || x == pool.last() by {
                if k.push(pool.last()).contains(x) {
                    let i = choose|i: int| 0 <= i < k.push(pool.last()).len() && k.push(pool.last())[i] == x;
                    if i < k.len() {
                        assert(k[i] == x);
                    }
                }
                if k.contains(x) {
                    let i = choose|i: int| 0 <= i < k.len() && k[i] == x;
                    assert(k.push(pool.last())[i] == x);
                }
                if x == pool.last() {
                    assert(k.push(pool.last())[k.len() as int] == x);
                }
            }
            if pool.no_duplicates() {
                assert(rest.no_duplicates()) by {
                    assert forall|i: int, j: int| 0 <= i < j < rest.len() implies rest[i] != rest[j] by {
                        assert(pool[i] == rest[i] && pool[j] == rest[j]);
                    }
                }
                assert(!rest.contains(pool.last())) by {
                    if rest.contains(pool.last()) {
                        let i = choose|i: int| 0 <= i < rest.len() && rest[i] == pool.last();
                        assert(pool[i] == pool[pool.len() - 1]);
                    }
                }
                lemma_push_no_duplicates(k, pool.last());
            }
            assert forall|x: QueueTicketId| #[trigger] kept_ids(pool, removed).contains(x) <==> pool.contains(x) && !removed.contains(x) by {
                assert(k.contains(x) <==> rest.contains(x) && !removed.contains(x));
            }
        } else {
            assert forall|x: QueueTicketId| #[trigger] kept_ids(pool, removed).contains(x) <==> pool.contains(x) && !removed.contains(x) by {
                assert(k.contains(x) <==> rest.contains(x) && !removed.contains(x));
            }
            if pool.no_duplicates() {
                assert(rest.no_duplicates()) by {
                    assert forall|i: int, j: int| 0 <= i < j < rest.len() implies rest[i] != rest[j] by {
                        assert(pool[i] == rest[i] && pool[j] == rest[j]);
                    }
                }
            }
        }
    }
}

/// Appending an element that is absent keeps a sequence free of repeats.
pub proof fn lemma_push_no_duplicates<T>(s: Seq<T>, a: T)
    requires
        s.no_duplicates(),
        !s.contains(a),
    ensures
        s.push(a).no_duplicates(),
{
    let t = s.push(a);
    assert forall|i: int, j: int| 0 <= i < j < t.len() implies t[i] != t[j] by {
        if j == s.len() {
            assert(t[i] == s[i]);
        } else {
            assert(t[i] == s[i] && t[j] == s[j]);
        }
    }
}

/// The ready identities of a pool come from the pool, are ready, and repeat none when the pool
/// repeats none.
pub proof fn lemma_ready_ids(v: QueueView, pool: Seq<QueueTicketId>, live: Seq<LobbySessionId>)
    ensures
        forall|x: QueueTicketId| #[trigger] ready_ids(v, pool, live).contains(x) ==> pool.contains(x) && formation_ready(v, x, live),
        pool.no_duplicates() ==> ready_ids(v, pool, live).no_duplicates(),
    decreases pool.len(),
{
    if pool.len() > 0 {
        let rest = pool.drop_last();
        lemma_ready_ids(v, rest, live);
        let r = ready_ids(v, rest, live);
        assert(ready_ids(v, pool, live) == if formation_ready(v, pool.last(), live) { r.push(pool.last()) } else { r });
        assert forall|x: QueueTicketId| rest.contains(x) implies pool.contains(x) by {
            let i = choose|i: int| 0 <= i < rest.len() && rest[i] == x;
            assert(pool[i] == x);
        }
        if formation_ready(v, pool.last(), live) {
            assert forall|x: QueueTicketId| r.push(pool.last()).contains(x) implies r.contains(x) || x == pool.last() by {
                let i = choose|i: int| 0 <= i < r.push(pool.last()).len() && r.push(pool.last())[i] == x;
                if i < r.len() {
                    assert(r[i] == x);
                }
            }
            assert(pool[pool.len() - 1] == pool.last());
            if pool.no_duplicates() {
                assert(rest.no_duplicates()) by {
                    assert forall|i: int, j: int| 0 <= i < j < rest.len() implies rest[i] != rest[j] by {
                        assert(pool[i] == rest[i] && pool[j] == rest[j]);
                    }
                }
                assert(!r.contains(pool.last())) by {
                    if r.contains(pool.last()) {
                        let i = choose|i: int| 0 <= i < rest.len() && rest[i] == pool.last();
                        assert(pool[i] == pool[pool.len() - 1]);
                    }
                }
                lemma_push_no_duplicates(r, pool.last());
            }
            assert forall|x: QueueTicketId| #[trigger] ready_ids(v, pool, live).contains(x) implies pool.contains(x) && formation_ready(v, x, live) by {
                if r.contains(x) {
                    assert(rest.contains(x));
                }
            }
        } else {
            assert forall|x: QueueTicketId| #[trigger] ready_ids(v, pool, live).contains(x) implies pool.contains(x) && formation_ready(v, x, live) by {
                assert(r.contains(x));
                assert(rest.contains(x));
            }
            if pool.no_duplicates() {
                assert(rest.no_duplicates()) by {
                    assert forall|i: int, j: int| 0 <= i < j < rest.len() implies rest[i] != rest[j] by {
                        assert(pool[i] == rest[i] && pool[j] == rest[j]);
                    }
                }
            }
        }
    }
}

/// What a roster scan that found a roster knows of it: the roster is the first formation-size
/// ready tickets of its game's pool, with a formation of at least one.
pub open spec fn roster_found(
    v: QueueView,
    games: Seq<crate::catalog::AdvertisedGameType>,
    live: Seq<LobbySessionId>,
    c: RosterCandidate,
    k: int,
) -> bool {
    let game = games[c.index];
    let g = row_index(v.pool_rows, game.id);
    let formation = game.team_count * game.players_per_team;
    &&& 0 <= c.index < k
    &&& 0 <= g < v.pools.len()
    &&& formation > 0
    &&& ready_ids(v, v.pools[g], live).len() >= formation
    &&& c.selected == ready_ids(v, v.pools[g], live).take(formation)
}

/// A roster scan that found a roster found one of its own game types.
pub proof fn lemma_roster_scan_found(
    v: QueueView,
    games: Seq<crate::catalog::AdvertisedGameType>,
    live: Seq<LobbySessionId>,
    k: int,
)
    ensures
        roster_scan(v, games, live, k) matches RosterScan::Best(Some(c)) ==> roster_found(v, games, live, c, k),
    decreases k,
{
    if k > 0 {
        lemma_roster_scan_found(v, games, live, k - 1);
    }
}

/// A pool of a consistent queue repeats no ticket, and a ticket in it waits in no other pool.
pub proof fn lemma_pool_no_duplicates(v: QueueView, g: int)
    requires
        slots_distinct(v),
        0 <= g < v.pools.len(),
    ensures
        v.pools[g].no_duplicates(),
{
    assert forall|i: int, j: int| 0 <= i < j < v.pools[g].len() implies v.pools[g][i] != v.pools[g][j] by {
        if v.pools[g][i] == v.pools[g][j] {
            assert(pool_slot(v, g, i) && pool_slot(v, g, j));
        }
    }
}

/// The first `n` elements of a sequence come from it and repeat none when it repeats none.
pub proof fn lemma_take_facts<T>(s: Seq<T>, n: int)
    requires
        0 <= n <= s.len(),
    ensures
        forall|x: T| #[trigger] s.take(n).contains(x) ==> s.contains(x),
        s.no_duplicates() ==> s.take(n).no_duplicates(),
{
    assert forall|x: T| #[trigger] s.take(n).contains(x) implies s.contains(x) by {
        let i = choose|i: int| 0 <= i < s.take(n).len() && s.take(n)[i] == x;
        assert(s[i] == x);
    }
    if s.no_duplicates() {
        assert forall|i: int, j: int| 0 <= i < j < s.take(n).len() implies s.take(n)[i] != s.take(n)[j] by {
            assert(s.take(n)[i] == s[i] && s.take(n)[j] == s[j]);
        }
    }
}

/// The participants of a roster name exactly its selected tickets, each once when the roster
/// repeats none.
pub proof fn lemma_roster_participants(selected: Seq<QueueTicketId>, team_count: u8)
    ensures
        forall|x: QueueTicketId| #[trigger] lists(roster_participants(selected, team_count), x) <==> selected.contains(x),
        selected.no_duplicates() ==> forall|i: int, j: int|
            0 <= i < j < selected.len() ==> (#[trigger] roster_participants(selected, team_count)[i]).ticket_id != (
            #[trigger] roster_participants(selected, team_count)[j]).ticket_id,
{
    let parts = roster_participants(selected, team_count);
    assert forall|x: QueueTicketId| #[trigger] lists(parts, x) <==> selected.contains(x) by {
        if lists(parts, x) {
            let i = choose|i: int| 0 <= i < parts.len() && #[trigger] parts[i].ticket_id == x;
            assert(selected[i] == x);
        }
        if selected.contains(x) {
            let i = choose|i: int| 0 <= i < selected.len() && selected[i] == x;
            assert(parts[i].ticket_id == x);
        }
    }
}

/// The pools after moving the selected tickets of pool `g` out of it.
pub proof fn lemma_pools_without_selected(v: QueueView, u: QueueView, g: int, sel: Seq<QueueTicketId>)
    requires
        slots_distinct(v),
        0 <= g < v.pools.len(),
        forall|x: QueueTicketId| #[trigger] sel.contains(x) ==> v.pools[g].contains(x),
        u.pools == v.pools.update(g, kept_ids(v.pools[g], sel)),
    ensures
        forall|g1: int, p1: int| #[trigger] pool_slot(u, g1, p1) ==> exists|p2: int|
            pool_slot(v, g1, p2) && v.pools[g1][p2] == u.pools[g1][p1] && !sel.contains(u.pools[g1][p1]),
        forall|x: QueueTicketId| pooled(u, x) <==> pooled(v, x) && !sel.contains(x),
        slots_distinct(u),
{
    let pool = v.pools[g];
    let kept = kept_ids(pool, sel);
    lemma_pool_no_duplicates(v, g);
    lemma_kept_ids(pool, sel);
    assert forall|g1: int, p1: int| #[trigger] pool_slot(u, g1, p1) implies exists|p2: int|
        pool_slot(v, g1, p2) && v.pools[g1][p2] == u.pools[g1][p1] && !sel.contains(u.pools[g1][p1]) by {
        if g1 == g {
            assert(kept.contains(kept[p1]));
            let p2 = choose|p2: int| 0 <= p2 < pool.len() && pool[p2] == kept[p1];
            assert(pool_slot(v, g1, p2));
        } else {
            assert(pool_slot(v, g1, p1));
            if sel.contains(u.pools[g1][p1]) {
                let p2 = choose|p2: int| 0 <= p2 < pool.len() && pool[p2] == u.pools[g1][p1];
                assert(pool_slot(v, g, p2) && v.pools[g][p2] == v.pools[g1][p1]);
            }
        }
    }
    assert forall|x: QueueTicketId| pooled(u, x) <==> pooled(v, x) && !sel.contains(x) by {
        if pooled(u, x) {
            let (g1, p1) = choose|g1: int, p1: int| 0 <= g1 < u.pools.len() && 0 <= p1 < u.pools[g1].len() && u.pools[g1][p1] == x;
            assert(pool_slot(u, g1, p1));
            let p2 = choose|p2: int| pool_slot(v, g1, p2) && v.pools[g1][p2] == u.pools[g1][p1] && !sel.contains(u.pools[g1][p1]);
        }
        if pooled(v, x) && !sel.contains(x) {
            let (g1, p1) = choose|g1: int, p1: int| 0 <= g1 < v.pools.len() && 0 <= p1 < v.pools[g1].len() && v.pools[g1][p1] == x;
            if g1 == g {
                assert(pool.contains(x));
                assert(kept.contains(x));
                let q = choose|q: int| 0 <= q < kept.len() && kept[q] == x;
                assert(u.pools[g][q] == x);
            } else {
                assert(u.pools[g1][p1] == x);
            }
        }
    }
    assert forall|g1: int, p1: int, g2: int, p2: int|
        pool_slot(u, g1, p1) && pool_slot(u, g2, p2) && #[trigger] u.pools[g1][p1] == #[trigger] u.pools[g2][p2]
        implies g1 == g2 && p1 == p2 by {
        assert(pool_slot(u, g1, p1) && pool_slot(u, g2, p2));
        let q1 = choose|q: int| pool_slot(v, g1, q) && v.pools[g1][q] == u.pools[g1][p1] && !sel.contains(u.pools[g1][p1]);
        let q2 = choose|q: int| pool_slot(v, g2, q) && v.pools[g2][q] == u.pools[g2][p2] && !sel.contains(u.pools[g2][p2]);
        assert(g1 == g2);
        if g1 == g {
            assert(kept[p1] == kept[p2]);
        }
    }
}

/// Moving distinct selected tickets of pool `g` into a fresh reservation that names exactly
/// them keeps the queue consistent.
#[verifier::spinoff_prover]
#[verifier::rlimit(50)]
pub proof fn lemma_consistent_reserve_core(
    v: QueueView,
    u: QueueView,
    g: int,
    sel: Seq<QueueTicketId>,
    r: crate::queue::model::ReservationView,
)
    requires
        queue_consistent(v),
        v.reservation is None,
        0 <= g < v.pools.len(),
        sel.no_duplicates(),
        forall|x: QueueTicketId| #[trigger] sel.contains(x) ==> v.pools[g].contains(x),
        forall|x: QueueTicketId| #[trigger] lists(r.participants, x) <==> sel.contains(x),
        forall|i: int, j: int|
            0 <= i < j < r.participants.len() ==> (#[trigger] r.participants[i]).ticket_id != (#[trigger] r.participants[j]).ticket_id,
        u == (QueueView { pools: v.pools.update(g, kept_ids(v.pools[g], sel)), reservation: Some(r), state_revision: u.state_revision, ..v }),
    ensures
        queue_consistent(u),
{
    let pool = v.pools[g];
    lemma_pools_without_selected(v, u, g, sel);
    assert forall|x: QueueTicketId| sel.contains(x) implies holds(v, x) by {
        let i = choose|i: int| 0 <= i < pool.len() && pool[i] == x;
        assert(pool_slot(v, g, i));
        assert(pooled(v, x));
    }
    assert(u.reservation == Some(r));
    assert forall|x: QueueTicketId| reserved(u, x) <==> sel.contains(x) by {
        if reserved(u, x) {
            let i = choose|i: int| 0 <= i < r.participants.len() && r.participants[i].ticket_id == x;
            assert(lists(r.participants, x));
        }
        if lists(r.participants, x) {
            let i = choose|i: int| 0 <= i < r.participants.len() && #[trigger] r.participants[i].ticket_id == x;
            assert(u.reservation->0.participants[i].ticket_id == x);
            assert(reserved(u, x));
        }
    }
    assert(pooled_in_own_game(u)) by {
        assert forall|k: int, g1: int, p1: int|
            0 <= k < u.tickets.len() && pool_slot(u, g1, p1) && #[trigger] u.pools[g1][p1] == (
            #[trigger] u.tickets[k]).ticket_id implies row_index(u.pool_rows, u.tickets[k].game_type_id) == g1 by {
            assert(pool_slot(u, g1, p1));
            let q = choose|q: int| pool_slot(v, g1, q) && v.pools[g1][q] == u.pools[g1][p1] && !sel.contains(u.pools[g1][p1]);
            assert(v.pools[g1][q] == v.tickets[k].ticket_id);
        }
    }
    assert forall|k: int| 0 <= k < u.tickets.len() implies pooled(u, (#[trigger] u.tickets[k]).ticket_id)
        || reserved(u, u.tickets[k].ticket_id) by {
        assert(pooled(v, v.tickets[k].ticket_id) || reserved(v, v.tickets[k].ticket_id));
    }
    assert forall|x: QueueTicketId| #[trigger] pooled(u, x) implies !reserved(u, x) && holds(u, x) by {
        assert(pooled(v, x));
    }
    assert forall|x: QueueTicketId| #[trigger] reserved(u, x) implies holds(u, x) by {
        assert(sel.contains(x));
    }
}

/// Reserving a roster keeps the queue consistent.
#[verifier::spinoff_prover]
#[verifier::rlimit(50)]
pub proof fn lemma_consistent_roster_reserved(
    v: QueueView,
    catalog: crate::catalog::ResolvedLobbyCatalog,
    reservation_id: crate::ids::MatchReservationId,
    live: Seq<LobbySessionId>,
)
    requires
        queue_consistent(v),
    ensures
        queue_consistent(roster_reserved(v, catalog, reservation_id, live).0),
{
    reveal(roster_reserved);
    let games = catalog.game_types@;
    if v.reservation is None && v.state_revision != u64::MAX {
        lemma_roster_scan_found(v, games, live, games.len() as int);
        if let RosterScan::Best(Some(c)) = roster_scan(v, games, live, games.len() as int) {
            let game = games[c.index];
            let g = row_index(v.pool_rows, game.id);
            let pool = v.pools[g];
            let sel = c.selected;
            let f = game.team_count * game.players_per_team;
            lemma_pool_no_duplicates(v, g);
            lemma_ready_ids(v, pool, live);
            lemma_take_facts(ready_ids(v, pool, live), f);
            let (w, r) = roster_reserved(v, catalog, reservation_id, live);
            lemma_roster_participants(sel, game.team_count);
            let u = QueueView {
                pools: v.pools.update(g, kept_ids(pool, sel)),
                reservation: r,
                state_revision: (v.state_revision + 1) as u64,
                ..v
            };
            assert(w == refresh(u));
            assert(r->0.participants == roster_participants(sel, game.team_count));
            assert forall|x: QueueTicketId| #[trigger] sel.contains(x) implies pool.contains(x) by {
                assert(ready_ids(v, pool, live).contains(x));
            }
            lemma_consistent_reserve_core(v, u, g, sel, r->0);
            lemma_consistent_refresh(u);
        }
    }
}
/// Changing ticket fields other than identity, session, client, game type and admission order
/// keeps the queue consistent.
pub proof fn lemma_consistent_ticket_fields(v: QueueView, w: QueueView)
    requires
        queue_consistent(v),
        w == (QueueView { tickets: w.tickets, ..v }),
        w.tickets.len() == v.tickets.len(),
        forall|k: int|
            0 <= k < v.tickets.len() ==> {
                &&& (#[trigger] w.tickets[k]).ticket_id == v.tickets[k].ticket_id
                &&& w.tickets[k].lobby_session_id == v.tickets[k].lobby_session_id
                &&& w.tickets[k].netcode_client_id == v.tickets[k].netcode_client_id
                &&& w.tickets[k].game_type_id == v.tickets[k].game_type_id
                &&& w.tickets[k].admission_order == v.tickets[k].admission_order
            },
    ensures
        queue_consistent(w),
        forall|x: QueueTicketId| holds(w, x) == holds(v, x),
{
    assert forall|x: QueueTicketId| holds(w, x) == holds(v, x) by {
        if holds(w, x) {
            let k = choose|k: int| 0 <= k < w.tickets.len() && #[trigger] w.tickets[k].ticket_id == x;
            assert(v.tickets[k].ticket_id == x);
        }
        if holds(v, x) {
            let k = choose|k: int| 0 <= k < v.tickets.len() && #[trigger] v.tickets[k].ticket_id == x;
            assert(w.tickets[k].ticket_id == x);
        }
    }
    assert(forall|x: QueueTicketId| pooled(w, x) == pooled(v, x));
    assert(forall|x: QueueTicketId| reserved(w, x) == reserved(v, x));
    assert(tickets_distinct(w.tickets)) by {
        assert forall|a: int, b: int| 0 <= a < b < w.tickets.len() implies {
            &&& (#[trigger] w.tickets[a]).ticket_id != (#[trigger] w.tickets[b]).ticket_id
            &&& w.tickets[a].lobby_session_id != w.tickets[b].lobby_session_id
            &&& w.tickets[a].netcode_client_id != w.tickets[b].netcode_client_id
        } by {
            assert(v.tickets[a].ticket_id != v.tickets[b].ticket_id);
        }
    }
    assert forall|k: int| 0 <= k < w.tickets.len() implies w.client_tickets[k] == client_entry(#[trigger] w.tickets[k]) by {
        assert(v.client_tickets[k] == client_entry(v.tickets[k]));
    }
    assert forall|k: int| 0 <= k < w.tickets.len() implies pooled(w, (#[trigger] w.tickets[k]).ticket_id)
        || reserved(w, w.tickets[k].ticket_id) by {
        assert(pooled(v, v.tickets[k].ticket_id) || reserved(v, v.tickets[k].ticket_id));
    }
    assert(pooled_in_own_game(w)) by {
        assert forall|k: int, g: int, p: int|
            0 <= k < w.tickets.len() && pool_slot(w, g, p) && #[trigger] w.pools[g][p] == (#[trigger] w.tickets[k]).ticket_id
            implies row_index(w.pool_rows, w.tickets[k].game_type_id) == g by {
            assert(pool_slot(v, g, p) && v.pools[g][p] == v.tickets[k].ticket_id);
        }
    }
    assert(identities_issued(w)) by {
        match v.ticket_namespace {
            Some(ns) => {
                assert forall|k: int| 0 <= k < w.tickets.len() implies ticket_id_in(ns, (#[trigger] w.tickets[k]).admission_order)
                    == Some(w.tickets[k].ticket_id) && w.tickets[k].admission_order < w.next_admission_order by {
                    assert(ticket_id_in(ns, v.tickets[k].admission_order) == Some(v.tickets[k].ticket_id));
                }
            },
            None => {},
        }
    }
}

/// Acknowledging keeps the queue consistent.
#[verifier::spinoff_prover]
pub proof fn lemma_consistent_acknowledged(v: QueueView, session_id: LobbySessionId, request_id: crate::ids::QueueRequestId)
    requires
        queue_consistent(v),
    ensures
        queue_consistent(acknowledged(v, session_id, request_id).0),
{
    reveal(acknowledged);
    lemma_consistent_small_steps(v, 0, v.memories[0].memory, crate::queue::model::Counter::ProtocolAbuse);
    let i = crate::queue::model::memory_index(v.memories, session_id);
    if i >= 0 {
        let m = v.memories[i].memory;
        if m.pending_outcome is Some && m.pending_outcome->0.request_id == request_id {
            let pending = m.pending_outcome->0;
            let m2 = crate::queue::memory::QueueCommandMemory {
                pending_outcome: None,
                last_acknowledged_outcome_request_id: Some(request_id),
                identical_retry_not_before: None,
                early_identical_retry_count: 0,
                ..m
            };
            let v2 = with_memory(v, i, m2);
            lemma_consistent_small_steps(v, i, m2, crate::queue::model::Counter::ProtocolAbuse);
            lemma_consistent_small_steps(v2, i, m2, crate::queue::model::Counter::ProtocolAbuse);
            match pending.outcome.decision {
                crate::wire::QueueDecision::Joined(membership) => {
                    let t = ticket_index(v2.tickets, membership.ticket_id);
                    if t >= 0 {
                        lemma_ticket_index_holds(v2, membership.ticket_id);
                        let v3 = QueueView {
                            tickets: v2.tickets.update(t, QueueTicket { formation_eligible: true, ..v2.tickets[t] }),
                            ..v2
                        };
                        lemma_consistent_ticket_fields(v2, v3);
                        lemma_consistent_small_steps(v3, i, m2, crate::queue::model::Counter::ProtocolAbuse);
                    }
                },
                _ => {},
            }
        }
    }
}

/// Removing a session keeps the queue consistent, leaves the session no ticket, and keeps
/// every other held ticket.
#[verifier::spinoff_prover]
#[verifier::rlimit(50)]
pub proof fn lemma_consistent_session_removed(v: QueueView, session_id: LobbySessionId)
    requires
        queue_consistent(v),
    ensures ({
        let (w, removed) = session_removed(v, session_id);
        &&& queue_consistent(w)
        &&& removed == (ticket_of_session(v, session_id) is Some)
        &&& ticket_of_session(w, session_id) is None
        &&& forall|x: QueueTicketId| holds(w, x) <==> holds(v, x) && (ticket_of_session(v, session_id) matches Some(t) ==> x != t.ticket_id)
    }),
{
    reveal(session_removed);
    let (w, removed) = session_removed(v, session_id);
    let t = ticket_of_session(v, session_id);
    lemma_first_index_facts(v.tickets, |u: QueueTicket| u.lobby_session_id == session_id);
    let v1 = match t {
        Some(t) => without_ticket(v, t.ticket_id),
        None => v,
    };
    match t {
        Some(tt) => {
            let i = crate::queue::model::session_ticket_index(v.tickets, session_id);
            assert(v.tickets[i] == tt);
            assert(holds(v, tt.ticket_id));
            lemma_consistent_without_ticket(v, tt.ticket_id);
        },
        None => {},
    }
    let m = crate::queue::model::memory_index(v1.memories, session_id);
    let v2 = if m >= 0 {
        QueueView { memories: v1.memories.remove(m), ..v1 }
    } else {
        v1
    };
    lemma_consistent_frame(v1, v2);
    assert(forall|x: QueueTicketId| holds(v2, x) == holds(v1, x));
    lemma_consistent_refresh(v2);
    lemma_consistent_small_steps(refresh(v2), 0, v.memories[0].memory, crate::queue::model::Counter::DisconnectRemovals);
    let v3 = bump(refresh(v2), crate::queue::model::Counter::DisconnectRemovals);
    let v4 = if v.state_revision == u64::MAX {
        QueueView { revision_exhausted: true, ..v3 }
    } else {
        QueueView { state_revision: (v.state_revision + 1) as u64, ..v3 }
    };
    lemma_consistent_frame(v3, v4);
    lemma_consistent_small_steps(v4, 0, v.memories[0].memory, crate::queue::model::Counter::DisconnectRemovals);
    lemma_consistent_small_steps(v2, 0, v.memories[0].memory, crate::queue::model::Counter::DisconnectRemovals);
    reveal(refresh);
    reveal(observe);
    assert(w.tickets == v2.tickets && w.memories == v2.memories);
    assert forall|x: QueueTicketId| holds(w, x) == holds(v2, x) by {}
    assert(w.tickets == v2.tickets);
    assert forall|j: int| 0 <= j < w.tickets.len() implies !(|u: QueueTicket| u.lobby_session_id == session_id)(#[trigger] w.tickets[j]) by {
        match t {
            Some(tt) => {
                let i = crate::queue::model::session_ticket_index(v.tickets, session_id);
                lemma_ticket_index_at(v.tickets, i);
                v.tickets.remove_ensures(i);
                let j2 = if j < i { j } else { j + 1 };
                assert(w.tickets[j] == v.tickets[j2]);
                if j2 < i {
                    assert(v.tickets[j2].lobby_session_id != v.tickets[i].lobby_session_id);
                } else {
                    assert(v.tickets[i].lobby_session_id != v.tickets[j2].lobby_session_id);
                }
            },
            None => {
                assert(w.tickets[j] == v.tickets[j]);
            },
        }
    }
    lemma_first_index_none(w.tickets, |u: QueueTicket| u.lobby_session_id == session_id);
}
/// Removing tickets one after another keeps the queue consistent.
pub proof fn lemma_consistent_without_tickets(v: QueueView, tickets: Seq<QueueTicket>)
    requires
        queue_consistent(v),
    ensures
        queue_consistent(without_tickets(v, tickets)),
        forall|x: QueueTicketId| holds(without_tickets(v, tickets), x) ==> holds(v, x),
    decreases tickets.len(),
{
    if tickets.len() > 0 {
        lemma_consistent_without_tickets(v, tickets.drop_last());
        lemma_consistent_without_ticket(without_tickets(v, tickets.drop_last()), tickets.last().ticket_id);
    }
}

/// Completing a reservation keeps the queue consistent.
pub proof fn lemma_consistent_reservation_completed(v: QueueView, reservation_id: crate::ids::MatchReservationId)
    requires
        queue_consistent(v),
    ensures
        queue_consistent(reservation_completed(v, reservation_id).0),
{
    reveal(reservation_completed);
    match v.reservation {
        Some(r) => {
            if r.reservation_id == reservation_id {
                let ts = crate::queue::model::participant_tickets(v, r.participants);
                lemma_consistent_without_tickets(v, ts);
                lemma_consistent_refresh(without_tickets(v, ts));
                lemma_consistent_small_steps(refresh(without_tickets(v, ts)), 0, v.memories[0].memory, crate::queue::model::Counter::ProtocolAbuse);
            }
        },
        None => {},
    }
}

/// Changing the reservation's flags and the map ordinals keeps the queue consistent.
pub proof fn lemma_consistent_reservation_flags(v: QueueView, w: QueueView)
    requires
        queue_consistent(v),
        w == (QueueView { reservation: w.reservation, map_ordinals: w.map_ordinals, ..v }),
        v.reservation is Some,
        w.reservation is Some,
        w.reservation->0.participants == v.reservation->0.participants,
    ensures
        queue_consistent(w),
{
    assert(w.pools == v.pools && w.tickets == v.tickets);
    assert forall|x: QueueTicketId| pooled(w, x) == pooled(v, x) by {}
    assert forall|x: QueueTicketId| holds(w, x) == holds(v, x) by {}
    assert forall|x: QueueTicketId| reserved(w, x) == reserved(v, x) by {}
}

/// Marking a reservation ready for handoff keeps the queue consistent.
pub proof fn lemma_consistent_handoff_marked(v: QueueView, reservation_id: crate::ids::MatchReservationId)
    requires
        queue_consistent(v),
    ensures
        queue_consistent(handoff_marked(v, reservation_id).0),
{
    reveal(handoff_marked);
    let (w, marked) = handoff_marked(v, reservation_id);
    if marked {
        lemma_consistent_reservation_flags(v, w);
    }
}
} // verus!
