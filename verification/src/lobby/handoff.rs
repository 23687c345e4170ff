//! The lobby's product handoff: forming a match from the queue's oldest complete roster, and
//! abandoning it when the supervisor refuses it, it times out, or it dissolves.

use vstd::prelude::*;
use crate::catalog::ResolvedLobbyCatalog;
use crate::ids::{LobbySessionId, MatchReservationId};
use crate::lobby::formation::{sequence_issued, PendingSessionGrant, ProductFormationState, SessionSequence};
use crate::lobby::model::{
    activation_completed, client_detached, grant_taken, product_cancelled, product_request_created, LobbyView,
    RoutingModes,
};
use crate::lobby::practice::PracticeFormation;
use crate::lobby::routing::{ActivationBody, MatchRouteGrant};
use crate::lobby::state::{LobbyClient, LobbySessionIdSource, LobbyState};
use crate::queue::model::{
    first_index, handoff_marked, lemma_first_index_at, lemma_first_index_none, participant_position,
    reservation_completed, roster_reserved, session_removed, ticket_of_session, QueueReservation, QueueTicket,
    QueueView,
};
use crate::session::LobbySession;
use crate::queue::state::{QueueState, QueueTicketIdSource};

verus! {

/// Why a forming match was abandoned.
#[derive(Clone, Copy, Debug, PartialEq, Eq, Structural)]
pub enum MatchStartFailure {
    /// The supervisor refused the allocation, or the match dissolved.
    WorkerFailed,
    /// Grants or loading did not arrive in time.
    TimedOut,
    /// A reserved player disconnected.
    ParticipantLost,
    /// A player cancelled the forming match.
    Cancelled,
}

/// A forming match that was abandoned: its reservation, why, the practice player or the queue
/// tickets it released, and the activation to cancel, if one had arrived.
pub struct ProductExpiry {
    pub reservation_id: MatchReservationId,
    pub reason: MatchStartFailure,
    pub practice_session: Option<LobbySessionId>,
    pub removed: Vec<QueueTicket>,
    pub cancelled: Option<ActivationBody>,
}

/// A match that dissolved: its reservation, and the practice player or the queue tickets it
/// released.
pub struct ProductDissolution {
    pub reservation_id: MatchReservationId,
    pub practice_session: Option<LobbySessionId>,
    pub removed: Vec<QueueTicket>,
}

/// Two formation states hold the same values.
pub open spec fn same_formation(a: ProductFormationState, b: ProductFormationState) -> bool {
    &&& a.active == b.active
    &&& a.practice == b.practice
    &&& a.next_sequence@ == b.next_sequence@
    &&& a.pending_grants@ == b.pending_grants@
    &&& a.begin_sent@ == b.begin_sent@
    &&& a.loading_deadline_millis == b.loading_deadline_millis
    &&& a.grant_deadline_millis == b.grant_deadline_millis
}

/// `now_millis + delay`, saturating.
pub open spec fn deadline_after(now_millis: u64, delay: u64) -> u64 {
    if now_millis + delay > u64::MAX {
        u64::MAX
    } else {
        (now_millis + delay) as u64
    }
}

/// `a` is `b` with nothing active: no reservation, no practice request and no handoff, and
/// the same sequences.
pub open spec fn formation_cleared(a: ProductFormationState, b: ProductFormationState) -> bool {
    &&& a.active is None
    &&& a.practice is None
    &&& a.next_sequence@ == b.next_sequence@
    &&& a.pending_grants@ == Seq::<PendingSessionGrant>::empty()
    &&& a.begin_sent@ == Seq::<LobbySessionId>::empty()
    &&& a.loading_deadline_millis is None
    &&& a.grant_deadline_millis is None
}

/// The session of a practice formation, if there is one.
pub open spec fn practice_session_of(practice: Option<PracticeFormation>) -> Option<LobbySessionId> {
    match practice {
        Some(p) => Some(p.session_id),
        None => None,
    }
}

/// Form a match from the queue when the lobby has a free match slot and nothing is forming:
/// reserve the oldest complete roster of live sessions under the reservation identity drawn
/// for it (`reservation_entropy`; none when drawing failed, and zero is no identity), and open
/// its allocation request. A roster whose request cannot be opened is released again. A formed
/// match is active at `now_millis` with a fresh handoff: grants are due within ten seconds and
/// loading within thirty.
pub fn form_product_reservation<S: LobbySessionIdSource, T: QueueTicketIdSource>(
    lobby: &mut LobbyState<S>,
    queue: &mut QueueState<T>,
    catalog: &ResolvedLobbyCatalog,
    formation: &mut ProductFormationState,
    reservation_entropy: Option<u128>,
    live_sessions: &Vec<LobbySessionId>,
    modes: RoutingModes,
    rules_profile: u8,
    now_millis: u64,
) -> (formed: Option<QueueReservation>)
    requires
        catalog.well_formed(),
    ensures
        ({
            let idle = old(lobby)@.free_match_slots != 0 && old(formation).active is None
                && old(queue)@.reservation is None;
            if !idle || reservation_entropy is None || reservation_entropy == Some(0u128) {
                &&& final(lobby)@ == old(lobby)@
                &&& final(queue)@ == old(queue)@
                &&& same_formation(*final(formation), *old(formation))
                &&& formed is None
            } else {
                let id = MatchReservationId(reservation_entropy->0);
                let (q1, reserved) = roster_reserved(old(queue)@, *catalog, id, live_sessions@);
                match reserved {
                    None => {
                        &&& final(lobby)@ == old(lobby)@
                        &&& final(queue)@ == q1
                        &&& same_formation(*final(formation), *old(formation))
                        &&& formed is None
                    },
                    Some(r) => {
                        let (l1, created) = product_request_created(old(lobby)@, q1, r, *catalog, modes, rules_profile);
                        &&& final(lobby)@ == l1
                        &&& created is Err ==> {
                            &&& final(queue)@ == reservation_completed(q1, id).0
                            &&& same_formation(*final(formation), *old(formation))
                            &&& formed is None
                        }
                        &&& created is Ok ==> {
                            &&& final(queue)@ == q1
                            &&& formed matches Some(x) && x.model() == r
                            &&& final(formation).active == Some(id)
                            &&& final(formation).practice == old(formation).practice
                            &&& final(formation).next_sequence@ == old(formation).next_sequence@
                            &&& final(formation).pending_grants@ == Seq::<PendingSessionGrant>::empty()
                            &&& final(formation).begin_sent@ == Seq::<LobbySessionId>::empty()
                            &&& final(formation).loading_deadline_millis == Some(deadline_after(now_millis, 30_000))
                            &&& final(formation).grant_deadline_millis == Some(deadline_after(now_millis, 10_000))
                        }
                    },
                }
            }
        }),
{
    if lobby.free_match_slots() == 0 || formation.active.is_some() || queue.reservation_count() != 0 {
        return None;
    }
    let entropy = match reservation_entropy {
        Some(entropy) => entropy,
        None => return None,
    };
    let reservation_id = match MatchReservationId::new(entropy) {
        Some(id) => id,
        None => return None,
    };
    let reservation = match queue.reserve_oldest_exact(catalog, reservation_id, live_sessions) {
        Some(reservation) => reservation,
        None => return None,
    };
    if lobby.create_product_request(&reservation, queue, catalog, modes, rules_profile).is_err() {
        queue.complete_reservation(reservation_id);
        return None;
    }
    formation.active = Some(reservation_id);
    formation.clear_handoff();
    formation.loading_deadline_millis = Some(now_millis.saturating_add(30_000));
    formation.grant_deadline_millis = Some(now_millis.saturating_add(10_000));
    Some(reservation)
}

/// Abandon the forming match at `now_millis` when the supervisor refused it, when its grants
/// (one for a practice match, one per reserved participant otherwise) are still incomplete
/// after their deadline, or when loading passed its deadline. An abandoned queue match
/// releases its reservation's tickets; the allocation is cancelled and nothing is active
/// afterwards. The lobby's refusal flag is taken whenever a match is forming.
pub fn expire_product_reservation<S: LobbySessionIdSource, T: QueueTicketIdSource>(
    lobby: &mut LobbyState<S>,
    queue: &mut QueueState<T>,
    formation: &mut ProductFormationState,
    now_millis: u64,
) -> (expiry: Option<ProductExpiry>)
    ensures
        match old(formation).active {
            None => {
                &&& final(lobby)@ == old(lobby)@
                &&& final(queue)@ == old(queue)@
                &&& same_formation(*final(formation), *old(formation))
                &&& expiry is None
            },
            Some(id) => {
                let f = *old(formation);
                let expected = if f.practice is Some {
                    1
                } else {
                    match old(queue)@.reservation {
                        Some(r) => if r.reservation_id == id {
                            r.participants.len() as int
                        } else {
                            0
                        },
                        None => 0,
                    }
                };
                let grant_expired = f.pending_grants@.len() != expected && (f.grant_deadline_millis matches Some(
                    deadline,
                ) && now_millis >= deadline);
                let loading_expired = f.loading_deadline_millis matches Some(deadline) && now_millis >= deadline;
                let rejected = old(lobby)@.allocation_rejected;
                let l0 = LobbyView { allocation_rejected: false, ..old(lobby)@ };
                if !rejected && !grant_expired && !loading_expired {
                    &&& final(lobby)@ == l0
                    &&& final(queue)@ == old(queue)@
                    &&& same_formation(*final(formation), *old(formation))
                    &&& expiry is None
                } else {
                    let (q1, removed) = if f.practice is Some {
                        (old(queue)@, Seq::<QueueTicket>::empty())
                    } else {
                        reservation_completed(old(queue)@, id)
                    };
                    let (l1, cancelled) = product_cancelled(l0);
                    &&& final(lobby)@ == l1
                    &&& final(queue)@ == q1
                    &&& formation_cleared(*final(formation), *old(formation))
                    &&& expiry matches Some(e) && {
                        &&& e.reservation_id == id
                        &&& e.reason == (if rejected {
                            MatchStartFailure::WorkerFailed
                        } else {
                            MatchStartFailure::TimedOut
                        })
                        &&& e.practice_session == practice_session_of(f.practice)
                        &&& e.removed@ == removed
                        &&& e.cancelled == cancelled
                    }
                }
            },
        },
{
    let reservation_id = match formation.active {
        Some(id) => id,
        None => return None,
    };
    let expected: usize = if formation.practice.is_some() {
        1
    } else {
        match queue.reservation(reservation_id) {
            Some(reservation) => reservation.participants.len(),
            None => 0,
        }
    };
    let grant_expired = formation.pending_grants.len() != expected && match formation.grant_deadline_millis {
        Some(deadline) => now_millis >= deadline,
        None => false,
    };
    let loading_expired = match formation.loading_deadline_millis {
        Some(deadline) => now_millis >= deadline,
        None => false,
    };
    let rejected = lobby.take_allocation_rejected();
    if !rejected && !grant_expired && !loading_expired {
        return None;
    }
    let reason = if rejected {
        MatchStartFailure::WorkerFailed
    } else {
        MatchStartFailure::TimedOut
    };
    let practice_session = match &formation.practice {
        Some(practice) => Some(practice.session_id),
        None => None,
    };
    let removed = if formation.practice.is_some() {
        Vec::new()
    } else {
        queue.complete_reservation(reservation_id)
    };
    let cancelled = lobby.cancel_product_allocation();
    formation.clear_active();
    Some(ProductExpiry { reservation_id, reason, practice_session, removed, cancelled })
}

/// Release a match that the supervisor dissolved: when the lobby saw the dissolution and a
/// match is active, a queue match releases its reservation's tickets, and nothing is active
/// afterwards. The lobby's dissolution flag is taken in any case.
pub fn apply_product_dissolution<S: LobbySessionIdSource, T: QueueTicketIdSource>(
    lobby: &mut LobbyState<S>,
    queue: &mut QueueState<T>,
    formation: &mut ProductFormationState,
) -> (dissolution: Option<ProductDissolution>)
    ensures
        final(lobby)@ == (LobbyView { product_dissolved: false, ..old(lobby)@ }),
        match old(formation).active {
            Some(id) if old(lobby)@.product_dissolved => {
                let (q1, removed) = if old(formation).practice is Some {
                    (old(queue)@, Seq::<QueueTicket>::empty())
                } else {
                    reservation_completed(old(queue)@, id)
                };
                &&& final(queue)@ == q1
                &&& formation_cleared(*final(formation), *old(formation))
                &&& dissolution matches Some(d) && {
                    &&& d.reservation_id == id
                    &&& d.practice_session == practice_session_of(old(formation).practice)
                    &&& d.removed@ == removed
                }
            },
            _ => {
                &&& final(queue)@ == old(queue)@
                &&& same_formation(*final(formation), *old(formation))
                &&& dissolution is None
            },
        },
{
    if !lobby.take_product_dissolved() {
        return None;
    }
    let reservation_id = match formation.active {
        Some(id) => id,
        None => return None,
    };
    let practice_session = match &formation.practice {
        Some(practice) => Some(practice.session_id),
        None => None,
    };
    let removed = if formation.practice.is_some() {
        Vec::new()
    } else {
        queue.complete_reservation(reservation_id)
    };
    formation.clear_active();
    Some(ProductDissolution { reservation_id, practice_session, removed })
}

/// The notice that tells a session to connect to its match, with its handoff sequence number
/// and route grant.
#[derive(Clone, Copy, PartialEq, Eq)]
pub struct BeginNotice {
    pub session_id: LobbySessionId,
    pub sequence: u64,
    pub grant: MatchRouteGrant,
}

/// Index of the pending grant of `session_id`.
pub open spec fn pending_grant_index(grants: Seq<PendingSessionGrant>, session_id: LobbySessionId) -> int {
    first_index(grants, |g: PendingSessionGrant| g.session_id == session_id)
}

/// Whether the grant of `session_id` belongs to the forming match: the practice player of a
/// practice match, or a session whose ticket the queue's reservation holds.
pub open spec fn grant_belongs(q: QueueView, practice: Option<PracticeFormation>, session_id: LobbySessionId) -> bool {
    match practice {
        Some(p) => p.session_id == session_id,
        None => match ticket_of_session(q, session_id) {
            Some(t) => q.reservation matches Some(r) && participant_position(r.participants, t.ticket_id) >= 0,
            None => false,
        },
    }
}

/// The lobby and the pending grants after collecting, from the first `k` clients, the route
/// grants of the match's sessions that have none pending yet.
pub open spec fn grants_collected(
    l: LobbyView,
    q: QueueView,
    practice: Option<PracticeFormation>,
    grants: Seq<PendingSessionGrant>,
    clients: Seq<LobbyClient>,
    k: int,
) -> (LobbyView, Seq<PendingSessionGrant>)
    decreases k,
{
    if k <= 0 {
        (l, grants)
    } else {
        let (l1, g1) = grants_collected(l, q, practice, grants, clients, k - 1);
        grant_collected(l1, q, practice, g1, clients[k - 1])
    }
}

/// The lobby and the pending grants after collecting the route grant of `client`, if it
/// belongs to the match and has none pending yet.
#[verifier::opaque]
pub open spec fn grant_collected(
    l: LobbyView,
    q: QueueView,
    practice: Option<PracticeFormation>,
    grants: Seq<PendingSessionGrant>,
    client: LobbyClient,
) -> (LobbyView, Seq<PendingSessionGrant>) {
    if grant_belongs(q, practice, client.lobby_session_id) && pending_grant_index(grants, client.lobby_session_id) < 0 {
        match grant_taken(l, client.client_id.0) {
            (l2, Some(grant)) => (l2, grants.push(PendingSessionGrant { session_id: client.lobby_session_id, grant: grant })),
            (l2, None) => (l2, grants),
        }
    } else {
        (l, grants)
    }
}

/// The sequences, the sessions told to begin, and the notices after telling each of the
/// first `k` clients with a pending grant, and not told yet, to begin connecting.
pub open spec fn begins_sent(
    sequences: Seq<SessionSequence>,
    sent: Seq<LobbySessionId>,
    grants: Seq<PendingSessionGrant>,
    clients: Seq<LobbyClient>,
    k: int,
) -> (Seq<SessionSequence>, Seq<LobbySessionId>, Seq<BeginNotice>)
    decreases k,
{
    if k <= 0 {
        (sequences, sent, Seq::empty())
    } else {
        let (s1, b1, n1) = begins_sent(sequences, sent, grants, clients, k - 1);
        let session_id = clients[k - 1].lobby_session_id;
        let g = pending_grant_index(grants, session_id);
        if b1.contains(session_id) || g < 0 {
            (s1, b1, n1)
        } else {
            let (sequence, s2) = sequence_issued(s1, session_id);
            (s2, b1.push(session_id), n1.push(BeginNotice { session_id: session_id, sequence: sequence, grant: grants[g].grant }))
        }
    }
}

/// The number of grants the forming match `id` needs: one for a practice match, one per
/// reserved participant otherwise.
pub open spec fn grants_needed(q: QueueView, practice: Option<PracticeFormation>, id: MatchReservationId) -> int {
    if practice is Some {
        1
    } else {
        match q.reservation {
            Some(r) => if r.reservation_id == id {
                r.participants.len() as int
            } else {
                0
            },
            None => 0,
        }
    }
}

impl ProductFormationState {
    fn pending_grant_at(&self, session_id: LobbySessionId) -> (found: Option<usize>)
        ensures
            match found {
                Some(i) => i == pending_grant_index(self.pending_grants@, session_id) && i < self.pending_grants@.len(),
                None => pending_grant_index(self.pending_grants@, session_id) < 0,
            },
    {
        let mut i: usize = 0;
        while i < self.pending_grants.len()
            invariant
                i <= self.pending_grants@.len(),
                forall|j: int| 0 <= j < i ==> (#[trigger] self.pending_grants@[j]).session_id != session_id,
            decreases self.pending_grants@.len() - i,
        {
            if self.pending_grants[i].session_id == session_id {
                proof {
                    lemma_first_index_at(self.pending_grants@, |g: PendingSessionGrant| g.session_id == session_id, i as int);
                }
                return Some(i);
            }
            i = i + 1;
        }
        proof {
            lemma_first_index_none(self.pending_grants@, |g: PendingSessionGrant| g.session_id == session_id);
        }
        None
    }

    fn begin_was_sent(&self, session_id: LobbySessionId) -> (sent: bool)
        ensures
            sent == self.begin_sent@.contains(session_id),
    {
        let mut i: usize = 0;
        while i < self.begin_sent.len()
            invariant
                i <= self.begin_sent@.len(),
                forall|j: int| 0 <= j < i ==> self.begin_sent@[j] != session_id,
            decreases self.begin_sent@.len() - i,
        {
            if self.begin_sent[i] == session_id {
                assert(self.begin_sent@[i as int] == session_id);
                return true;
            }
            i = i + 1;
        }
        false
    }
}

/// Whether the grant of `session_id` belongs to the forming match.
fn grant_belongs_to_match<T: QueueTicketIdSource>(
    queue: &QueueState<T>,
    practice: &Option<PracticeFormation>,
    session_id: LobbySessionId,
) -> (belongs: bool)
    ensures
        belongs == grant_belongs(queue@, *practice, session_id),
{
    match practice {
        Some(p) => p.session_id == session_id,
        None => match queue.ticket_for_session(session_id) {
            Some(ticket) => queue.reservation_for_ticket(ticket.ticket_id).is_some(),
            None => false,
        },
    }
}

/// Collect the route grant of `client`, if it belongs to the match and has none pending yet.
fn collect_grant<S: LobbySessionIdSource, T: QueueTicketIdSource>(
    lobby: &mut LobbyState<S>,
    queue: &QueueState<T>,
    formation: &mut ProductFormationState,
    client: LobbyClient,
)
    ensures
        (final(lobby)@, final(formation).pending_grants@) == grant_collected(
            old(lobby)@,
            queue@,
            old(formation).practice,
            old(formation).pending_grants@,
            client,
        ),
        final(formation).active == old(formation).active,
        final(formation).practice == old(formation).practice,
        final(formation).next_sequence@ == old(formation).next_sequence@,
        final(formation).begin_sent@ == old(formation).begin_sent@,
        final(formation).loading_deadline_millis == old(formation).loading_deadline_millis,
        final(formation).grant_deadline_millis == old(formation).grant_deadline_millis,
{
    proof {
        reveal(grant_collected);
    }
    let session_id = client.lobby_session_id;
    if grant_belongs_to_match(queue, &formation.practice, session_id) && formation.pending_grant_at(session_id).is_none() {
        match lobby.take_route_grant(client.client_id.0) {
            Some(grant) => {
                formation.pending_grants.push(PendingSessionGrant { session_id: session_id, grant: grant });
            },
            None => {},
        }
    }
}

/// Collect, from `clients` in order, the route grants of the match's sessions that have none
/// pending yet.
fn collect_grants<S: LobbySessionIdSource, T: QueueTicketIdSource>(
    lobby: &mut LobbyState<S>,
    queue: &QueueState<T>,
    formation: &mut ProductFormationState,
    clients: &Vec<LobbyClient>,
)
    ensures
        (final(lobby)@, final(formation).pending_grants@) == grants_collected(
            old(lobby)@,
            queue@,
            old(formation).practice,
            old(formation).pending_grants@,
            clients@,
            clients@.len() as int,
        ),
        final(formation).active == old(formation).active,
        final(formation).practice == old(formation).practice,
        final(formation).next_sequence@ == old(formation).next_sequence@,
        final(formation).begin_sent@ == old(formation).begin_sent@,
        final(formation).loading_deadline_millis == old(formation).loading_deadline_millis,
        final(formation).grant_deadline_millis == old(formation).grant_deadline_millis,
{
    let ghost l0 = lobby@;
    let ghost g0 = formation.pending_grants@;
    let mut i: usize = 0;
    while i < clients.len()
        invariant
            i <= clients@.len(),
            lobby@ == grants_collected(l0, queue@, old(formation).practice, g0, clients@, i as int).0,
            formation.pending_grants@ == grants_collected(l0, queue@, old(formation).practice, g0, clients@, i as int).1,
            formation.active == old(formation).active,
            formation.practice == old(formation).practice,
            formation.next_sequence@ == old(formation).next_sequence@,
            formation.begin_sent@ == old(formation).begin_sent@,
            formation.loading_deadline_millis == old(formation).loading_deadline_millis,
            formation.grant_deadline_millis == old(formation).grant_deadline_millis,
        decreases clients@.len() - i,
    {
        collect_grant(lobby, queue, formation, clients[i]);
        i = i + 1;
    }
}

/// Hand the forming match's route grants to its players, `clients` in order: first collect,
/// from the lobby, the grant of each of the match's sessions that has none pending; once every
/// needed grant is pending, mark a queue match's reservation ready for handoff and tell each
/// client with a pending grant, and not told yet, to begin connecting. Nothing happens while
/// no match is forming or it needs no grant.
#[verifier::rlimit(30)]
pub fn deliver_product_grants<S: LobbySessionIdSource, T: QueueTicketIdSource>(
    lobby: &mut LobbyState<S>,
    queue: &mut QueueState<T>,
    formation: &mut ProductFormationState,
    clients: &Vec<LobbyClient>,
) -> (notices: Vec<BeginNotice>)
    ensures
        final(formation).active == old(formation).active,
        final(formation).practice == old(formation).practice,
        final(formation).loading_deadline_millis == old(formation).loading_deadline_millis,
        final(formation).grant_deadline_millis == old(formation).grant_deadline_millis,
        match old(formation).active {
            Some(id) if grants_needed(old(queue)@, old(formation).practice, id) > 0 => {
                let practice = old(formation).practice;
                let (l1, grants) = grants_collected(
                    old(lobby)@,
                    old(queue)@,
                    practice,
                    old(formation).pending_grants@,
                    clients@,
                    clients@.len() as int,
                );
                &&& final(lobby)@ == l1
                &&& final(formation).pending_grants@ == grants
                &&& if grants.len() != grants_needed(old(queue)@, practice, id) {
                    &&& final(queue)@ == old(queue)@
                    &&& final(formation).next_sequence@ == old(formation).next_sequence@
                    &&& final(formation).begin_sent@ == old(formation).begin_sent@
                    &&& notices@ == Seq::<BeginNotice>::empty()
                } else {
                    let (sequences, sent, told) = begins_sent(
                        old(formation).next_sequence@,
                        old(formation).begin_sent@,
                        grants,
                        clients@,
                        clients@.len() as int,
                    );
                    &&& final(queue)@ == (if practice is Some {
                        old(queue)@
                    } else {
                        handoff_marked(old(queue)@, id).0
                    })
                    &&& final(formation).next_sequence@ == sequences
                    &&& final(formation).begin_sent@ == sent
                    &&& notices@ == told
                }
            },
            _ => {
                &&& final(lobby)@ == old(lobby)@
                &&& final(queue)@ == old(queue)@
                &&& final(formation).pending_grants@ == old(formation).pending_grants@
                &&& final(formation).next_sequence@ == old(formation).next_sequence@
                &&& final(formation).begin_sent@ == old(formation).begin_sent@
                &&& notices@ == Seq::<BeginNotice>::empty()
            },
        },
{
    let reservation_id = match formation.active {
        Some(id) => id,
        None => return Vec::new(),
    };
    let needed: usize = if formation.practice.is_some() {
        1
    } else {
        match queue.reservation(reservation_id) {
            Some(reservation) => reservation.participants.len(),
            None => 0,
        }
    };
    if needed == 0 {
        return Vec::new();
    }
    collect_grants(lobby, queue, formation, clients);
    if formation.pending_grants.len() != needed {
        return Vec::new();
    }
    if formation.practice.is_none() {
        queue.mark_reservation_handoff_ready(reservation_id);
    }
    let ghost grants = formation.pending_grants@;
    let ghost s0 = formation.next_sequence@;
    let ghost b0 = formation.begin_sent@;
    let mut notices: Vec<BeginNotice> = Vec::new();
    let mut k: usize = 0;
    while k < clients.len()
        invariant
            k <= clients@.len(),
            formation.pending_grants@ == grants,
            (formation.next_sequence@, formation.begin_sent@, notices@) == begins_sent(s0, b0, grants, clients@, k as int),
            formation.active == Some(reservation_id),
            formation.practice == old(formation).practice,
            formation.loading_deadline_millis == old(formation).loading_deadline_millis,
            formation.grant_deadline_millis == old(formation).grant_deadline_millis,
        decreases clients@.len() - k,
    {
        let session_id = clients[k].lobby_session_id;
        if !formation.begin_was_sent(session_id) {
            match formation.pending_grant_at(session_id) {
                Some(g) => {
                    let grant = formation.pending_grants[g].grant;
                    let sequence = formation.next_sequence(session_id);
                    formation.begin_sent.push(session_id);
                    notices.push(BeginNotice { session_id: session_id, sequence: sequence, grant: grant });
                },
                None => {},
            }
        }
        k = k + 1;
    }
    notices
}

/// The sessions of `notices`, in order.
pub open spec fn notice_sessions(notices: Seq<BeginNotice>) -> Seq<LobbySessionId> {
    notices.map_values(|n: BeginNotice| n.session_id)
}

/// Each session is told to begin connecting at most once: the sessions told are those told
/// before followed by the sessions of the new notices, none of which had been told before,
/// and no session is told twice.
pub proof fn law_begin_notices_are_unique(
    sequences: Seq<SessionSequence>,
    sent: Seq<LobbySessionId>,
    grants: Seq<PendingSessionGrant>,
    clients: Seq<LobbyClient>,
    k: int,
)
    requires
        0 <= k <= clients.len(),
        forall|i: int, j: int| 0 <= i < j < sent.len() ==> sent[i] != sent[j],
    ensures
        ({
            let (_, told, notices) = begins_sent(sequences, sent, grants, clients, k);
            &&& told == sent + notice_sessions(notices)
            &&& forall|i: int, j: int| 0 <= i < j < told.len() ==> told[i] != told[j]
            &&& forall|i: int| 0 <= i < notices.len() ==> !sent.contains(#[trigger] notices[i].session_id)
        }),
    decreases k,
{
    if k > 0 {
        law_begin_notices_are_unique(sequences, sent, grants, clients, k - 1);
        let (_, b1, n1) = begins_sent(sequences, sent, grants, clients, k - 1);
        let (_, b2, n2) = begins_sent(sequences, sent, grants, clients, k);
        let session_id = clients[k - 1].lobby_session_id;
        if !(b1.contains(session_id) || pending_grant_index(grants, session_id) < 0) {
            assert(notice_sessions(n2) =~= notice_sessions(n1).push(session_id));
            assert(b2 =~= sent + notice_sessions(n2));
            assert forall|i: int| 0 <= i < n2.len() implies !sent.contains(#[trigger] n2[i].session_id) by {
                if i == n1.len() {
                    if sent.contains(session_id) {
                        let j = choose|j: int| 0 <= j < sent.len() && sent[j] == session_id;
                        assert(b1[j] == session_id);
                    }
                } else {
                    assert(n2[i] == n1[i]);
                }
            }
        }
    } else {
        assert(sent + notice_sessions(Seq::<BeginNotice>::empty()) =~= sent);
    }
}

/// What the loss of a session released: the activation of its practice match to cancel, the
/// reservation it held and the tickets that reservation released, the activation of that
/// reservation's match to cancel, whether the queue's snapshot changed, and the detached
/// lobby session.
pub struct SessionLoss {
    pub practice_cancel: Option<ActivationBody>,
    pub released: Option<MatchReservationId>,
    pub removed: Vec<QueueTicket>,
    pub reservation_cancel: Option<ActivationBody>,
    pub snapshot_changed: bool,
    pub detached: Option<LobbySession>,
}

/// The reservation that holds the ticket of `session_id`, if any.
pub open spec fn reservation_holding(q: QueueView, session_id: LobbySessionId) -> Option<MatchReservationId> {
    match ticket_of_session(q, session_id) {
        Some(t) => match q.reservation {
            Some(r) => if participant_position(r.participants, t.ticket_id) >= 0 {
                Some(r.reservation_id)
            } else {
                None
            },
            None => None,
        },
        None => None,
    }
}

/// Release what the lost session `session_id` of client `client_id` held: a practice match it
/// was forming is cancelled; a reservation holding its ticket is released with all its tickets
/// and its match cancelled; then its queue ticket is removed and its lobby session detached.
/// Whatever was forming for it is no longer active.
pub fn release_lost_session<S: LobbySessionIdSource, T: QueueTicketIdSource>(
    lobby: &mut LobbyState<S>,
    queue: &mut QueueState<T>,
    formation: &mut ProductFormationState,
    session_id: LobbySessionId,
    client_id: u64,
) -> (loss: SessionLoss)
    ensures
        ({
            let f = *old(formation);
            let practice_lost = f.practice matches Some(p) && p.session_id == session_id;
            let (l1, practice_cancel) = if practice_lost {
                product_cancelled(old(lobby)@)
            } else {
                (old(lobby)@, None)
            };
            let reserved = reservation_holding(old(queue)@, session_id);
            let (q1, removed) = match reserved {
                Some(id) => reservation_completed(old(queue)@, id),
                None => (old(queue)@, Seq::<QueueTicket>::empty()),
            };
            let (l2, reservation_cancel) = if reserved is Some {
                product_cancelled(l1)
            } else {
                (l1, None)
            };
            let (q2, ticket_removed) = session_removed(q1, session_id);
            let (l3, detached) = client_detached(l2, client_id);
            &&& final(lobby)@ == l3
            &&& final(queue)@ == q2
            &&& if practice_lost || reserved is Some {
                formation_cleared(*final(formation), f)
            } else {
                same_formation(*final(formation), f)
            }
            &&& loss.practice_cancel == practice_cancel
            &&& loss.released == reserved
            &&& loss.removed@ == removed
            &&& loss.reservation_cancel == reservation_cancel
            &&& loss.snapshot_changed == (reserved is Some || ticket_removed)
            &&& loss.detached == detached
        }),
{
    let practice_lost = match &formation.practice {
        Some(practice) => practice.session_id == session_id,
        None => false,
    };
    let mut practice_cancel = None;
    if practice_lost {
        practice_cancel = lobby.cancel_product_allocation();
        formation.clear_active();
    }
    let reserved = match queue.ticket_for_session(session_id) {
        Some(ticket) => match queue.reservation_for_ticket(ticket.ticket_id) {
            Some(reservation) => Some(reservation.reservation_id),
            None => None,
        },
        None => None,
    };
    let mut removed = Vec::new();
    let mut reservation_cancel = None;
    if let Some(reservation_id) = reserved {
        removed = queue.complete_reservation(reservation_id);
        reservation_cancel = lobby.cancel_product_allocation();
        formation.clear_active();
    }
    let ticket_removed = queue.remove_session(session_id);
    let detached = lobby.detach_client(client_id);
    SessionLoss {
        practice_cancel,
        released: reserved,
        removed,
        reservation_cancel,
        snapshot_changed: reserved.is_some() || ticket_removed,
        detached,
    }
}

/// A forming match that a player cancelled: its reservation, the practice player or the queue
/// tickets it released, and the activation to cancel, if one had arrived.
pub struct ProductCancel {
    pub reservation_id: MatchReservationId,
    pub practice_session: Option<LobbySessionId>,
    pub removed: Vec<QueueTicket>,
    pub cancelled: Option<ActivationBody>,
}

/// Some request among `requests`, each a reservation and a handoff generation, cancels the
/// forming match `active`: it names `active` in the first generation.
pub open spec fn cancel_requested(requests: Seq<(MatchReservationId, u32)>, active: Option<MatchReservationId>) -> bool {
    exists|i: int| 0 <= i < requests.len() && (#[trigger] requests[i]).1 == 1 && active == Some(requests[i].0)
}

/// Cancel the forming match when one of the players' `requests` names it: a queue match
/// releases its reservation's tickets, the allocation is cancelled, and nothing is active
/// afterwards. Requests that name another reservation or generation are ignored.
pub fn cancel_product_reservation<S: LobbySessionIdSource, T: QueueTicketIdSource>(
    lobby: &mut LobbyState<S>,
    queue: &mut QueueState<T>,
    formation: &mut ProductFormationState,
    requests: &Vec<(MatchReservationId, u32)>,
) -> (cancel: Option<ProductCancel>)
    ensures
        match old(formation).active {
            Some(id) if cancel_requested(requests@, old(formation).active) => {
                let (q1, removed) = if old(formation).practice is Some {
                    (old(queue)@, Seq::<QueueTicket>::empty())
                } else {
                    reservation_completed(old(queue)@, id)
                };
                let (l1, cancelled) = product_cancelled(old(lobby)@);
                &&& final(lobby)@ == l1
                &&& final(queue)@ == q1
                &&& formation_cleared(*final(formation), *old(formation))
                &&& cancel matches Some(c) && {
                    &&& c.reservation_id == id
                    &&& c.practice_session == practice_session_of(old(formation).practice)
                    &&& c.removed@ == removed
                    &&& c.cancelled == cancelled
                }
            },
            _ => {
                &&& final(lobby)@ == old(lobby)@
                &&& final(queue)@ == old(queue)@
                &&& same_formation(*final(formation), *old(formation))
                &&& cancel is None
            },
        },
{
    let reservation_id = match formation.active {
        Some(id) => id,
        None => return None,
    };
    let mut requested = false;
    let mut i: usize = 0;
    while i < requests.len()
        invariant
            i <= requests@.len(),
            formation.active == Some(reservation_id),
            requested == exists|j: int| 0 <= j < i && (#[trigger] requests@[j]).1 == 1 && requests@[j].0 == reservation_id,
        decreases requests@.len() - i,
    {
        let (id, generation) = requests[i];
        if generation == 1 && id == reservation_id {
            assert(requests@[i as int].1 == 1 && requests@[i as int].0 == reservation_id);
            requested = true;
        }
        i = i + 1;
    }
    if !requested {
        return None;
    }
    let practice_session = match &formation.practice {
        Some(practice) => Some(practice.session_id),
        None => None,
    };
    let removed = if formation.practice.is_some() {
        Vec::new()
    } else {
        queue.complete_reservation(reservation_id)
    };
    let cancelled = lobby.cancel_product_allocation();
    formation.clear_active();
    Some(ProductCancel { reservation_id, practice_session, removed, cancelled })
}

/// Close the forming match once the supervisor activated it: when the lobby saw the
/// activation and a match is active, a queue match's reservation is completed (its tickets
/// leave the queue), nothing is active afterwards, and the lobby's transaction is closed.
/// Returns whether the queue's snapshot changed. The lobby's activation flag is taken in any
/// case.
pub fn apply_product_activation<S: LobbySessionIdSource, T: QueueTicketIdSource>(
    lobby: &mut LobbyState<S>,
    queue: &mut QueueState<T>,
    formation: &mut ProductFormationState,
) -> (snapshot_changed: bool)
    ensures
        ({
            let l0 = LobbyView { product_activated: false, ..old(lobby)@ };
            match old(formation).active {
                Some(id) if old(lobby)@.product_activated => {
                    &&& final(lobby)@ == activation_completed(l0)
                    &&& final(queue)@ == (if old(formation).practice is Some {
                        old(queue)@
                    } else {
                        reservation_completed(old(queue)@, id).0
                    })
                    &&& formation_cleared(*final(formation), *old(formation))
                    &&& snapshot_changed == old(formation).practice is None
                },
                _ => {
                    &&& final(lobby)@ == l0
                    &&& final(queue)@ == old(queue)@
                    &&& same_formation(*final(formation), *old(formation))
                    &&& !snapshot_changed
                },
            }
        }),
{
    if !lobby.take_product_activated() {
        return false;
    }
    let reservation_id = match formation.active {
        Some(id) => id,
        None => return false,
    };
    if formation.practice.is_some() {
        formation.clear_active();
        lobby.complete_product_activation();
        return false;
    }
    queue.complete_reservation(reservation_id);
    formation.clear_active();
    lobby.complete_product_activation();
    true
}

} // verus!
