//! The lobby's bookkeeping of the product reservation being handed to a match.

use vstd::prelude::*;
use crate::ids::{LobbySessionId, MatchReservationId, PracticeRequestId};
use crate::lobby::practice::{PracticeFormation, PracticeStartRejection, ReservationStarted};
use crate::queue::model::{found_at, first_index, lemma_first_index_at, lemma_first_index_none};
use crate::lobby::routing::MatchRouteGrant;

verus! {

/// A session's next handoff message sequence number.
#[derive(Clone, Copy, Debug, PartialEq, Eq, Structural)]
pub struct SessionSequence {
    pub session_id: LobbySessionId,
    pub next: u64,
}

/// A route grant waiting to be delivered to a session.
#[derive(Clone, Copy, PartialEq, Eq)]
pub struct PendingSessionGrant {
    pub session_id: LobbySessionId,
    pub grant: MatchRouteGrant,
}

/// The reservation being handed to a match, with the practice request it answers (if it is a
/// practice match), its per-session sequences, its grants awaiting delivery, the sessions told
/// to begin loading, and its deadlines.
pub struct ProductFormationState {
    pub active: Option<MatchReservationId>,
    pub practice: Option<PracticeFormation>,
    pub next_sequence: Vec<SessionSequence>,
    pub pending_grants: Vec<PendingSessionGrant>,
    pub begin_sent: Vec<LobbySessionId>,
    pub loading_deadline_millis: Option<u64>,
    pub grant_deadline_millis: Option<u64>,
}

/// Index of the sequence entry of `session_id`.
pub open spec fn sequence_index(entries: Seq<SessionSequence>, session_id: LobbySessionId) -> int {
    first_index(entries, |e: SessionSequence| e.session_id == session_id)
}

/// The sequence number handed out to `session_id` and the entries afterwards: a session starts
/// at one, and its counter saturates.
pub open spec fn sequence_issued(entries: Seq<SessionSequence>, session_id: LobbySessionId) -> (u64, Seq<SessionSequence>) {
    let i = sequence_index(entries, session_id);
    if i >= 0 {
        let current = entries[i].next;
        let next = if current == u64::MAX { u64::MAX } else { (current + 1) as u64 };
        (current, entries.update(i, SessionSequence { session_id: session_id, next: next }))
    } else {
        (1, entries.push(SessionSequence { session_id: session_id, next: 2 }))
    }
}

impl ProductFormationState {
    /// A formation state with nothing active.
    pub fn new() -> (state: Self)
        ensures
            state.active is None,
            state.practice is None,
            state.next_sequence@ == Seq::<SessionSequence>::empty(),
            state.pending_grants@ == Seq::<PendingSessionGrant>::empty(),
            state.begin_sent@ == Seq::<LobbySessionId>::empty(),
            state.loading_deadline_millis is None,
            state.grant_deadline_millis is None,
    {
        ProductFormationState {
            active: None,
            practice: None,
            next_sequence: Vec::new(),
            pending_grants: Vec::new(),
            begin_sent: Vec::new(),
            loading_deadline_millis: None,
            grant_deadline_millis: None,
        }
    }

    fn find_sequence(&self, session_id: LobbySessionId) -> (found: Option<usize>)
        ensures
            found_at(found, sequence_index(self.next_sequence@, session_id), self.next_sequence@.len() as int),
    {
        let mut i: usize = 0;
        while i < self.next_sequence.len()
            invariant
                i <= self.next_sequence@.len(),
                forall|j: int| 0 <= j < i ==> (#[trigger] self.next_sequence@[j]).session_id != session_id,
            decreases self.next_sequence@.len() - i,
        {
            if self.next_sequence[i].session_id == session_id {
                proof {
                    lemma_first_index_at(self.next_sequence@, |e: SessionSequence| e.session_id == session_id, i as int);
                }
                return Some(i);
            }
            i = i + 1;
        }
        proof {
            lemma_first_index_none(self.next_sequence@, |e: SessionSequence| e.session_id == session_id);
        }
        None
    }

    /// Hand out the next handoff sequence number of `session_id`.
    pub fn next_sequence(&mut self, session_id: LobbySessionId) -> (sequence: u64)
        ensures
            (sequence, final(self).next_sequence@) == sequence_issued(old(self).next_sequence@, session_id),
            final(self).active == old(self).active,
            final(self).practice == old(self).practice,
            final(self).pending_grants@ == old(self).pending_grants@,
            final(self).begin_sent@ == old(self).begin_sent@,
            final(self).loading_deadline_millis == old(self).loading_deadline_millis,
            final(self).grant_deadline_millis == old(self).grant_deadline_millis,
    {
        match self.find_sequence(session_id) {
            Some(i) => {
                let current = self.next_sequence[i].next;
                let next = current.saturating_add(1);
                self.next_sequence.set(i, SessionSequence { session_id: session_id, next: next });
                current
            },
            None => {
                self.next_sequence.push(SessionSequence { session_id: session_id, next: 2 });
                1
            },
        }
    }

    /// Forget the handoff in progress: grants awaiting delivery, begin notices and deadlines.
    pub fn clear_handoff(&mut self)
        ensures
            final(self).pending_grants@ == Seq::<PendingSessionGrant>::empty(),
            final(self).begin_sent@ == Seq::<LobbySessionId>::empty(),
            final(self).loading_deadline_millis is None,
            final(self).grant_deadline_millis is None,
            final(self).active == old(self).active,
            final(self).practice == old(self).practice,
            final(self).next_sequence@ == old(self).next_sequence@,
    {
        self.pending_grants = Vec::new();
        self.begin_sent = Vec::new();
        self.loading_deadline_millis = None;
        self.grant_deadline_millis = None;
    }

    /// Forget the active reservation, its practice request and its handoff.
    pub fn clear_active(&mut self)
        ensures
            final(self).active is None,
            final(self).practice is None,
            final(self).pending_grants@ == Seq::<PendingSessionGrant>::empty(),
            final(self).begin_sent@ == Seq::<LobbySessionId>::empty(),
            final(self).loading_deadline_millis is None,
            final(self).grant_deadline_millis is None,
            final(self).next_sequence@ == old(self).next_sequence@,
    {
        self.active = None;
        self.practice = None;
        self.clear_handoff();
    }

    /// What answers practice request `request_id` of session `session_id`, with
    /// `queue_reservations` queue reservations open: a repeat of the request that formed the
    /// practice match in progress is told again how it started; any other request while a
    /// practice match, another reservation or a queue reservation is forming is busy; otherwise
    /// the request may be admitted.
    pub fn practice_start_step(
        &self,
        session_id: LobbySessionId,
        request_id: PracticeRequestId,
        queue_reservations: usize,
    ) -> (step: PracticeStartStep)
        ensures
            step == (match self.practice {
                Some(practice) => if practice.session_id == session_id && practice.request_id == request_id {
                    PracticeStartStep::Resend(practice.started)
                } else {
                    PracticeStartStep::Reject(PracticeStartRejection::Busy)
                },
                None => if self.active is Some || queue_reservations != 0 {
                    PracticeStartStep::Reject(PracticeStartRejection::Busy)
                } else {
                    PracticeStartStep::Admit
                },
            }),
    {
        match &self.practice {
            Some(practice) => if practice.session_id == session_id && practice.request_id == request_id {
                PracticeStartStep::Resend(practice.started.duplicate())
            } else {
                PracticeStartStep::Reject(PracticeStartRejection::Busy)
            },
            None => if self.active.is_some() || queue_reservations != 0 {
                PracticeStartStep::Reject(PracticeStartRejection::Busy)
            } else {
                PracticeStartStep::Admit
            },
        }
    }

    /// Record the start of a practice match for request `request_id` of session `session_id`
    /// at `now_millis`: its reservation becomes the active one, loading must finish within
    /// thirty seconds and grants must arrive within ten (both saturating).
    pub fn record_practice_start(
        &mut self,
        request_id: PracticeRequestId,
        session_id: LobbySessionId,
        started: ReservationStarted,
        now_millis: u64,
    )
        ensures
            final(self).active == Some(started.reservation_id),
            final(self).practice == Some(
                PracticeFormation { request_id: request_id, session_id: session_id, started: started },
            ),
            final(self).loading_deadline_millis == Some(
                if now_millis + 30_000 > u64::MAX { u64::MAX } else { (now_millis + 30_000) as u64 },
            ),
            final(self).grant_deadline_millis == Some(
                if now_millis + 10_000 > u64::MAX { u64::MAX } else { (now_millis + 10_000) as u64 },
            ),
            final(self).next_sequence@ == old(self).next_sequence@,
            final(self).pending_grants@ == old(self).pending_grants@,
            final(self).begin_sent@ == old(self).begin_sent@,
    {
        self.active = Some(started.reservation_id);
        self.practice = Some(PracticeFormation { request_id: request_id, session_id: session_id, started: started });
        self.loading_deadline_millis = Some(now_millis.saturating_add(30_000));
        self.grant_deadline_millis = Some(now_millis.saturating_add(10_000));
    }
}

/// How a practice start request is answered.
#[derive(Clone, Debug, PartialEq, Eq)]
pub enum PracticeStartStep {
    /// The request formed the practice match in progress: tell the player again how it started.
    Resend(ReservationStarted),
    /// Refuse the request.
    Reject(PracticeStartRejection),
    /// Admit the player's build and open the practice request.
    Admit,
}

} // verus!
