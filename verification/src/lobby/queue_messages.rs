//! Applying a lobby client's batch of queue messages in one frame.

use vstd::prelude::*;
use crate::ids::{LobbySessionId, QueueTicketId};
use crate::lobby::model::{client_removed, lobby_id_index, LobbyView};
use crate::lobby::state::{LobbySessionIdSource, LobbyState};
use crate::queue::model::{
    acknowledged, commanded, session_removed, QueueCommandDisposition, QueueCommandResult, QueueView,
};
use crate::queue::state::{QueueState, QueueTicketIdSource};
use crate::session::LobbySession;
use crate::wire::{AdmittedBuild, QueueClientMessage};

verus! {

/// What one frame's batch of a session's queue messages did: whether the session was found,
/// whether an outcome waits for delivery, whether the queue's snapshot changed, and whether
/// the client broke the protocol and was disconnected.
#[derive(Clone, Copy, Debug, PartialEq, Eq, Structural)]
pub struct QueueBatchOutcome {
    pub applied: bool,
    pub outcome_ready: bool,
    pub snapshot_changed: bool,
    pub disconnected: bool,
}

/// The authenticated session with lobby identity `id`, if any.
pub open spec fn session_with_lobby_id(l: LobbyView, id: LobbySessionId) -> Option<LobbySession> {
    let i = lobby_id_index(l.sessions, id);
    if i >= 0 {
        Some(l.sessions[i])
    } else {
        None
    }
}

/// The queue's answer to message `message` of `session` at `now_millis`; `admitted` is the
/// admitted build of a join and `seed` the ticket identity drawn for it.
pub open spec fn message_applied(
    q: QueueView,
    session: LobbySession,
    message: QueueClientMessage,
    admitted: Option<AdmittedBuild>,
    now_millis: u64,
    seed: Option<QueueTicketId>,
) -> (QueueView, QueueCommandResult) {
    match message {
        QueueClientMessage::OutcomeAck { request_id } => acknowledged(q, session.lobby_session_id, request_id),
        QueueClientMessage::Command { request_id, command } => commanded(
            q,
            session,
            request_id,
            command,
            now_millis,
            admitted,
            seed,
        ),
    }
}

/// The queue, and whether an outcome became ready, the snapshot changed or the client broke
/// the protocol, after the first `k` messages of a batch: the messages after a protocol break
/// are ignored. `seeds` are the ticket identities drawn for the commands.
pub open spec fn batch_applied(
    q: QueueView,
    session: LobbySession,
    messages: Seq<QueueClientMessage>,
    admitted: Seq<Option<AdmittedBuild>>,
    now_millis: u64,
    seeds: Seq<Option<QueueTicketId>>,
    k: int,
) -> (QueueView, bool, bool, bool)
    decreases k,
{
    if k <= 0 {
        (q, false, false, false)
    } else {
        let (q1, ready, changed, broken) = batch_applied(q, session, messages, admitted, now_millis, seeds, k - 1);
        if broken {
            (q1, ready, changed, broken)
        } else {
            let (q2, result) = message_applied(q1, session, messages[k - 1], admitted[k - 1], now_millis, seeds[k - 1]);
            (
                q2,
                ready || result.disposition == QueueCommandDisposition::OutcomeReady,
                changed || result.snapshot_changed,
                result.disposition == QueueCommandDisposition::Disconnect,
            )
        }
    }
}

/// The lobby `l`, the queue `q` and `outcome` are what applying the whole batch `messages` of
/// `session` to `l0` and `q0` leaves, with `seeds` drawn for its commands: after a protocol
/// break the session's ticket is removed and its client removed from the lobby, and no outcome
/// is left to deliver.
pub open spec fn batch_finished(
    l0: LobbyView,
    q0: QueueView,
    session: LobbySession,
    messages: Seq<QueueClientMessage>,
    admitted: Seq<Option<AdmittedBuild>>,
    now_millis: u64,
    seeds: Seq<Option<QueueTicketId>>,
    l: LobbyView,
    q: QueueView,
    outcome: QueueBatchOutcome,
) -> bool {
    let (q1, ready, changed, broken) = batch_applied(q0, session, messages, admitted, now_millis, seeds, messages.len() as int);
    if broken {
        let (q2, removed) = session_removed(q1, session.lobby_session_id);
        &&& q == q2
        &&& l == client_removed(l0, session.netcode_client_id.0).0
        &&& outcome == QueueBatchOutcome {
            applied: true,
            outcome_ready: false,
            snapshot_changed: changed || removed,
            disconnected: true,
        }
    } else {
        &&& q == q1
        &&& l == l0
        &&& outcome == QueueBatchOutcome { applied: true, outcome_ready: ready, snapshot_changed: changed, disconnected: false }
    }
}

/// Apply one message of `session` to the queue.
fn apply_message<T: QueueTicketIdSource>(
    queue: &mut QueueState<T>,
    session: &LobbySession,
    message: &QueueClientMessage,
    admitted: Option<AdmittedBuild>,
    now_millis: u64,
) -> (result: QueueCommandResult)
    ensures
        exists|seed: Option<QueueTicketId>|
            (final(queue)@, result) == message_applied(old(queue)@, *session, *message, admitted, now_millis, seed),
{
    let ghost before = queue@;
    match message {
        QueueClientMessage::OutcomeAck { request_id } => {
            let result = queue.acknowledge(session.lobby_session_id, *request_id);
            assert((queue@, result) == message_applied(before, *session, *message, admitted, now_millis, None));
            result
        },
        QueueClientMessage::Command { request_id, command } => {
            let result = queue.command(session, *request_id, command.duplicate(), now_millis, admitted);
            proof {
                let seed = choose|seed: Option<QueueTicketId>|
                    (queue@, result) == commanded(before, *session, *request_id, *command, now_millis, admitted, seed);
                assert((queue@, result) == message_applied(before, *session, *message, admitted, now_millis, seed));
            }
            result
        },
    }
}

/// Apply the queue messages of session `session_id` received in one frame, in order, at
/// `now_millis`; `admitted` holds, for each message, the build the profile authority admitted
/// for it when it is a join. A message that breaks the protocol ends the batch: the session's
/// ticket is removed and its client is removed from the lobby. An unknown session is ignored.
pub fn apply_queue_messages<S: LobbySessionIdSource, T: QueueTicketIdSource>(
    lobby: &mut LobbyState<S>,
    queue: &mut QueueState<T>,
    session_id: LobbySessionId,
    messages: &Vec<QueueClientMessage>,
    admitted: &Vec<Option<AdmittedBuild>>,
    now_millis: u64,
) -> (outcome: QueueBatchOutcome)
    requires
        admitted@.len() == messages@.len(),
    ensures
        match session_with_lobby_id(old(lobby)@, session_id) {
            None => {
                &&& final(lobby)@ == old(lobby)@
                &&& final(queue)@ == old(queue)@
                &&& outcome == QueueBatchOutcome {
                    applied: false,
                    outcome_ready: false,
                    snapshot_changed: false,
                    disconnected: false,
                }
            },
            Some(session) => exists|seeds: Seq<Option<QueueTicketId>>|
                #[trigger] batch_finished(
                    old(lobby)@,
                    old(queue)@,
                    session,
                    messages@,
                    admitted@,
                    now_millis,
                    seeds,
                    final(lobby)@,
                    final(queue)@,
                    outcome,
                ),
        },
{
    let session = match lobby.session_by_lobby_id(session_id) {
        Some(session) => session,
        None => return QueueBatchOutcome {
            applied: false,
            outcome_ready: false,
            snapshot_changed: false,
            disconnected: false,
        },
    };
    proof {
        crate::queue::model::lemma_first_index_facts(
            old(lobby)@.sessions,
            |s: LobbySession| s.lobby_session_id == session_id,
        );
    }
    let ghost q0 = queue@;
    let ghost mut seeds: Seq<Option<QueueTicketId>> = Seq::empty();
    let mut ready = false;
    let mut changed = false;
    let mut broken = false;
    let mut i: usize = 0;
    while i < messages.len()
        invariant
            i <= messages@.len(),
            admitted@.len() == messages@.len(),
            seeds.len() == i,
            (queue@, ready, changed, broken) == batch_applied(q0, session, messages@, admitted@, now_millis, seeds, i as int),
        decreases messages@.len() - i,
    {
        if broken {
            proof {
                let previous = seeds;
                seeds = seeds.push(None);
                lemma_batch_prefix(q0, session, messages@, admitted@, now_millis, seeds, previous, i as int);
            }
            i = i + 1;
            continue;
        }
        let ghost before = queue@;
        let result = apply_message(queue, &session, &messages[i], admitted[i], now_millis);
        proof {
            let seed = choose|seed: Option<QueueTicketId>|
                (queue@, result) == message_applied(before, session, messages@[i as int], admitted@[i as int], now_millis, seed);
            let previous = seeds;
            seeds = seeds.push(seed);
            lemma_batch_prefix(q0, session, messages@, admitted@, now_millis, seeds, previous, i as int);
        }
        ready = ready || result.outcome_ready();
        changed = changed || result.snapshot_changed;
        broken = result.disconnect();
        i = i + 1;
    }
    let outcome = if broken {
        let removed = queue.remove_session(session_id);
        lobby.remove_client(session.netcode_client_id.0);
        QueueBatchOutcome { applied: true, outcome_ready: false, snapshot_changed: changed || removed, disconnected: true }
    } else {
        QueueBatchOutcome { applied: true, outcome_ready: ready, snapshot_changed: changed, disconnected: false }
    };
    assert(batch_finished(old(lobby)@, old(queue)@, session, messages@, admitted@, now_millis, seeds, lobby@, queue@, outcome));
    outcome
}

/// Two seed sequences that agree on the first `k` seeds give the same first `k` results.
proof fn lemma_batch_prefix(
    q: QueueView,
    session: LobbySession,
    messages: Seq<QueueClientMessage>,
    admitted: Seq<Option<AdmittedBuild>>,
    now_millis: u64,
    a: Seq<Option<QueueTicketId>>,
    b: Seq<Option<QueueTicketId>>,
    k: int,
)
    requires
        0 <= k <= a.len(),
        k <= b.len(),
        forall|j: int| 0 <= j < k ==> a[j] == b[j],
    ensures
        batch_applied(q, session, messages, admitted, now_millis, a, k) == batch_applied(
            q,
            session,
            messages,
            admitted,
            now_millis,
            b,
            k,
        ),
    decreases k,
{
    if k > 0 {
        lemma_batch_prefix(q, session, messages, admitted, now_millis, a, b, k - 1);
    }
}

/// The order key of a session's frame of queue messages: its player identity and the request
/// identity of its first message; a frame of an unknown session, or an empty one, sorts last.
pub open spec fn frame_key_of(l: LobbyView, session_id: LobbySessionId, first_request: Option<u64>) -> (u64, u64) {
    match session_with_lobby_id(l, session_id) {
        Some(session) => (
            session.player_id.0,
            match first_request {
                Some(request) => request,
                None => u64::MAX,
            },
        ),
        None => (u64::MAX, u64::MAX),
    }
}

/// The order key of the frame of session `session_id` whose first message carries
/// `first_request`.
pub fn frame_key<S: LobbySessionIdSource>(
    lobby: &LobbyState<S>,
    session_id: LobbySessionId,
    first_request: Option<u64>,
) -> (key: (u64, u64))
    ensures
        key == frame_key_of(lobby@, session_id, first_request),
{
    match lobby.session_by_lobby_id(session_id) {
        Some(session) => (
            session.player_id.0,
            match first_request {
                Some(request) => request,
                None => u64::MAX,
            },
        ),
        None => (u64::MAX, u64::MAX),
    }
}

/// Item `a` at index `ia` comes before item `b` at index `ib`: by key, then by index, so that
/// equal keys keep their order.
pub open spec fn comes_before(a: (u64, u64), ia: int, b: (u64, u64), ib: int) -> bool {
    ||| a.0 < b.0
    ||| a.0 == b.0 && a.1 < b.1
    ||| a.0 == b.0 && a.1 == b.1 && ia < ib
}

/// `order` lists every index of `keys` once, by key, equal keys in index order: the order of a
/// stable sort.
pub open spec fn is_stable_order(keys: Seq<(u64, u64)>, order: Seq<usize>) -> bool {
    &&& order.len() == keys.len()
    &&& forall|i: usize| i < keys.len() ==> #[trigger] order.contains(i)
    &&& forall|i: int| 0 <= i < order.len() ==> order[i] < keys.len()
    &&& forall|i: int, j: int|
        0 <= i < j < order.len() ==> comes_before(
            keys[order[i] as int],
            order[i] as int,
            keys[order[j] as int],
            order[j] as int,
        )
}

/// Whether the item at index `earlier` comes before the item at the later index `later`.
fn precedes(keys: &Vec<(u64, u64)>, earlier: usize, later: usize) -> (before: bool)
    requires
        earlier < later < keys@.len(),
    ensures
        before == comes_before(keys@[earlier as int], earlier as int, keys@[later as int], later as int),
{
    let a = keys[earlier];
    let b = keys[later];
    a.0 < b.0 || (a.0 == b.0 && a.1 <= b.1)
}

/// The indices of `keys` in the order of a stable sort by key.
pub fn stable_order(keys: &Vec<(u64, u64)>) -> (order: Vec<usize>)
    ensures
        is_stable_order(keys@, order@),
{
    let n = keys.len();
    let mut order: Vec<usize> = Vec::new();
    let mut k: usize = 0;
    while k < n
        invariant
            n == keys@.len(),
            k <= n,
            order@.len() == k,
            forall|i: usize| i < k ==> #[trigger] order@.contains(i),
            forall|i: int| 0 <= i < order@.len() ==> order@[i] < k,
            forall|i: int, j: int|
                0 <= i < j < order@.len() ==> comes_before(
                    keys@[order@[i] as int],
                    order@[i] as int,
                    keys@[order@[j] as int],
                    order@[j] as int,
                ),
        decreases n - k,
    {
        let key = keys[k];
        let mut p: usize = 0;
        while p < order.len() && precedes(keys, order[p], k)
            invariant
                n == keys@.len(),
                k < n,
                key == keys@[k as int],
                p <= order@.len(),
                forall|i: int| 0 <= i < order@.len() ==> order@[i] < k,
                forall|q: int| 0 <= q < p ==> comes_before(keys@[order@[q] as int], order@[q] as int, key, k as int),
            decreases order@.len() - p,
        {
            p = p + 1;
        }
        proof {
            assert forall|q: int| p <= q < order@.len() implies comes_before(
                key,
                k as int,
                keys@[order@[q] as int],
                order@[q] as int,
            ) by {
                let first = order@[p as int];
                if q > p {
                    assert(comes_before(keys@[first as int], first as int, keys@[order@[q] as int], order@[q] as int));
                }
            }
        }
        let ghost before = order@;
        order.insert(p, k);
        proof {
            assert forall|i: usize| i < k + 1 implies #[trigger] order@.contains(i) by {
                if i < k {
                    assert(before.contains(i));
                    let j = choose|j: int| 0 <= j < before.len() && before[j] == i;
                    if j < p {
                        assert(order@[j] == i);
                    } else {
                        assert(order@[j + 1] == i);
                    }
                } else {
                    assert(order@[p as int] == k);
                }
            }
        }
        k = k + 1;
    }
    order
}

} // verus!
