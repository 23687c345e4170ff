//! Properties that hold across lobby operations: a bounded roster of distinct sessions, a
//! stable allocation request, grants delivered at most once, and allocated clients kept from
//! automatic requeue.

use vstd::prelude::*;
use crate::ids::{LobbySessionId, NetcodeClientId, PeerId, RouteId};
use crate::session::LobbySession;
use crate::queue::model::{lemma_first_index_at, lemma_first_index_facts, lemma_first_index_none};
use crate::lobby::routing::{AllocationGrantedBody, AllocationRejectedBody};
use crate::lobby::model::{
    LobbyAllocationError, LobbyHello, LobbyView, MAX_AUTHENTICATED_LOBBY_SESSIONS, MAX_ALLOCATED_LOBBY_CLIENT_IDS,
    accepted, client_removed, grant_index, grant_taken, granted, hello_error, lobby_id_used, name_index,
    pending_body, rejected, request_created, roster_allocated_before, session_index, session_of, ordered_pair,
    grants_recorded, grant_client, new_identity_count,
};

verus! {

/// The structural consistency of the lobby: a bounded roster of sessions with distinct nonzero
/// clients and lobby identities, one accepted name per session in roster order, and distinct
/// welcomed, allocated and granted clients with a bounded allocation memory.
pub open spec fn lobby_consistent(v: LobbyView) -> bool {
    &&& v.sessions.len() <= MAX_AUTHENTICATED_LOBBY_SESSIONS
    &&& forall|i: int, j: int|
        0 <= i < j < v.sessions.len() ==> (#[trigger] v.sessions[i]).netcode_client_id != (
        #[trigger] v.sessions[j]).netcode_client_id && v.sessions[i].lobby_session_id != v.sessions[j].lobby_session_id
    &&& forall|i: int|
        0 <= i < v.sessions.len() ==> (#[trigger] v.sessions[i]).lobby_session_id.0 != 0
            && v.sessions[i].netcode_client_id.0 != 0
    &&& v.names.len() == v.sessions.len()
    &&& forall|k: int| 0 <= k < v.names.len() ==> (#[trigger] v.names[k]).0 == v.sessions[k].netcode_client_id
    &&& forall|i: int, j: int| 0 <= i < j < v.welcomed.len() ==> v.welcomed[i] != v.welcomed[j]
    &&& forall|i: int, j: int| 0 <= i < j < v.allocated.len() ==> v.allocated[i] != v.allocated[j]
    &&& v.allocated.len() <= MAX_ALLOCATED_LOBBY_CLIENT_IDS
    &&& forall|i: int, j: int| 0 <= i < j < v.grants.len() ==> v.grants[i].client != v.grants[j].client
}

/// A repeated hello from an authenticated client changes nothing and answers with its session,
/// whatever identity would have been drawn.
pub proof fn law_repeated_hello_is_idempotent(
    v: LobbyView,
    client_id: u64,
    route_id: RouteId,
    peer_id: PeerId,
    hello: LobbyHello,
    names: Seq<Option<Seq<char>>>,
    drawn: Option<LobbySessionId>,
)
    requires
        session_of(v, client_id) is Some,
        hello_error(v, hello, names) is None,
    ensures
        accepted(v, client_id, route_id, peer_id, hello, names, drawn) == (v, Ok::<LobbySession, crate::lobby::model::LobbySessionError>(
            session_of(v, client_id)->0,
        )),
{
    reveal(accepted);
}

/// The automatic allocation request is stable: once opening it succeeded, asking again opens
/// nothing new and changes nothing, so the same request is handed out.
pub proof fn law_pending_request_is_stable(v: LobbyView)
    requires
        request_created(v).1 is Ok,
    ensures
        request_created(request_created(v).0) == (request_created(v).0, Ok::<(), crate::lobby::routing::CodecError>(())),
        pending_body(request_created(request_created(v).0).0) == pending_body(request_created(v).0),
{
    reveal(request_created);
}

/// An automatic allocation request never names a client that took part in an earlier
/// allocation, and it names exactly the two sessions, ordered by lobby identity.
#[verifier::spinoff_prover]
#[verifier::rlimit(80)]
pub proof fn law_automatic_request_excludes_allocated_clients(v: LobbyView)
    ensures ({
        let (w, created) = request_created(v);
        v.pending is None && w.pending is Some ==> {
            &&& !roster_allocated_before(v)
            &&& forall|i: int| 0 <= i < v.sessions.len() ==> !v.allocated.contains(#[trigger] v.sessions[i].netcode_client_id)
            &&& pending_body(w)->0.participants.len() == 2
            &&& pending_body(w)->0.participants[0].lobby_session_id == ordered_pair(v.sessions)[0].lobby_session_id
            &&& pending_body(w)->0.participants[1].lobby_session_id == ordered_pair(v.sessions)[1].lobby_session_id
            &&& pending_body(w)->0.participants[0].lobby_session_id.0 <= pending_body(w)->0.participants[1].lobby_session_id.0
            &&& w.pending matches Some((_, sent)) && !sent
        }
    }),
{
    let (w, created) = request_created(v);
    if v.pending is None && w.pending is Some {
        reveal(request_created);
        assert(!v.allocation_completed && v.sessions.len() == 2);
        assert(!roster_allocated_before(v));
        assert forall|i: int| 0 <= i < v.sessions.len() implies !v.allocated.contains(#[trigger] v.sessions[i].netcode_client_id) by {
            if v.allocated.contains(v.sessions[i].netcode_client_id) {
                assert(roster_allocated_before(v));
            }
        }
    }
}

/// A response for another request than the pending one is refused and consumes nothing.
pub proof fn law_mismatched_response_changes_nothing(
    v: LobbyView,
    grant: AllocationGrantedBody,
    rejection: AllocationRejectedBody,
)
    requires
        v.pending is Some,
        grant.request_id != pending_body(v)->0.request_id,
        rejection.request_id != pending_body(v)->0.request_id,
    ensures
        granted(v, grant) == (v, Err::<(), LobbyAllocationError>(LobbyAllocationError::RequestMismatch)),
        rejected(v, rejection) == (v, Err::<(), LobbyAllocationError>(LobbyAllocationError::RequestMismatch)),
{
    reveal(granted);
    reveal(rejected);
}

/// A route grant is delivered at most once: after a client's grant is taken, taking it again
/// yields nothing.
pub proof fn law_grant_delivered_once(v: LobbyView, client_id: u64)
    requires
        lobby_consistent(v),
    ensures
        grant_taken(grant_taken(v, client_id).0, client_id).1 is None,
{
    reveal(grant_taken);
    let client = NetcodeClientId(client_id);
    let g = grant_index(v.grants, client);
    lemma_first_index_facts(v.grants, |x: crate::lobby::model::ClientGrant| x.client == client);
    if client_id != 0 && g >= 0 {
        let w = v.grants.remove(g);
        v.grants.remove_ensures(g);
        assert forall|j: int| 0 <= j < w.len() implies !(|x: crate::lobby::model::ClientGrant| x.client == client)(#[trigger] w[j]) by {
            let k = if j < g { j } else { j + 1 };
            assert(w[j] == v.grants[k]);
            if k < g {
                assert(v.grants[k].client != client);
            } else {
                assert(v.grants[g].client != v.grants[k].client);
            }
        }
        lemma_first_index_none(w, |x: crate::lobby::model::ClientGrant| x.client == client);
    }
}

/// Removing a disconnected client revokes the pending transaction, and removing it again finds
/// nothing.
pub proof fn law_removal_revokes_once(v: LobbyView, client_id: u64)
    requires
        lobby_consistent(v),
        session_of(v, client_id) is Some,
    ensures
        client_removed(v, client_id).1 == session_of(v, client_id),
        client_removed(v, client_id).0.pending is None,
        !client_removed(v, client_id).0.allocation_completed,
        client_removed(v, client_id).0.sessions.len() + 1 == v.sessions.len(),
        client_removed(client_removed(v, client_id).0, client_id).1 is None,
{
    reveal(client_removed);
    let client = NetcodeClientId(client_id);
    let s = session_index(v.sessions, client);
    lemma_first_index_facts(v.sessions, |x: LobbySession| x.netcode_client_id == client);
    let w = client_removed(v, client_id).0;
    v.sessions.remove_ensures(s);
    assert(w.sessions == v.sessions.remove(s));
    assert forall|j: int| 0 <= j < w.sessions.len() implies !(|x: LobbySession| x.netcode_client_id == client)(
        #[trigger] w.sessions[j],
    ) by {
        let k = if j < s { j } else { j + 1 };
        assert(w.sessions[j] == v.sessions[k]);
        if k < s {
            assert(v.sessions[k].netcode_client_id != client);
        } else {
            assert(v.sessions[s].netcode_client_id != v.sessions[k].netcode_client_id);
        }
    }
    lemma_first_index_none(w.sessions, |x: LobbySession| x.netcode_client_id == client);
}

/// A state that agrees with a consistent one on sessions, names, welcomes, allocated clients
/// and grants is consistent.
pub proof fn lemma_lobby_frame(a: LobbyView, b: LobbyView)
    requires
        lobby_consistent(a),
        b.sessions == a.sessions,
        b.names == a.names,
        b.welcomed == a.welcomed,
        b.allocated == a.allocated,
        b.grants == a.grants,
    ensures
        lobby_consistent(b),
{
}

/// Removing one element keeps a sequence free of repeats.
proof fn lemma_remove_distinct<T>(s: Seq<T>, i: int)
    requires
        0 <= i < s.len(),
        forall|a: int, b: int| 0 <= a < b < s.len() ==> s[a] != s[b],
    ensures
        forall|a: int, b: int| 0 <= a < b < s.remove(i).len() ==> s.remove(i)[a] != s.remove(i)[b],
{
    s.remove_ensures(i);
    assert forall|a: int, b: int| 0 <= a < b < s.remove(i).len() implies s.remove(i)[a] != s.remove(i)[b] by {
        let a2 = if a < i { a } else { a + 1 };
        let b2 = if b < i { b } else { b + 1 };
        assert(s.remove(i)[a] == s[a2] && s.remove(i)[b] == s[b2]);
    }
}

/// A new lobby is consistent.
pub proof fn law_new_lobby_is_consistent(
    manifest: crate::lobby::model::LobbyManifest,
    compatibility: crate::lobby::model::LobbyCompatibility,
    mode: crate::lobby::routing::GameMode,
    build: crate::session::LobbyBuildIdentity,
    maps: crate::lobby::model::M01Maps,
)
    ensures
        lobby_consistent(crate::lobby::state::initial_lobby(manifest, compatibility, mode, build, maps)),
{
}

/// Authenticating a client keeps the lobby consistent when the drawn identity is fresh and
/// nonzero; an accepted session is then the client's session.
#[verifier::spinoff_prover]
#[verifier::rlimit(50)]
pub proof fn law_accept_keeps_consistency(
    v: LobbyView,
    client_id: u64,
    route_id: RouteId,
    peer_id: PeerId,
    hello: LobbyHello,
    names: Seq<Option<Seq<char>>>,
    drawn: Option<LobbySessionId>,
)
    requires
        lobby_consistent(v),
        drawn matches Some(x) ==> x.0 != 0 && !lobby_id_used(v.sessions, x),
    ensures ({
        let (w, result) = accepted(v, client_id, route_id, peer_id, hello, names, drawn);
        &&& lobby_consistent(w)
        &&& result matches Ok(session) ==> session_of(w, client_id) == Some(session) && session.lobby_session_id.0 != 0
    }),
{
    reveal(accepted);
    let (w, result) = accepted(v, client_id, route_id, peer_id, hello, names, drawn);
    let client = NetcodeClientId(client_id);
    lemma_first_index_facts(v.sessions, |x: LobbySession| x.netcode_client_id == client);
    if w.sessions.len() != v.sessions.len() {
        let n = v.sessions.len() as int;
        let id = drawn->0;
        assert(w.sessions == v.sessions.push(w.sessions[n]));
        assert forall|i: int| 0 <= i < n implies v.sessions[i].netcode_client_id != client by {
            assert(!(|x: LobbySession| x.netcode_client_id == client)(v.sessions[i]));
        }
        assert forall|i: int| 0 <= i < n implies v.sessions[i].lobby_session_id != id by {
            if v.sessions[i].lobby_session_id == id {
                assert(lobby_id_used(v.sessions, id));
            }
        }
        assert forall|i: int, j: int| 0 <= i < j < w.sessions.len() implies (#[trigger] w.sessions[i]).netcode_client_id != (
            #[trigger] w.sessions[j]).netcode_client_id && w.sessions[i].lobby_session_id != w.sessions[j].lobby_session_id by {
            if j < n {
                assert(w.sessions[i] == v.sessions[i] && w.sessions[j] == v.sessions[j]);
            } else {
                assert(w.sessions[i] == v.sessions[i]);
            }
        }
        assert forall|k: int| 0 <= k < w.names.len() implies (#[trigger] w.names[k]).0 == w.sessions[k].netcode_client_id by {
            if k < n {
                assert(w.names[k] == v.names[k] && w.sessions[k] == v.sessions[k]);
            }
        }
        assert forall|j: int| 0 <= j < n implies !(|x: LobbySession| x.netcode_client_id == client)(#[trigger] w.sessions[j]) by {
            assert(w.sessions[j] == v.sessions[j]);
        }
        lemma_first_index_at(w.sessions, |x: LobbySession| x.netcode_client_id == client, n);
    }
}

/// Removing a client keeps the lobby consistent.
#[verifier::spinoff_prover]
pub proof fn law_removal_keeps_consistency(v: LobbyView, client_id: u64)
    requires
        lobby_consistent(v),
    ensures
        lobby_consistent(client_removed(v, client_id).0),
        lobby_consistent(crate::lobby::model::client_detached(v, client_id).0),
{
    reveal(client_removed);
    reveal(crate::lobby::model::client_detached);
    let client = NetcodeClientId(client_id);
    if session_of(v, client_id) is Some {
        let w = crate::lobby::model::without_client(v, client);
        lemma_without_client(v, client);
        let g = grant_index(w.grants, client);
        if g >= 0 {
            lemma_first_index_facts(w.grants, |x: crate::lobby::model::ClientGrant| x.client == client);
            let u = crate::lobby::model::without_grant(w, client);
            w.grants.remove_ensures(g);
            assert forall|i: int, j: int| 0 <= i < j < u.grants.len() implies u.grants[i].client != u.grants[j].client by {
                let i2 = if i < g { i } else { i + 1 };
                let j2 = if j < g { j } else { j + 1 };
                assert(u.grants[i] == w.grants[i2] && u.grants[j] == w.grants[j2]);
            }
        }
    }
}

/// Forgetting a client's session, name and welcome keeps the lobby consistent.
proof fn lemma_without_client(v: LobbyView, client: NetcodeClientId)
    requires
        lobby_consistent(v),
    ensures
        lobby_consistent(crate::lobby::model::without_client(v, client)),
{
    let w = crate::lobby::model::without_client(v, client);
    let s = session_index(v.sessions, client);
    let n = name_index(v.names, client);
    lemma_first_index_facts(v.sessions, |x: LobbySession| x.netcode_client_id == client);
    lemma_first_index_facts(v.names, |x: (NetcodeClientId, Seq<char>)| x.0 == client);
    if s >= 0 {
        assert forall|j: int| 0 <= j < s implies !(|x: (NetcodeClientId, Seq<char>)| x.0 == client)(#[trigger] v.names[j]) by {
            assert(v.names[j].0 == v.sessions[j].netcode_client_id);
            assert(!(|x: LobbySession| x.netcode_client_id == client)(v.sessions[j]));
        }
        assert(v.names[s].0 == client);
        lemma_first_index_at(v.names, |x: (NetcodeClientId, Seq<char>)| x.0 == client, s);
        v.sessions.remove_ensures(s);
        v.names.remove_ensures(s);
        assert forall|i: int, j: int| 0 <= i < j < w.sessions.len() implies (#[trigger] w.sessions[i]).netcode_client_id != (
            #[trigger] w.sessions[j]).netcode_client_id && w.sessions[i].lobby_session_id != w.sessions[j].lobby_session_id by {
            let i2 = if i < s { i } else { i + 1 };
            let j2 = if j < s { j } else { j + 1 };
            assert(w.sessions[i] == v.sessions[i2] && w.sessions[j] == v.sessions[j2]);
        }
        assert forall|k: int| 0 <= k < w.sessions.len() implies (#[trigger] w.sessions[k]).lobby_session_id.0 != 0
            && w.sessions[k].netcode_client_id.0 != 0 by {
            let k2 = if k < s { k } else { k + 1 };
            assert(w.sessions[k] == v.sessions[k2]);
        }
        assert forall|k: int| 0 <= k < w.names.len() implies (#[trigger] w.names[k]).0 == w.sessions[k].netcode_client_id by {
            let k2 = if k < s { k } else { k + 1 };
            assert(w.names[k] == v.names[k2] && w.sessions[k] == v.sessions[k2]);
        }
    } else {
        assert forall|j: int| 0 <= j < v.names.len() implies !(|x: (NetcodeClientId, Seq<char>)| x.0 == client)(#[trigger] v.names[j]) by {
            assert(v.names[j].0 == v.sessions[j].netcode_client_id);
            assert(!(|x: LobbySession| x.netcode_client_id == client)(v.sessions[j]));
        }
        lemma_first_index_none(v.names, |x: (NetcodeClientId, Seq<char>)| x.0 == client);
    }
    let p = crate::lobby::model::client_position(v.welcomed, client);
    lemma_first_index_facts(v.welcomed, |x: NetcodeClientId| x == client);
    if p >= 0 {
        lemma_remove_distinct(v.welcomed, p);
    }
}

/// Recording grants keeps allocated clients and grants distinct, only adds allocated clients,
/// remembers every granted client of an automatic allocation, and adds at most one allocated
/// client per grant whose client was not allocated before.
pub proof fn lemma_grants_recorded(v: LobbyView, request_id: crate::ids::RequestId, body: AllocationGrantedBody, k: int)
    requires
        lobby_consistent(v),
        0 <= k <= body.grants@.len(),
    ensures ({
        let w = grants_recorded(v, request_id, body, k);
        &&& w == (LobbyView { allocated: w.allocated, grants: w.grants, ..v })
        &&& forall|i: int, j: int| 0 <= i < j < w.allocated.len() ==> w.allocated[i] != w.allocated[j]
        &&& forall|i: int, j: int| 0 <= i < j < w.grants.len() ==> w.grants[i].client != w.grants[j].client
        &&& forall|x: NetcodeClientId| v.allocated.contains(x) ==> #[trigger] w.allocated.contains(x)
        &&& v.product_request ==> w.allocated == v.allocated
        &&& !v.product_request ==> w.allocated.len() <= v.allocated.len() + new_identity_count(v, body.grants@, k)
        &&& !v.product_request ==> forall|j: int|
            0 <= j < k ==> w.allocated.contains(#[trigger] grant_client(v.sessions, body.grants@[j]))
    }),
    decreases k,
{
    if k > 0 {
        lemma_grants_recorded(v, request_id, body, k - 1);
        let u = grants_recorded(v, request_id, body, k - 1);
        let w = grants_recorded(v, request_id, body, k);
        let grant = body.grants@[k - 1];
        let client = grant_client(v.sessions, grant);
        if !v.product_request {
            if !u.allocated.contains(client) {
                assert(w.allocated == u.allocated.push(client));
                assert forall|i: int, j: int| 0 <= i < j < w.allocated.len() implies w.allocated[i] != w.allocated[j] by {
                    if j == u.allocated.len() {
                        assert(u.allocated.contains(u.allocated[i]));
                    }
                }
                assert forall|x: NetcodeClientId| u.allocated.contains(x) implies #[trigger] w.allocated.contains(x) by {
                    let i = choose|i: int| 0 <= i < u.allocated.len() && u.allocated[i] == x;
                    assert(w.allocated[i] == x);
                }
                assert(w.allocated[u.allocated.len() as int] == client);
                if v.allocated.contains(client) {
                    assert(u.allocated.contains(client));
                }
            }
            assert forall|j: int| 0 <= j < k implies w.allocated.contains(#[trigger] grant_client(v.sessions, body.grants@[j])) by {
                if j < k - 1 {
                    assert(u.allocated.contains(grant_client(v.sessions, body.grants@[j])));
                }
            }
        }
        let g = grant_index(u.grants, client);
        lemma_first_index_facts(u.grants, |x: crate::lobby::model::ClientGrant| x.client == client);
        if g < 0 {
            assert forall|i: int, j: int| 0 <= i < j < w.grants.len() implies w.grants[i].client != w.grants[j].client by {
                if j == u.grants.len() {
                    assert(!(|x: crate::lobby::model::ClientGrant| x.client == client)(u.grants[i]));
                }
            }
        }
    }
}

/// Accepting a grant keeps the lobby consistent, and an accepted automatic allocation remembers
/// every granted client, so none of them is allocated automatically again.
#[verifier::spinoff_prover]
pub proof fn law_grant_keeps_consistency_and_tombstones(v: LobbyView, body: AllocationGrantedBody)
    requires
        lobby_consistent(v),
    ensures ({
        let (w, result) = granted(v, body);
        &&& lobby_consistent(w)
        &&& result is Ok && !v.product_request ==> forall|j: int|
            0 <= j < body.grants@.len() ==> w.allocated.contains(#[trigger] grant_client(v.sessions, body.grants@[j]))
        &&& result is Ok ==> w.pending is None && w.allocation_completed
    }),
{
    reveal(granted);
    let (w, result) = granted(v, body);
    if result is Ok {
        let pending = pending_body(v)->0;
        lemma_grants_recorded(v, pending.request_id, body, body.grants@.len() as int);
    }
}

/// Every step of the allocation transaction keeps the lobby consistent: opening the automatic
/// request, handing it to the outbox, applying a control frame, delivering a grant, welcoming
/// a client, and cancelling, dissolving or completing a product allocation.
#[verifier::spinoff_prover]
#[verifier::rlimit(50)]
pub proof fn law_transaction_steps_keep_consistency(
    v: LobbyView,
    frame: crate::lobby::routing::ControlFrame,
    client_id: u64,
    client: NetcodeClientId,
)
    requires
        lobby_consistent(v),
    ensures
        lobby_consistent(request_created(v).0),
        lobby_consistent(crate::lobby::model::queued_marked(v).0),
        lobby_consistent(crate::lobby::model::control_applied(v, frame).0),
        lobby_consistent(grant_taken(v, client_id).0),
        lobby_consistent(crate::lobby::model::welcome_marked(v, client).0),
        lobby_consistent(crate::lobby::model::product_cancelled(v).0),
        lobby_consistent(crate::lobby::model::deferred_cancel_taken(v).0),
        lobby_consistent(crate::lobby::model::activation_completed(v)),
{
    reveal(request_created);
    reveal(crate::lobby::model::control_applied);
    reveal(rejected);
    reveal(grant_taken);
    reveal(crate::lobby::model::welcome_marked);
    reveal(crate::lobby::model::product_cancelled);
    reveal(crate::lobby::model::deferred_cancel_taken);
    lemma_lobby_frame(v, request_created(v).0);
    match frame.body {
        crate::lobby::routing::ControlBody::AllocationGranted(body) => {
            law_grant_keeps_consistency_and_tombstones(v, body);
        },
        _ => {},
    }
    let g = grant_index(v.grants, NetcodeClientId(client_id));
    lemma_first_index_facts(v.grants, |x: crate::lobby::model::ClientGrant| x.client == NetcodeClientId(client_id));
    if client_id != 0 && g >= 0 {
        let u = grant_taken(v, client_id).0;
        v.grants.remove_ensures(g);
        assert forall|i: int, j: int| 0 <= i < j < u.grants.len() implies u.grants[i].client != u.grants[j].client by {
            let i2 = if i < g { i } else { i + 1 };
            let j2 = if j < g { j } else { j + 1 };
            assert(u.grants[i] == v.grants[i2] && u.grants[j] == v.grants[j2]);
        }
    }
    if !v.welcomed.contains(client) {
        let w = crate::lobby::model::welcome_marked(v, client).0;
        assert forall|i: int, j: int| 0 <= i < j < w.welcomed.len() implies w.welcomed[i] != w.welcomed[j] by {
            if j == v.welcomed.len() {
                assert(v.welcomed.contains(v.welcomed[i]));
            }
        }
    }
}

/// Opening the allocation request of a reserved roster keeps the lobby consistent, and an
/// opened request is a product request whose participants carry the reserved teams in
/// reservation order.
pub proof fn law_product_request_keeps_consistency(
    v: LobbyView,
    q: crate::queue::model::QueueView,
    r: crate::queue::model::ReservationView,
    catalog: crate::catalog::ResolvedLobbyCatalog,
    modes: crate::lobby::model::RoutingModes,
    rules_profile: u8,
)
    requires
        lobby_consistent(v),
    ensures ({
        let (w, created) = crate::lobby::model::product_request_created(v, q, r, catalog, modes, rules_profile);
        &&& lobby_consistent(w)
        &&& v.pending is None && w.pending is Some ==> {
            &&& w.product_request
            &&& pending_body(w)->0.participants.len() == r.participants.len()
            &&& forall|i: int| 0 <= i < r.participants.len() ==> (#[trigger] pending_body(w)->0.participants[i]).team
                == r.participants[i].team
        }
    }),
{
    reveal(crate::lobby::model::product_request_created);
    let (w, created) = crate::lobby::model::product_request_created(v, q, r, catalog, modes, rules_profile);
    lemma_lobby_frame(v, w);
    if v.pending is None && w.pending is Some {
        lemma_reserved_rows_shape(v, q, r.participants);
    }
}

/// Rowed participants keep their number and reserved teams.
proof fn lemma_reserved_rows_shape(
    v: LobbyView,
    q: crate::queue::model::QueueView,
    parts: Seq<crate::queue::model::ReservedParticipant>,
)
    ensures
        crate::lobby::model::reserved_rows(v, q, parts) matches Some(rows) ==> rows.len() == parts.len() && forall|i: int|
            0 <= i < parts.len() ==> (#[trigger] rows[i]).team == parts[i].team,
    decreases parts.len(),
{
    if parts.len() > 0 {
        lemma_reserved_rows_shape(v, q, parts.drop_last());
    }
}

/// Opening a practice request keeps the lobby consistent. A practice request that opened, and
/// only one that opened, is answered: the requester alone on team 0, and bots with distinct
/// player identities on the game's teams filling the rest of its roster (for a game whose
/// roster has a seat).
pub proof fn law_practice_request_keeps_consistency(
    v: LobbyView,
    session: LobbySession,
    command: crate::lobby::practice::PracticeStartRequest,
    catalog: crate::catalog::ResolvedLobbyCatalog,
    human: crate::session::LobbyBuildIdentity,
    accepted_build: crate::wire::AcceptedBuildSummary,
    bot_build: Option<crate::session::LobbyBuildIdentity>,
    reservation_entropy: Option<u128>,
    modes: crate::lobby::model::RoutingModes,
    rules_profile: u8,
)
    requires
        lobby_consistent(v),
        ({
            let games = catalog.game_types@;
            let g = crate::lobby::model::game_index(games, command.game_type_id);
            g >= 0 ==> (games[g].team_count as int) * (games[g].players_per_team as int) >= 1
        }),
    ensures ({
        let (w, started) = crate::lobby::practice::practice_request_created(
            v, session, command, catalog, human, accepted_build, bot_build, reservation_entropy, modes,
            rules_profile,
        );
        &&& lobby_consistent(w)
        &&& started is Ok <==> (v.pending is None && w.pending is Some)
        &&& started matches Ok(s) ==> {
            let body = pending_body(w)->0;
            &&& w.product_request
            &&& body.participants.len() == 1
            &&& body.participants[0].netcode_client_id == session.netcode_client_id
            &&& body.participants[0].team == 0
            &&& body.participants.len() + body.bots.len() == (s.team_count as int) * (s.players_per_team as int)
            &&& forall|i: int| 0 <= i < body.bots.len() ==> (#[trigger] body.bots[i]).team < s.team_count
            &&& forall|i: int, j: int|
                0 <= i < j < body.bots.len() ==> (#[trigger] body.bots[i]).player_id != (#[trigger] body.bots[j]).player_id
        }
    }),
{
    reveal(crate::lobby::practice::practice_request_created);
    let (w, started) = crate::lobby::practice::practice_request_created(
        v, session, command, catalog, human, accepted_build, bot_build, reservation_entropy, modes,
        rules_profile,
    );
    lemma_lobby_frame(v, w);
    if started is Ok {
        let s = started->Ok_0;
        let body = pending_body(w)->0;
        let tc = s.team_count as int;
        let ppt = s.players_per_team as int;
        assert(tc * ppt <= 255 * 255) by (nonlinear_arith)
            requires
                0 <= tc < 256,
                0 <= ppt < 256,
        ;
        assert(body.participants.len() == 1);
        assert(body.participants.len() + body.bots.len() == tc * ppt);
        assert forall|i: int, j: int|
            0 <= i < j < body.bots.len() implies (#[trigger] body.bots[i]).player_id != (#[trigger] body.bots[j]).player_id by {
        }
        assert forall|i: int| 0 <= i < body.bots.len() implies (#[trigger] body.bots[i]).team < s.team_count by {
            assert(ppt > 0) by (nonlinear_arith)
                requires
                    i + 1 < tc * ppt,
                    0 <= i,
                    0 <= tc,
                    0 <= ppt,
            ;
            assert((i + 1) / ppt < tc) by (nonlinear_arith)
                requires
                    i + 1 < tc * ppt,
                    0 <= i,
                    ppt > 0,
            ;
        }
    }
}

} // verus!
