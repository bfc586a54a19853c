//! What the relay guarantees across calls, stated over the model of its
//! state and proved from the definitions of its steps.

use vstd::prelude::*;
use crate::ident::SessionId;
use crate::protocol::Message;
use crate::registry::{
    AlreadyRegistered,
    ConnectionId,
    ConnectionView,
    EndReason,
    Outbound,
    Role,
    fresh_record,
    handle_index,
    has_handle,
    has_peer,
    has_target,
    is_target_named,
    lemma_record_unique,
    lemma_same_connections,
    lemma_without_handle,
    linked,
    peer_index,
    registry_wf,
    target_index,
    without_handle,
};
use crate::server::{
    after_registration,
    registration_answer,
    Frame,
    Handshake,
    RelayState,
    asks_to_end,
    closed,
    forwardable,
    forwarded,
    handshake_result,
    handshake_state,
    lemma_closed,
    lemma_enrolled,
    lemma_forwarded,
    lemma_paired,
    lemma_swept,
    opposite,
    paired_state,
    pairing_verdict,
    registration_of,
    relay_wf,
    same_links,
    served,
    served_as,
    swept_state,
    tagged,
    target_registered,
};
use crate::session::{
    PairingError,
    Session,
    opened,
    pairing_refusal,
    with_pairing,
    expired_at,
    has_id,
    index_of,
    index_of_target,
    lemma_live_part,
    lemma_position_unique,
    lemma_with_activity,
    lemma_without_id,
    live_part,
    sessions_wf,
    target_paired,
    touched,
    with_activity,
    without_id,
};
use crate::time::{Timestamp, idle_longer_than};

verus! {

/// One request of a controller to be paired with a target.
pub struct JoinRequest {
    pub commander: String,
    pub target: String,
    pub id: SessionId,
    pub now: Timestamp,
}

/// The state after the relay has decided `request`: the pairing, or no
/// change where the pairing is refused.
pub open spec fn joined_once(s: RelayState, request: JoinRequest) -> RelayState {
    if pairing_verdict(s, request.target@, request.id) is None {
        paired_state(s, request.commander, request.target, request.id, request.now)
    } else {
        s
    }
}

/// The state after the relay has decided `requests` one after the other.
pub open spec fn joined(s: RelayState, requests: Seq<JoinRequest>) -> RelayState
    decreases requests.len(),
{
    if requests.len() == 0 {
        s
    } else {
        joined_once(joined(s, requests.drop_last()), requests.last())
    }
}

/// What request number `i` of `requests` is answered: `None` for a pairing,
/// or the reason of the refusal.
pub open spec fn join_answer(s: RelayState, requests: Seq<JoinRequest>, i: int) -> Option<PairingError> {
    pairing_verdict(joined(s, requests.take(i)), requests[i].target@, requests[i].id)
}

/// Pairings never unregister a target and never end a session.
proof fn lemma_joined_keeps(s: RelayState, requests: Seq<JoinRequest>, name: Seq<char>)
    ensures
        has_target(s.connections, name) ==> has_target(joined(s, requests).connections, name),
        target_paired(s.sessions, name) ==> target_paired(joined(s, requests).sessions, name),
        !has_target(s.connections, name) ==> !has_target(joined(s, requests).connections, name),
    decreases requests.len(),
{
    if requests.len() > 0 {
        let before = joined(s, requests.drop_last());
        let request = requests.last();
        lemma_joined_keeps(s, requests.drop_last(), name);
        let after = joined_once(before, request);
        if pairing_verdict(before, request.target@, request.id) is None {
            let t = target_index(before.connections, request.target@);
            assert(0 <= t < before.connections.len());
            if has_target(before.connections, name) {
                let i = target_index(before.connections, name);
                assert(is_target_named(after.connections[i], name));
            }
            if has_target(after.connections, name) {
                let i = target_index(after.connections, name);
                assert(i < before.connections.len());
                assert(is_target_named(before.connections[i], name));
            }
            if target_paired(before.sessions, name) {
                let k = index_of_target(before.sessions, name);
                assert(after.sessions[k] == before.sessions[k]);
            }
        }
    }
}

/// Of all the requests to join one target, whatever their order and whoever
/// sends them, at most one is answered with a pairing. Every request for
/// that target that is decided after the pairing is refused because the
/// target is already paired; one that was decided before it can only have
/// been refused because its identifier was in use.
pub proof fn no_double_pairing(s: RelayState, requests: Seq<JoinRequest>, i: int, j: int)
    requires
        0 <= i < requests.len(),
        0 <= j < requests.len(),
        i != j,
        requests[i].target@ == requests[j].target@,
        join_answer(s, requests, i) is None,
    ensures
        i < j ==> join_answer(s, requests, j) == Some(PairingError::TargetAlreadyPaired),
        j < i ==> join_answer(s, requests, j) == Some(PairingError::IdCollision),
{
    let name = requests[i].target@;
    if i < j {
        let at_i = joined(s, requests.take(i));
        let after_i = joined(s, requests.take(i + 1));
        assert(requests.take(i + 1).drop_last() =~= requests.take(i));
        assert(requests.take(i + 1).last() == requests[i]);
        assert(after_i == joined_once(at_i, requests[i]));
        // Right after the pairing the target is registered and paired.
        let t = target_index(at_i.connections, name);
        assert(0 <= t < at_i.connections.len() && is_target_named(at_i.connections[t], name));
        assert(is_target_named(after_i.connections[t], name));
        assert(after_i.sessions[at_i.sessions.len() as int].hid_client_id@ == name);
        // The requests between the two change neither.
        let rest = requests.subrange(i + 1, j);
        lemma_joined_split(s, requests.take(j), i + 1);
        assert(requests.take(j).take(i + 1) =~= requests.take(i + 1));
        assert(requests.take(j).subrange(i + 1, j) =~= rest);
        lemma_joined_keeps(after_i, rest, name);
    } else {
        let at_j = joined(s, requests.take(j));
        let after_j = joined(s, requests.take(j + 1));
        assert(requests.take(j + 1).drop_last() =~= requests.take(j));
        assert(requests.take(j + 1).last() == requests[j]);
        assert(after_j == joined_once(at_j, requests[j]));
        // From `j` on, nothing registers the target or ends a session.
        let from_j = requests.subrange(j, i);
        lemma_joined_split(s, requests.take(i), j);
        assert(requests.take(i).take(j) =~= requests.take(j));
        assert(requests.take(i).subrange(j, i) =~= from_j);
        lemma_joined_keeps(at_j, from_j, name);
        if join_answer(s, requests, j) is None {
            // A pairing at `j` would still stand at `i`.
            let rest = requests.subrange(j + 1, i);
            lemma_joined_split(s, requests.take(i), j + 1);
            assert(requests.take(i).take(j + 1) =~= requests.take(j + 1));
            assert(requests.take(i).subrange(j + 1, i) =~= rest);
            lemma_joined_keeps(after_j, rest, name);
            assert(after_j.sessions[at_j.sessions.len() as int].hid_client_id@ == name);
            assert(target_paired(after_j.sessions, name));
        }
    }
}

/// Deciding a run of requests is deciding its first part and then the rest.
proof fn lemma_joined_split(s: RelayState, requests: Seq<JoinRequest>, k: int)
    requires
        0 <= k <= requests.len(),
    ensures
        joined(s, requests) == joined(joined(s, requests.take(k)), requests.subrange(k, requests.len() as int)),
    decreases requests.len(),
{
    let rest = requests.subrange(k, requests.len() as int);
    if k == requests.len() {
        assert(requests.take(k) =~= requests);
    } else {
        lemma_joined_split(s, requests.drop_last(), k);
        assert(requests.drop_last().take(k) =~= requests.take(k));
        assert(requests.drop_last().subrange(k, requests.len() - 1) =~= rest.drop_last());
        assert(rest.last() == requests.last());
    }
}

/// Once a target is registered under a name, the name is taken. The
/// record under the name is the one of that registration; a second request
/// to register under the name is refused as already registered, whoever
/// sends it, and changes nothing, so the record of the first stays as it is.
pub proof fn registration_is_unique(s: RelayState, name: Seq<char>)
    requires
        relay_wf(s),
        !has_target(s.connections, name),
    ensures
        ({
            let first = after_registration(s, name);
            &&& registration_answer(s, name) == Ok::<ConnectionId, AlreadyRegistered>(
                ConnectionId(s.next_handle),
            )
            &&& has_target(first.connections, name)
            &&& first.connections[target_index(first.connections, name)] == fresh_record(
                ConnectionId(s.next_handle),
                Role::Target,
                name,
            )
            &&& registration_answer(first, name) == Err::<ConnectionId, AlreadyRegistered>(AlreadyRegistered)
            &&& after_registration(first, name) == first
        }),
{
    let after = target_registered(s, name).connections;
    let last = s.connections.len() as int;
    assert(is_target_named(after[last], name));
    let i = target_index(after, name);
    if i != last {
        assert(is_target_named(s.connections[i], name));
    }
}

/// A request to register under a name that a live target holds is refused
/// in every state, and leaves every connection and every session as it was.
pub proof fn held_name_is_refused(s: RelayState, name: Seq<char>)
    requires
        has_target(s.connections, name),
    ensures
        registration_answer(s, name) == Err::<ConnectionId, AlreadyRegistered>(AlreadyRegistered),
        after_registration(s, name) == s,
{
}

/// Ending a session twice is ending it once.
pub proof fn end_session_is_idempotent(sessions: Seq<Session>, id: SessionId)
    requires
        sessions_wf(sessions),
    ensures
        without_id(without_id(sessions, id), id) == without_id(sessions, id),
{
    lemma_without_id(sessions, id);
}

/// Removing a connection from the registry twice is removing it once.
pub proof fn remove_is_idempotent(reg: Seq<ConnectionView>, next: u64, handle: ConnectionId)
    requires
        registry_wf(reg, next),
    ensures
        without_handle(without_handle(reg, handle), handle) == without_handle(reg, handle),
{
    lemma_without_handle(reg, next, handle);
}

/// Closing a connection twice is closing it once, whatever reasons are given:
/// the second call finds nothing to do, so no peer is told twice.
pub proof fn close_is_idempotent(s: RelayState, handle: ConnectionId, first: EndReason, second: EndReason)
    requires
        relay_wf(s),
    ensures
        closed(closed(s, handle, first), handle, second) == closed(s, handle, first),
{
    lemma_closed(s, handle, first);
}

/// The state after connection `handle` has sent `messages` in this order,
/// message number `i` at `times[i]`.
pub open spec fn sent(s: RelayState, handle: ConnectionId, messages: Seq<Message>, times: Seq<Timestamp>) -> RelayState
    decreases messages.len(),
{
    if messages.len() == 0 {
        s
    } else {
        served(
            sent(s, handle, messages.drop_last(), times),
            handle,
            Frame::Text(Some(messages.last())),
            times[messages.len() - 1],
        )
    }
}

/// `messages` as the peer is to receive them in session `session_id`.
pub open spec fn deliveries(messages: Seq<Message>, session_id: SessionId) -> Seq<Outbound> {
    Seq::new(messages.len(), |i: int| Outbound::Forward(tagged(messages[i], session_id)))
}

/// What a paired connection sends reaches its peer's queue in the order in
/// which it was sent, each message once, marked with the session, behind
/// what waited there before; no other queue changes. This holds of every
/// run of consistent messages that the relay hands on for the sender's role.
pub proof fn order_is_preserved(
    s: RelayState,
    handle: ConnectionId,
    messages: Seq<Message>,
    times: Seq<Timestamp>,
)
    requires
        relay_wf(s),
        has_handle(s.connections, handle),
        s.connections[handle_index(s.connections, handle)].session is Some,
        times.len() == messages.len(),
        forall|i: int|
            0 <= i < messages.len() ==> (#[trigger] messages[i]).consistent() && forwardable(
                s.connections[handle_index(s.connections, handle)].role,
                messages[i].payload,
            ),
    ensures
        ({
            let me = s.connections[handle_index(s.connections, handle)];
            let sid = me.session->0;
            let p = peer_index(s.connections, opposite(me.role), sid);
            let after = sent(s, handle, messages, times);
            &&& relay_wf(after)
            &&& has_peer(s.connections, opposite(me.role), sid)
            &&& same_links(s.connections, after.connections)
            &&& after.connections[p].outbound == s.connections[p].outbound + deliveries(messages, sid)
            &&& forall|i: int|
                0 <= i < s.connections.len() && i != p ==> (#[trigger] after.connections[i]).outbound
                    == s.connections[i].outbound
        }),
    decreases messages.len(),
{
    let h = handle_index(s.connections, handle);
    let me = s.connections[h];
    let sid = me.session->0;
    let role = me.role;
    // The sender's session is active, so it has a peer of the other role.
    let k = index_of(s.sessions, sid);
    assert(s.sessions[k].id == sid);
    assert(has_peer(s.connections, opposite(role), sid));
    let p = peer_index(s.connections, opposite(role), sid);
    if messages.len() == 0 {
        assert(s.connections[p].outbound + deliveries(messages, sid) =~= s.connections[p].outbound);
    } else {
        let front = messages.drop_last();
        let m = messages.last();
        let now = times[messages.len() - 1];
        order_is_preserved(s, handle, front, times.take(front.len() as int));
        lemma_sent_times(s, handle, front, times, times.take(front.len() as int));
        let mid = sent(s, handle, front, times);
        let after = sent(s, handle, messages, times);
        lemma_same_connections(s.connections, mid.connections, s.next_handle);
        assert(handle_index(mid.connections, handle) == h);
        let me2 = mid.connections[h];
        assert(me2.role == role && me2.session == Some(sid));
        assert(linked(mid.connections[p], opposite(role), sid));
        // In `mid` the peer is still the one at position `p`.
        let q = peer_index(mid.connections, opposite(role), sid);
        assert(linked(mid.connections[q], opposite(role), sid));
        if q != p {
            if q < p {
                assert(mid.connections[q].role != mid.connections[p].role);
            } else {
                assert(mid.connections[p].role != mid.connections[q].role);
            }
        }
        assert(!asks_to_end(m));
        assert(after == forwarded(mid, handle, m, now));
        lemma_forwarded(mid, handle, m, now);
        lemma_record_unique(mid.connections, mid.next_handle, p);
        assert(after.connections[p].outbound == mid.connections[p].outbound.push(
            Outbound::Forward(tagged(m, sid)),
        ));
        assert(after.connections[p].outbound =~= s.connections[p].outbound + deliveries(messages, sid));
        assert forall|i: int| 0 <= i < s.connections.len() && i != p implies (
        #[trigger] after.connections[i]).outbound == s.connections[i].outbound by {
            assert(after.connections[i] == mid.connections[i]);
        }
        assert forall|i: int| 0 <= i < s.connections.len() implies (#[trigger] after.connections[i]).session
            == s.connections[i].session by {
            assert(after.connections[i].session == mid.connections[i].session);
        }
    }
}

/// Only the times of the messages that were sent matter.
proof fn lemma_sent_times(
    s: RelayState,
    handle: ConnectionId,
    messages: Seq<Message>,
    times: Seq<Timestamp>,
    other: Seq<Timestamp>,
)
    requires
        forall|i: int| 0 <= i < messages.len() ==> times[i] == other[i],
    ensures
        sent(s, handle, messages, times) == sent(s, handle, messages, other),
    decreases messages.len(),
{
    if messages.len() > 0 {
        lemma_sent_times(s, handle, messages.drop_last(), times, other);
    }
}

/// A sweep removes exactly the sessions that have expired. A session that
/// has been idle for longer than the timeout is gone afterwards, under its
/// identifier and under its target's name; every other session is still
/// there, unchanged.
pub proof fn expiry_is_exact(sessions: Seq<Session>, now: Timestamp, timeout_mins: u64, k: int)
    requires
        sessions_wf(sessions),
        0 <= k < sessions.len(),
    ensures
        expired_at(sessions[k], now, timeout_mins) ==> !has_id(
            live_part(sessions, now, timeout_mins),
            sessions[k].id,
        ) && !target_paired(live_part(sessions, now, timeout_mins), sessions[k].hid_client_id@),
        !expired_at(sessions[k], now, timeout_mins) ==> has_id(
            live_part(sessions, now, timeout_mins),
            sessions[k].id,
        ) && live_part(sessions, now, timeout_mins)[index_of(
            live_part(sessions, now, timeout_mins),
            sessions[k].id,
        )] == sessions[k] && target_paired(
            live_part(sessions, now, timeout_mins),
            sessions[k].hid_client_id@,
        ),
{
    let live = live_part(sessions, now, timeout_mins);
    lemma_live_part(sessions, now, timeout_mins);
    if expired_at(sessions[k], now, timeout_mins) {
        if has_id(live, sessions[k].id) {
            let a = index_of(live, sessions[k].id);
            assert(sessions.contains(live[a]));
            let b = choose|b: int| 0 <= b < sessions.len() && sessions[b] == live[a];
            lemma_position_unique(sessions, b);
            lemma_position_unique(sessions, k);
            assert(false);
        }
        if target_paired(live, sessions[k].hid_client_id@) {
            let a = index_of_target(live, sessions[k].hid_client_id@);
            assert(sessions.contains(live[a]));
            let b = choose|b: int| 0 <= b < sessions.len() && sessions[b] == live[a];
            lemma_position_unique(sessions, b);
            lemma_position_unique(sessions, k);
            assert(false);
        }
    } else {
        assert(live.contains(sessions[k]));
        let a = choose|a: int| 0 <= a < live.len() && live[a] == sessions[k];
        lemma_position_unique(live, a);
    }
}

/// A session that saw activity within the timeout survives the sweep: if
/// activity on session `id` was recorded at `at`, and at `now` no more than
/// `timeout_mins` minutes have passed since, the session is still in the
/// table after a sweep at `now`.
pub proof fn activity_postpones_expiry(
    sessions: Seq<Session>,
    id: SessionId,
    at: Timestamp,
    now: Timestamp,
    timeout_mins: u64,
)
    requires
        sessions_wf(sessions),
        has_id(sessions, id),
        !idle_longer_than(at@, now@, timeout_mins as nat),
    ensures
        has_id(live_part(with_activity(sessions, id, at), now, timeout_mins), id),
{
    let k = index_of(sessions, id);
    let active = with_activity(sessions, id, at);
    lemma_with_activity(sessions, id, at);
    assert(active[k] == touched(sessions[k], at));
    expiry_is_exact(active, now, timeout_mins, k);
}

/// Every step of the relay keeps the invariant of its state: whatever the
/// first frame of a new connection is, whatever a connection sends or
/// however it goes, and whenever the sweep runs, afterwards no handle and no
/// target name occurs twice, no target has two sessions, every paired
/// connection points at an active session, and every active session has
/// exactly one target and one controller that are registered.
pub proof fn invariant_is_kept(
    s: RelayState,
    peer: String,
    first: Frame,
    authorized: bool,
    id: SessionId,
    handle: ConnectionId,
    role: Role,
    frame: Frame,
    reason: EndReason,
    now: Timestamp,
    timeout_mins: u64,
)
    requires
        relay_wf(s),
    ensures
        s.next_handle < u64::MAX ==> relay_wf(handshake_state(s, peer, first, authorized, id, now)),
        relay_wf(served_as(s, role, handle, frame, now)),
        relay_wf(closed(s, handle, reason)),
        relay_wf(swept_state(s, now, timeout_mins)),
{
    lemma_closed(s, handle, reason);
    lemma_closed(s, handle, EndReason::PeerDisconnected);
    lemma_closed(s, handle, EndReason::EndedByPeer);
    lemma_swept(s, now, timeout_mins);
    match frame {
        Frame::Text(Some(message)) => {
            lemma_forwarded(s, handle, message, now);
        },
        _ => {},
    }
    if s.next_handle < u64::MAX {
        match handshake_result(s, first, authorized, id) {
            Handshake::Refused(_) => {},
            Handshake::Target { .. } => {
                lemma_enrolled(s, Role::Target, registration_of(first)->0->CreateSession_client_id@);
            },
            Handshake::Controller { .. } => {
                lemma_paired(s, peer, registration_of(first)->0->JoinSession_target_client_id, id, now);
            },
        }
    }
}

/// After a sweep no connection is paired in a session that had expired, and
/// no lookup by target name finds such a session; a connection whose session
/// had not expired is paired as before.
pub proof fn sweep_unpairs_exactly_the_expired(s: RelayState, now: Timestamp, timeout_mins: u64, i: int)
    requires
        relay_wf(s),
        0 <= i < s.connections.len(),
        s.connections[i].session is Some,
    ensures
        ({
            let sid = s.connections[i].session->0;
            let session = s.sessions[index_of(s.sessions, sid)];
            let after = swept_state(s, now, timeout_mins);
            &&& expired_at(session, now, timeout_mins) ==> after.connections[i].session is None && !has_id(
                after.sessions,
                sid,
            ) && !target_paired(after.sessions, session.hid_client_id@)
            &&& !expired_at(session, now, timeout_mins) ==> after.connections[i].session == Some(sid)
                && has_id(after.sessions, sid) && after.connections[i].outbound
                == s.connections[i].outbound
        }),
{
    let sid = s.connections[i].session->0;
    let k = index_of(s.sessions, sid);
    assert(s.sessions[k].id == sid);
    expiry_is_exact(s.sessions, now, timeout_mins, k);
}

/// One request to pair a controller with a target: who asks, the
/// identifier drawn for the session, and the instant.
pub struct PairingRequest {
    pub commander: String,
    pub id: SessionId,
    pub now: Timestamp,
}

/// The session that `request` opens for the target `target`.
pub open spec fn session_of_request(request: PairingRequest, target: String) -> Session {
    opened(request.id, request.commander, target, request.now)
}

/// The table after `requests` for the target `target` have been decided one
/// after the other, with nothing ending a session in between.
pub open spec fn pairings(s: Seq<Session>, target: String, requests: Seq<PairingRequest>) -> Seq<Session>
    decreases requests.len(),
{
    if requests.len() == 0 {
        s
    } else {
        with_pairing(
            pairings(s, target, requests.drop_last()),
            requests.last().id,
            requests.last().commander,
            target,
            requests.last().now,
        )
    }
}

/// What request number `i` is answered: `None` for a pairing, or the reason
/// of the refusal.
pub open spec fn pairing_answer(s: Seq<Session>, target: String, requests: Seq<PairingRequest>, i: int) -> Option<
    PairingError,
> {
    pairing_refusal(pairings(s, target, requests.take(i)), target@, requests[i].id)
}

/// What the first `n` requests have come to: either none was paired, each
/// was refused for its identifier and the table is as it was; or exactly
/// one, number `i`, was paired, the table has its session as the newest,
/// and every later request was refused because the target is paired.
pub open spec fn decided(s: Seq<Session>, target: String, requests: Seq<PairingRequest>, n: int) -> bool {
    let t = pairings(s, target, requests.take(n));
    ||| (t == s && forall|j: int|
        0 <= j < n ==> #[trigger] pairing_answer(s, target, requests, j) == Some(PairingError::IdCollision))
    ||| exists|i: int| 0 <= i < n && #[trigger] paired_at(s, target, requests, n, i)
}

/// Whether, of the first `n` requests, number `i` and no other was paired.
pub open spec fn paired_at(s: Seq<Session>, target: String, requests: Seq<PairingRequest>, n: int, i: int) -> bool {
    &&& pairing_answer(s, target, requests, i) is None
    &&& pairings(s, target, requests.take(n)) == s.push(session_of_request(requests[i], target))
    &&& forall|j: int|
        0 <= j < n && j != i ==> #[trigger] pairing_answer(s, target, requests, j) == Some(
            if j > i {
                PairingError::TargetAlreadyPaired
            } else {
                PairingError::IdCollision
            },
        )
}

/// The shape of every run of requests for one target that is not paired at
/// the start.
proof fn lemma_decided(s: Seq<Session>, target: String, requests: Seq<PairingRequest>, n: int)
    requires
        sessions_wf(s),
        !target_paired(s, target@),
        0 <= n <= requests.len(),
    ensures
        decided(s, target, requests, n),
        sessions_wf(pairings(s, target, requests.take(n))),
    decreases n,
{
    if n == 0 {
        assert(requests.take(0) =~= Seq::<PairingRequest>::empty());
    } else {
        let m = n - 1;
        lemma_decided(s, target, requests, m);
        let before = pairings(s, target, requests.take(m));
        let after = pairings(s, target, requests.take(n));
        let q = requests[n - 1];
        assert(requests.take(n).drop_last() =~= requests.take(n - 1));
        assert(requests.take(n).last() == q);
        assert(after == with_pairing(before, q.id, q.commander, target, q.now));
        if before == s && forall|j: int|
            0 <= j < n - 1 ==> #[trigger] pairing_answer(s, target, requests, j) == Some(
                PairingError::IdCollision,
            ) {
            if has_id(s, q.id) {
                assert(after == s);
            } else {
                assert(pairing_answer(s, target, requests, n - 1) is None);
                assert(paired_at(s, target, requests, n, n - 1));
                lemma_pushed_session(s, session_of_request(q, target));
            }
        } else {
            let i = choose|i: int| 0 <= i < m && #[trigger] paired_at(s, target, requests, m, i);
            assert(before[s.len() as int].hid_client_id@ == target@);
            assert(target_paired(before, target@));
            assert(after == before);
            assert(paired_at(s, target, requests, n, i));
        }
    }
}

/// A session with a free identifier for a target that is not paired keeps
/// the table well formed when it is added.
proof fn lemma_pushed_session(s: Seq<Session>, session: Session)
    requires
        sessions_wf(s),
        !has_id(s, session.id),
        !target_paired(s, session.hid_client_id@),
    ensures
        sessions_wf(s.push(session)),
{
    let t = s.push(session);
    assert forall|a: int, b: int| 0 <= a < b < t.len() implies (#[trigger] t[a]).id != (#[trigger] t[b]).id
        && t[a].hid_client_id@ != t[b].hid_client_id@ by {
        assert(t[a] == s[a]);
        if b < s.len() {
            assert(t[b] == s[b]);
        }
    }
}

/// However many controllers ask for one target, and in whatever order, the
/// table pairs at most one of them. While the target is not paired and
/// nothing ends a session in between:
/// the request that is paired is the only one; every request after it is
/// refused because the target is already paired, and every request before it
/// was refused because its identifier was in use; afterwards the table
/// holds exactly one session for the target, that of the paired request;
/// where no request is paired the table is as it was; and some request is
/// paired as soon as one comes with an identifier that the table does not
/// hold.
pub proof fn one_session_per_target(s: Seq<Session>, target: String, requests: Seq<PairingRequest>)
    requires
        sessions_wf(s),
        !target_paired(s, target@),
    ensures
        sessions_wf(pairings(s, target, requests)),
        forall|i: int, j: int|
            0 <= i < requests.len() && 0 <= j < requests.len() && i != j && (#[trigger] pairing_answer(
                s,
                target,
                requests,
                i,
            )) is None ==> #[trigger] pairing_answer(s, target, requests, j) == Some(
                if j > i {
                    PairingError::TargetAlreadyPaired
                } else {
                    PairingError::IdCollision
                },
            ),
        forall|i: int|
            0 <= i < requests.len() && (#[trigger] pairing_answer(s, target, requests, i)) is None ==> {
                let after = pairings(s, target, requests);
                &&& target_paired(after, target@)
                &&& after[index_of_target(after, target@)] == session_of_request(requests[i], target)
                &&& after == s.push(session_of_request(requests[i], target))
            },
        (forall|i: int| 0 <= i < requests.len() ==> (#[trigger] pairing_answer(s, target, requests, i)) is Some)
            ==> pairings(s, target, requests) == s,
        forall|k: int|
            0 <= k < requests.len() && !has_id(s, (#[trigger] requests[k]).id) ==> exists|i: int|
                0 <= i <= k && (#[trigger] pairing_answer(s, target, requests, i)) is None,
{
    let n = requests.len() as int;
    lemma_decided(s, target, requests, n);
    assert(requests.take(n) =~= requests);
    let after = pairings(s, target, requests);
    if exists|i: int| 0 <= i < n && #[trigger] paired_at(s, target, requests, n, i) {
        let i = choose|i: int| 0 <= i < n && #[trigger] paired_at(s, target, requests, n, i);
        let last = s.len() as int;
        assert(after[last] == session_of_request(requests[i], target));
        lemma_position_unique(after, last);
    }
    assert forall|k: int| 0 <= k < n && !has_id(s, (#[trigger] requests[k]).id) implies exists|i: int|
        0 <= i <= k && (#[trigger] pairing_answer(s, target, requests, i)) is None by {
        lemma_decided(s, target, requests, k);
        if pairings(s, target, requests.take(k)) == s && forall|j: int|
            0 <= j < k ==> #[trigger] pairing_answer(s, target, requests, j) == Some(
                PairingError::IdCollision,
            ) {
            assert(pairing_answer(s, target, requests, k) is None);
        } else {
            let i = choose|i: int| 0 <= i < k && #[trigger] paired_at(s, target, requests, k, i);
            assert(pairing_answer(s, target, requests, i) is None);
        }
    }
}

} // verus!
