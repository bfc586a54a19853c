//! The relay engine: what the server does with each frame of each
//! connection.
//!
//! The engine owns the registry of connections and the table of sessions,
//! and is the only writer of either. Each of its operations is one
//! indivisible step from one state to the next: the caller holds the engine
//! exclusively for the length of the call. The transport stays outside: the
//! caller reads a frame, hands it to the engine, and afterwards delivers
//! what the engine has put into the outbound queues.

use vstd::prelude::*;
use crate::config::Config;
use crate::ident::SessionId;
use crate::protocol::{
    Message,
    MessagePayload,
    MessageType,
    SessionControlMessage,
    StatusMessage,
    check_envelope,
};
use crate::registry::{
    AlreadyRegistered,
    ConnectionId,
    ConnectionRegistry,
    ConnectionView,
    EndReason,
    Outbound,
    Role,
    fresh_record,
    handle_index,
    has_handle,
    has_peer,
    has_target,
    is_target_named,
    lemma_record_unique,
    lemma_same_connections,
    lemma_without_handle,
    linked,
    link_expired,
    peer_index,
    registry_wf,
    same_connections,
    swept,
    target_index,
    torn_down,
    with_enqueued,
    with_queue_taken,
    without_handle,
};
use crate::session::{
    PairingError,
    Session,
    SessionManager,
    expired_part,
    has_id,
    index_of,
    lemma_live_part,
    lemma_position_unique,
    lemma_with_activity,
    lemma_without_id,
    live_part,
    opened,
    sessions_wf,
    target_paired,
    with_activity,
    without_id,
};
use crate::time::Timestamp;

verus! {

/// The state of the relay: the live connections, the number of the next
/// handle, and the active sessions.
pub struct RelayState {
    pub connections: Seq<ConnectionView>,
    pub next_handle: u64,
    pub sessions: Seq<Session>,
}

/// How connections and sessions hang together:
/// a paired connection points at an active session; every active session has
/// a target and a controller that point at it, and no second one of either;
/// and the target of a session is the connection registered under the
/// session's target name.
pub open spec fn links_wf(reg: Seq<ConnectionView>, sessions: Seq<Session>) -> bool {
    &&& forall|i: int|
        0 <= i < reg.len() && (#[trigger] reg[i]).session is Some ==> has_id(sessions, reg[i].session->0)
    &&& forall|k: int|
        0 <= k < sessions.len() ==> has_peer(reg, Role::Target, (#[trigger] sessions[k]).id) && has_peer(
            reg,
            Role::Controller,
            sessions[k].id,
        )
    &&& forall|i: int, j: int|
        0 <= i < j < reg.len() && (#[trigger] reg[i]).session is Some && reg[i].session == (
        #[trigger] reg[j]).session ==> reg[i].role != reg[j].role
    &&& forall|i: int, k: int|
        0 <= i < reg.len() && 0 <= k < sessions.len() && linked(
            #[trigger] reg[i],
            Role::Target,
            (#[trigger] sessions[k]).id,
        ) ==> reg[i].declared_id == sessions[k].hid_client_id@
}

/// The invariant of the relay's state.
pub open spec fn relay_wf(s: RelayState) -> bool {
    &&& registry_wf(s.connections, s.next_handle)
    &&& sessions_wf(s.sessions)
    &&& links_wf(s.connections, s.sessions)
}

/// The other role.
pub open spec fn opposite(role: Role) -> Role {
    match role {
        Role::Target => Role::Controller,
        Role::Controller => Role::Target,
    }
}

/// `message` as the relay hands it on: marked with the session it travels in.
pub open spec fn tagged(message: Message, session_id: SessionId) -> Message {
    Message { session_id: Some(session_id), ..message }
}

/// Whether `control` asks to register the sender as target or controller.
pub open spec fn is_registration(control: SessionControlMessage) -> bool {
    control is CreateSession || control is JoinSession
}

/// Whether the relay hands a message with this payload on to the peer when a
/// connection of role `role` sends it inside a session. Input events and
/// status messages travel in both directions; session control travels from
/// controller to target only, and neither registrations nor the request to
/// end the session are handed on; authentication is between a connection and
/// the relay.
pub open spec fn forwardable(role: Role, payload: MessagePayload) -> bool {
    match payload {
        MessagePayload::HidEvent(_) => true,
        MessagePayload::Status(_) => true,
        MessagePayload::SessionControl(control) => role == Role::Controller && !is_registration(control)
            && !(control is EndSession),
        MessagePayload::Auth(_) => false,
    }
}

/// Whether `message` asks to end the sender's session.
pub open spec fn asks_to_end(message: Message) -> bool {
    message.payload matches MessagePayload::SessionControl(control) && control is EndSession
}

/// The state after connection `handle` has gone, for the reason `reason` as
/// its peer will hear it: the connection's record is removed; if it was
/// paired, its session ends and the peer is unpaired and told. A handle that
/// is not registered changes nothing.
pub open spec fn closed(s: RelayState, handle: ConnectionId, reason: EndReason) -> RelayState {
    if !has_handle(s.connections, handle) {
        s
    } else {
        match s.connections[handle_index(s.connections, handle)].session {
            None => RelayState { connections: without_handle(s.connections, handle), ..s },
            Some(sid) => RelayState {
                connections: without_handle(torn_down(s.connections, sid, reason, Some(handle)), handle),
                sessions: without_id(s.sessions, sid),
                ..s
            },
        }
    }
}

/// The state after a sweep at `now`: every session that has been idle for
/// more than `timeout_mins` minutes is gone, and both of its connections are
/// unpaired and told.
pub open spec fn swept_state(s: RelayState, now: Timestamp, timeout_mins: u64) -> RelayState {
    RelayState {
        connections: swept(s.connections, s.sessions, now, timeout_mins),
        sessions: live_part(s.sessions, now, timeout_mins),
        ..s
    }
}

/// The state after the relay has handed `message` of connection `handle` on
/// at `now`: the message, marked with the session, is the newest item in the
/// peer's queue, and the session has seen activity. A message of a
/// connection that is not paired is discarded.
pub open spec fn forwarded(s: RelayState, handle: ConnectionId, message: Message, now: Timestamp) -> RelayState {
    let me = s.connections[handle_index(s.connections, handle)];
    if has_handle(s.connections, handle) && me.session is Some && has_peer(
        s.connections,
        opposite(me.role),
        me.session->0,
    ) {
        let sid = me.session->0;
        let peer = s.connections[peer_index(s.connections, opposite(me.role), sid)];
        RelayState {
            connections: with_enqueued(s.connections, peer.id, Outbound::Forward(tagged(message, sid))),
            sessions: with_activity(s.sessions, sid, now),
            ..s
        }
    } else {
        s
    }
}

/// One frame from a connection's transport, as the relay sees it.
#[derive(Debug)]
pub enum Frame {
    /// A text frame: the message it decodes to, or `None` where the text is
    /// no envelope.
    Text(Option<Message>),
    /// The peer closed the connection.
    Close,
    /// A frame that carries no message.
    Other,
    /// The transport failed.
    Failed,
}

/// What the receive loop of a connection does next.
#[derive(Clone, Copy, Debug, PartialEq, Eq, Structural)]
pub enum Step {
    /// Wait for the next frame.
    Continue,
    /// Stop: the connection is no longer served.
    Closed,
}

/// The state after connection `handle` has sent `frame` at `now`.
pub open spec fn served(s: RelayState, handle: ConnectionId, frame: Frame, now: Timestamp) -> RelayState {
    if !has_handle(s.connections, handle) {
        s
    } else {
        let role = s.connections[handle_index(s.connections, handle)].role;
        match frame {
            Frame::Close => closed(s, handle, EndReason::PeerDisconnected),
            Frame::Failed => closed(s, handle, EndReason::PeerDisconnected),
            Frame::Other => s,
            Frame::Text(None) => s,
            Frame::Text(Some(message)) => if !message.consistent() {
                s
            } else if asks_to_end(message) {
                closed(s, handle, EndReason::EndedByPeer)
            } else if forwardable(role, message.payload) {
                forwarded(s, handle, message, now)
            } else {
                s
            },
        }
    }
}

/// Whether the receive loop of `handle` stops after `frame`.
pub open spec fn stops(s: RelayState, handle: ConnectionId, frame: Frame) -> bool {
    ||| !has_handle(s.connections, handle)
    ||| frame is Close
    ||| frame is Failed
    ||| (frame matches Frame::Text(Some(message)) && message.consistent() && asks_to_end(message))
}

/// Whether `after` differs from `before` only in what waits in the queues:
/// handles, roles, names and links are the same, record by record.
pub open spec fn same_links(before: Seq<ConnectionView>, after: Seq<ConnectionView>) -> bool {
    &&& same_connections(before, after)
    &&& forall|i: int| 0 <= i < before.len() ==> (#[trigger] after[i]).session == before[i].session
}

/// Whether `after` has the sessions of `before`, one for one, with the same
/// identifiers and participants: only the times of activity may differ.
pub open spec fn same_pairings(before: Seq<Session>, after: Seq<Session>) -> bool {
    &&& after.len() == before.len()
    &&& forall|k: int|
        0 <= k < before.len() ==> (#[trigger] after[k]).id == before[k].id && after[k].hid_client_id
            == before[k].hid_client_id && after[k].commander_id == before[k].commander_id
}

/// The invariant does not depend on queues or on times of activity.
pub proof fn lemma_queues_and_clocks(s: RelayState, t: RelayState)
    requires
        relay_wf(s),
        same_links(s.connections, t.connections),
        same_pairings(s.sessions, t.sessions),
        t.next_handle == s.next_handle,
    ensures
        relay_wf(t),
{
    lemma_same_connections(s.connections, t.connections, s.next_handle);
    assert forall|a: int, b: int| 0 <= a < b < t.sessions.len() implies (#[trigger] t.sessions[a]).id != (
    #[trigger] t.sessions[b]).id && t.sessions[a].hid_client_id@ != t.sessions[b].hid_client_id@ by {
        assert(s.sessions[a].id != s.sessions[b].id);
    }
    assert forall|i: int| 0 <= i < t.connections.len() && (#[trigger] t.connections[i]).session is Some implies has_id(
        t.sessions,
        t.connections[i].session->0,
    ) by {
        assert(s.connections[i].session is Some);
        let k = index_of(s.sessions, s.connections[i].session->0);
        assert(t.sessions[k].id == s.sessions[k].id);
    }
    assert forall|k: int| 0 <= k < t.sessions.len() implies has_peer(
        t.connections,
        Role::Target,
        (#[trigger] t.sessions[k]).id,
    ) && has_peer(t.connections, Role::Controller, t.sessions[k].id) by {
        let sid = s.sessions[k].id;
        let a = peer_index(s.connections, Role::Target, sid);
        assert(linked(t.connections[a], Role::Target, sid));
        let b = peer_index(s.connections, Role::Controller, sid);
        assert(linked(t.connections[b], Role::Controller, sid));
    }
    assert forall|i: int, j: int|
        0 <= i < j < t.connections.len() && (#[trigger] t.connections[i]).session is Some
            && t.connections[i].session == (#[trigger] t.connections[j]).session implies t.connections[i].role
        != t.connections[j].role by {
        assert(s.connections[i].session == s.connections[j].session);
    }
    assert forall|i: int, k: int|
        0 <= i < t.connections.len() && 0 <= k < t.sessions.len() && linked(
            #[trigger] t.connections[i],
            Role::Target,
            (#[trigger] t.sessions[k]).id,
        ) implies t.connections[i].declared_id == t.sessions[k].hid_client_id@ by {
        assert(linked(s.connections[i], Role::Target, s.sessions[k].id));
    }
}

/// A connection that has just registered fits into the state as it is.
pub proof fn lemma_enrolled(s: RelayState, role: Role, name: Seq<char>)
    requires
        relay_wf(s),
        s.next_handle < u64::MAX,
        role == Role::Target ==> !has_target(s.connections, name),
    ensures
        relay_wf(
            RelayState {
                connections: s.connections.push(fresh_record(ConnectionId(s.next_handle), role, name)),
                next_handle: (s.next_handle + 1) as u64,
                ..s
            },
        ),
{
    let reg = s.connections;
    let rec = fresh_record(ConnectionId(s.next_handle), role, name);
    let t = reg.push(rec);
    assert forall|i: int, j: int|
        0 <= i < j < t.len() && (#[trigger] t[i]).role == Role::Target && (#[trigger] t[j]).role
            == Role::Target implies t[i].declared_id != t[j].declared_id by {
        if j == t.len() - 1 {
            assert(!is_target_named(reg[i], name));
        } else {
            assert(t[i] == reg[i] && t[j] == reg[j]);
        }
    }
    assert forall|k: int| 0 <= k < s.sessions.len() implies has_peer(
        t,
        Role::Target,
        (#[trigger] s.sessions[k]).id,
    ) && has_peer(t, Role::Controller, s.sessions[k].id) by {
        let sid = s.sessions[k].id;
        let a = peer_index(reg, Role::Target, sid);
        assert(linked(t[a], Role::Target, sid));
        let b = peer_index(reg, Role::Controller, sid);
        assert(linked(t[b], Role::Controller, sid));
    }
    assert forall|i: int, j: int|
        0 <= i < j < t.len() && (#[trigger] t[i]).session is Some && t[i].session == (#[trigger] t[j]).session implies t[i].role
        != t[j].role by {
        assert(t[i] == reg[i]);
        if j < reg.len() {
            assert(t[j] == reg[j]);
        }
    }
    assert forall|i: int| 0 <= i < t.len() && (#[trigger] t[i]).session is Some implies has_id(
        s.sessions,
        t[i].session->0,
    ) by {
        assert(t[i] == reg[i]);
    }
    assert forall|i: int, k: int|
        0 <= i < t.len() && 0 <= k < s.sessions.len() && linked(
            #[trigger] t[i],
            Role::Target,
            (#[trigger] s.sessions[k]).id,
        ) implies t[i].declared_id == s.sessions[k].hid_client_id@ by {
        assert(t[i] == reg[i]);
    }
}

/// The end of a session keeps the invariant: the session leaves the table,
/// and its connections are unpaired.
pub proof fn lemma_torn_down(s: RelayState, sid: SessionId, reason: EndReason, quiet: Option<ConnectionId>)
    requires
        relay_wf(s),
    ensures
        relay_wf(
            RelayState {
                connections: torn_down(s.connections, sid, reason, quiet),
                sessions: without_id(s.sessions, sid),
                ..s
            },
        ),
{
    let reg = s.connections;
    let sess = s.sessions;
    let reg2 = torn_down(reg, sid, reason, quiet);
    let sess2 = without_id(sess, sid);
    lemma_without_id(sess, sid);
    lemma_same_connections(reg, reg2, s.next_handle);
    if !has_id(sess, sid) {
        assert forall|i: int| 0 <= i < reg.len() implies reg2[i] == reg[i] by {
            if reg[i].session == Some(sid) {
                assert(reg[i].session is Some);
            }
        }
        assert(reg2 =~= reg);
    } else {
        let p = index_of(sess, sid);
        assert(sess2 == sess.remove(p));
        assert forall|i: int| 0 <= i < reg2.len() && (#[trigger] reg2[i]).session is Some implies has_id(
            sess2,
            reg2[i].session->0,
        ) by {
            assert(reg[i].session is Some);
            let x = reg[i].session->0;
            let k = index_of(sess, x);
            let k2 = if k < p { k } else { k - 1 };
            assert(sess2[k2] == sess[k]);
        }
        assert forall|k2: int| 0 <= k2 < sess2.len() implies has_peer(
            reg2,
            Role::Target,
            (#[trigger] sess2[k2]).id,
        ) && has_peer(reg2, Role::Controller, sess2[k2].id) by {
            let k = if k2 < p { k2 } else { k2 + 1 };
            assert(sess2[k2] == sess[k]);
            let y = sess[k].id;
            assert(y != sid);
            let a = peer_index(reg, Role::Target, y);
            assert(linked(reg[a], Role::Target, y));
            assert(linked(reg2[a], Role::Target, y));
            let b = peer_index(reg, Role::Controller, y);
            assert(linked(reg[b], Role::Controller, y));
            assert(linked(reg2[b], Role::Controller, y));
        }
        assert forall|i: int, j: int|
            0 <= i < j < reg2.len() && (#[trigger] reg2[i]).session is Some && reg2[i].session == (
            #[trigger] reg2[j]).session implies reg2[i].role != reg2[j].role by {
            assert(reg[i].session == reg[j].session);
        }
        assert forall|i: int, k2: int|
            0 <= i < reg2.len() && 0 <= k2 < sess2.len() && linked(
                #[trigger] reg2[i],
                Role::Target,
                (#[trigger] sess2[k2]).id,
            ) implies reg2[i].declared_id == sess2[k2].hid_client_id@ by {
            let k = if k2 < p { k2 } else { k2 + 1 };
            assert(sess2[k2] == sess[k]);
            assert(linked(reg[i], Role::Target, sess[k].id));
        }
    }
}

/// A connection that is not paired can go without a trace.
pub proof fn lemma_unpaired_removed(s: RelayState, handle: ConnectionId)
    requires
        relay_wf(s),
        has_handle(s.connections, handle),
        s.connections[handle_index(s.connections, handle)].session is None,
    ensures
        relay_wf(RelayState { connections: without_handle(s.connections, handle), ..s }),
{
    let reg = s.connections;
    let sess = s.sessions;
    let p = handle_index(reg, handle);
    let reg2 = reg.remove(p);
    lemma_without_handle(reg, s.next_handle, handle);
    assert forall|i: int| 0 <= i < reg2.len() && (#[trigger] reg2[i]).session is Some implies has_id(
        sess,
        reg2[i].session->0,
    ) by {
        let i0 = if i < p { i } else { i + 1 };
        assert(reg2[i] == reg[i0]);
    }
    assert forall|k: int| 0 <= k < sess.len() implies has_peer(reg2, Role::Target, (#[trigger] sess[k]).id)
        && has_peer(reg2, Role::Controller, sess[k].id) by {
        let y = sess[k].id;
        let a = peer_index(reg, Role::Target, y);
        assert(linked(reg[a], Role::Target, y));
        let a2 = if a < p { a } else { a - 1 };
        assert(reg2[a2] == reg[a]);
        assert(linked(reg2[a2], Role::Target, y));
        let b = peer_index(reg, Role::Controller, y);
        assert(linked(reg[b], Role::Controller, y));
        let b2 = if b < p { b } else { b - 1 };
        assert(reg2[b2] == reg[b]);
        assert(linked(reg2[b2], Role::Controller, y));
    }
    assert forall|i: int, j: int|
        0 <= i < j < reg2.len() && (#[trigger] reg2[i]).session is Some && reg2[i].session == (
        #[trigger] reg2[j]).session implies reg2[i].role != reg2[j].role by {
        let i0 = if i < p { i } else { i + 1 };
        let j0 = if j < p { j } else { j + 1 };
        assert(reg2[i] == reg[i0] && reg2[j] == reg[j0]);
    }
    assert forall|i: int, k: int|
        0 <= i < reg2.len() && 0 <= k < sess.len() && linked(
            #[trigger] reg2[i],
            Role::Target,
            (#[trigger] sess[k]).id,
        ) implies reg2[i].declared_id == sess[k].hid_client_id@ by {
        let i0 = if i < p { i } else { i + 1 };
        assert(reg2[i] == reg[i0]);
    }
}

/// Closing a connection keeps the invariant, and the handle is gone afterwards.
pub proof fn lemma_closed(s: RelayState, handle: ConnectionId, reason: EndReason)
    requires
        relay_wf(s),
    ensures
        relay_wf(closed(s, handle, reason)),
        !has_handle(closed(s, handle, reason).connections, handle),
{
    if has_handle(s.connections, handle) {
        let p = handle_index(s.connections, handle);
        match s.connections[p].session {
            None => {
                lemma_unpaired_removed(s, handle);
                lemma_without_handle(s.connections, s.next_handle, handle);
            },
            Some(sid) => {
                let torn = torn_down(s.connections, sid, reason, Some(handle));
                let mid = RelayState { connections: torn, sessions: without_id(s.sessions, sid), ..s };
                lemma_torn_down(s, sid, reason, Some(handle));
                lemma_same_connections(s.connections, torn, s.next_handle);
                assert(has_handle(torn, handle));
                assert(handle_index(torn, handle) == p);
                assert(torn[p].session is None);
                lemma_unpaired_removed(mid, handle);
                lemma_without_handle(torn, s.next_handle, handle);
            },
        }
    }
}

/// A sweep keeps the invariant.
pub proof fn lemma_swept(s: RelayState, now: Timestamp, timeout_mins: u64)
    requires
        relay_wf(s),
    ensures
        relay_wf(swept_state(s, now, timeout_mins)),
{
    let reg = s.connections;
    let sess = s.sessions;
    let reg2 = swept(reg, sess, now, timeout_mins);
    let sess2 = live_part(sess, now, timeout_mins);
    lemma_live_part(sess, now, timeout_mins);
    lemma_same_connections(reg, reg2, s.next_handle);
    assert forall|i: int| 0 <= i < reg2.len() && (#[trigger] reg2[i]).session is Some implies has_id(
        sess2,
        reg2[i].session->0,
    ) by {
        assert(!link_expired(reg[i], sess, now, timeout_mins));
        assert(reg[i].session is Some);
        let x = reg[i].session->0;
        let k = index_of(sess, x);
        assert(sess2.contains(sess[k]));
        let k2 = choose|k2: int| 0 <= k2 < sess2.len() && sess2[k2] == sess[k];
        assert(sess2[k2].id == x);
    }
    assert forall|k2: int| 0 <= k2 < sess2.len() implies has_peer(reg2, Role::Target, (#[trigger] sess2[k2]).id)
        && has_peer(reg2, Role::Controller, sess2[k2].id) by {
        assert(sess.contains(sess2[k2]));
        let k = choose|k: int| 0 <= k < sess.len() && sess[k] == sess2[k2];
        lemma_position_unique(sess, k);
        let y = sess[k].id;
        let a = peer_index(reg, Role::Target, y);
        assert(linked(reg[a], Role::Target, y));
        assert(!link_expired(reg[a], sess, now, timeout_mins));
        assert(linked(reg2[a], Role::Target, y));
        let b = peer_index(reg, Role::Controller, y);
        assert(linked(reg[b], Role::Controller, y));
        assert(!link_expired(reg[b], sess, now, timeout_mins));
        assert(linked(reg2[b], Role::Controller, y));
    }
    assert forall|i: int, j: int|
        0 <= i < j < reg2.len() && (#[trigger] reg2[i]).session is Some && reg2[i].session == (
        #[trigger] reg2[j]).session implies reg2[i].role != reg2[j].role by {
        assert(reg[i].session == reg[j].session);
    }
    assert forall|i: int, k2: int|
        0 <= i < reg2.len() && 0 <= k2 < sess2.len() && linked(
            #[trigger] reg2[i],
            Role::Target,
            (#[trigger] sess2[k2]).id,
        ) implies reg2[i].declared_id == sess2[k2].hid_client_id@ by {
        assert(sess.contains(sess2[k2]));
        let k = choose|k: int| 0 <= k < sess.len() && sess[k] == sess2[k2];
        assert(linked(reg[i], Role::Target, sess[k].id));
    }
}

/// Handing a message on keeps the invariant and touches nothing but the
/// peer's queue and the session's clock.
pub proof fn lemma_forwarded(s: RelayState, handle: ConnectionId, message: Message, now: Timestamp)
    requires
        relay_wf(s),
    ensures
        relay_wf(forwarded(s, handle, message, now)),
        same_links(s.connections, forwarded(s, handle, message, now).connections),
        same_pairings(s.sessions, forwarded(s, handle, message, now).sessions),
{
    let t = forwarded(s, handle, message, now);
    if t != s {
        let me = s.connections[handle_index(s.connections, handle)];
        let sid = me.session->0;
        lemma_with_activity(s.sessions, sid, now);
    }
    lemma_queues_and_clocks(s, t);
}

/// Why a pairing of a controller with the target named `target` would be
/// refused in state `s`, if it would: the target must be registered, must not
/// be paired, and the identifier `id` must be free. The three are tested in
/// this order.
pub open spec fn pairing_verdict(s: RelayState, target: Seq<char>, id: SessionId) -> Option<PairingError> {
    if !has_target(s.connections, target) {
        Some(PairingError::TargetNotFound)
    } else if target_paired(s.sessions, target) {
        Some(PairingError::TargetAlreadyPaired)
    } else if has_id(s.sessions, id) {
        Some(PairingError::IdCollision)
    } else {
        None
    }
}

/// The record of a controller that registers and is paired in one step.
pub open spec fn paired_controller(handle: ConnectionId, name: Seq<char>, id: SessionId) -> ConnectionView {
    ConnectionView { session: Some(id), ..fresh_record(handle, Role::Controller, name) }
}

/// The state after a controller named `commander` has been registered and
/// paired with the target named `target` in session `id` at `now`.
pub open spec fn paired_state(s: RelayState, commander: String, target: String, id: SessionId, now: Timestamp) -> RelayState {
    let t = target_index(s.connections, target@);
    RelayState {
        connections: s.connections.update(
            t,
            ConnectionView { session: Some(id), ..s.connections[t] },
        ).push(paired_controller(ConnectionId(s.next_handle), commander@, id)),
        next_handle: (s.next_handle + 1) as u64,
        sessions: s.sessions.push(opened(id, commander, target, now)),
    }
}

/// A pairing that is not refused keeps the invariant.
pub proof fn lemma_paired(s: RelayState, commander: String, target: String, id: SessionId, now: Timestamp)
    requires
        relay_wf(s),
        s.next_handle < u64::MAX,
        pairing_verdict(s, target@, id) is None,
    ensures
        relay_wf(paired_state(s, commander, target, id, now)),
{
    let reg = s.connections;
    let sess = s.sessions;
    let t = target_index(reg, target@);
    assert(0 <= t < reg.len() && is_target_named(reg[t], target@));
    let after = paired_state(s, commander, target, id, now);
    let reg2 = after.connections;
    let sess2 = after.sessions;
    let c = reg.len() as int;
    // The target was not paired before.
    if reg[t].session is Some {
        let x = reg[t].session->0;
        let k = index_of(sess, x);
        assert(linked(reg[t], Role::Target, sess[k].id));
        assert(sess[k].hid_client_id@ == target@);
        assert(false);
    }
    // No connection points at the new session yet.
    assert forall|i: int| 0 <= i < reg.len() implies (#[trigger] reg[i]).session != Some(id) by {
        if reg[i].session == Some(id) {
            assert(reg[i].session is Some);
        }
    }
    assert forall|i: int| 0 <= i < reg2.len() implies (#[trigger] reg2[i]).id.0 < after.next_handle by {
        if i < c {
            assert(reg2[i].id == reg[i].id);
        }
    }
    assert forall|i: int, j: int| 0 <= i < j < reg2.len() implies (#[trigger] reg2[i]).id != (
    #[trigger] reg2[j]).id && (reg2[i].role == Role::Target && reg2[j].role == Role::Target
        ==> reg2[i].declared_id != reg2[j].declared_id) by {
        assert(reg2[i].id == reg[i].id && reg2[i].role == reg[i].role && reg2[i].declared_id
            == reg[i].declared_id);
        if j < c {
            assert(reg2[j].id == reg[j].id && reg2[j].role == reg[j].role && reg2[j].declared_id
                == reg[j].declared_id);
        }
    }
    assert forall|a: int, b: int| 0 <= a < b < sess2.len() implies (#[trigger] sess2[a]).id != (
    #[trigger] sess2[b]).id && sess2[a].hid_client_id@ != sess2[b].hid_client_id@ by {
        assert(sess2[a] == sess[a]);
        if b < sess.len() {
            assert(sess2[b] == sess[b]);
        }
    }
    assert forall|i: int| 0 <= i < reg2.len() && (#[trigger] reg2[i]).session is Some implies has_id(
        sess2,
        reg2[i].session->0,
    ) by {
        if i == c || i == t {
            assert(sess2[sess.len() as int].id == id);
        } else {
            assert(reg2[i] == reg[i]);
            let k = index_of(sess, reg[i].session->0);
            assert(sess2[k] == sess[k]);
        }
    }
    assert forall|k: int| 0 <= k < sess2.len() implies has_peer(reg2, Role::Target, (#[trigger] sess2[k]).id)
        && has_peer(reg2, Role::Controller, sess2[k].id) by {
        if k == sess.len() {
            assert(linked(reg2[t], Role::Target, id));
            assert(linked(reg2[c], Role::Controller, id));
        } else {
            assert(sess2[k] == sess[k]);
            let y = sess[k].id;
            let a = peer_index(reg, Role::Target, y);
            assert(linked(reg[a], Role::Target, y));
            assert(reg2[a] == reg[a]);
            assert(linked(reg2[a], Role::Target, y));
            let b = peer_index(reg, Role::Controller, y);
            assert(linked(reg[b], Role::Controller, y));
            assert(reg2[b] == reg[b]);
            assert(linked(reg2[b], Role::Controller, y));
        }
    }
    assert forall|i: int, j: int|
        0 <= i < j < reg2.len() && (#[trigger] reg2[i]).session is Some && reg2[i].session == (
        #[trigger] reg2[j]).session implies reg2[i].role != reg2[j].role by {
        if reg2[i].session == Some(id) {
            assert(i == t);
            assert(j == c);
        } else {
            assert(reg2[i] == reg[i]);
            assert(reg2[j] == reg[j]);
        }
    }
    assert forall|i: int, k: int|
        0 <= i < reg2.len() && 0 <= k < sess2.len() && linked(
            #[trigger] reg2[i],
            Role::Target,
            (#[trigger] sess2[k]).id,
        ) implies reg2[i].declared_id == sess2[k].hid_client_id@ by {
        if k == sess.len() {
            assert(i == t);
        } else {
            assert(sess2[k] == sess[k]);
            assert(sess[k].id != id);
            assert(reg2[i] == reg[i]);
        }
    }
}

/// Why a handshake was refused.
#[derive(Clone, Copy, Debug, PartialEq, Eq, Structural)]
pub enum Refusal {
    /// The authenticator did not accept the connection.
    Unauthorized,
    /// The first frame was no registration request.
    NotARegistration,
    /// The target name is held by a live connection.
    AlreadyRegistered,
    /// The controller could not be paired.
    Pairing(PairingError),
}

/// The code by which a connection is told why its handshake was refused.
pub open spec fn refusal_code(refusal: Refusal) -> Seq<char> {
    match refusal {
        Refusal::Unauthorized => "UNAUTHORIZED"@,
        Refusal::NotARegistration => "NOT_A_REGISTRATION"@,
        Refusal::AlreadyRegistered => "ALREADY_REGISTERED"@,
        Refusal::Pairing(PairingError::TargetNotFound) => "TARGET_NOT_FOUND"@,
        Refusal::Pairing(PairingError::TargetAlreadyPaired) => "TARGET_ALREADY_PAIRED"@,
        Refusal::Pairing(PairingError::IdCollision) => "ID_COLLISION"@,
    }
}

/// The refusal in words.
pub open spec fn refusal_text(refusal: Refusal) -> Seq<char> {
    match refusal {
        Refusal::Unauthorized => "the connection is not authorized"@,
        Refusal::NotARegistration => "the first message must be a registration request"@,
        Refusal::AlreadyRegistered => "a live connection is registered under this target name"@,
        Refusal::Pairing(PairingError::TargetNotFound) => "no target is registered under this name"@,
        Refusal::Pairing(PairingError::TargetAlreadyPaired) => "the target is already in a session"@,
        Refusal::Pairing(PairingError::IdCollision) => "the session identifier is in use"@,
    }
}

/// Whether `message` tells of `refusal` at `now`: an error status outside
/// any session, with the refusal's code and words.
pub open spec fn is_refusal_message(refusal: Refusal, now: Timestamp, message: Message) -> bool {
    &&& message.message_type == MessageType::Status
    &&& message.session_id == None::<SessionId>
    &&& message.timestamp == now
    &&& message.payload matches MessagePayload::Status(StatusMessage::Error { error_code, error_message })
    &&& error_code@ == refusal_code(refusal)
    &&& error_message@ == refusal_text(refusal)
}

impl Refusal {
    /// The code of the refusal.
    pub fn code(&self) -> (code: String)
        ensures
            code@ == refusal_code(*self),
    {
        match self {
            Refusal::Unauthorized => "UNAUTHORIZED".to_owned(),
            Refusal::NotARegistration => "NOT_A_REGISTRATION".to_owned(),
            Refusal::AlreadyRegistered => "ALREADY_REGISTERED".to_owned(),
            Refusal::Pairing(PairingError::TargetNotFound) => "TARGET_NOT_FOUND".to_owned(),
            Refusal::Pairing(PairingError::TargetAlreadyPaired) => "TARGET_ALREADY_PAIRED".to_owned(),
            Refusal::Pairing(PairingError::IdCollision) => "ID_COLLISION".to_owned(),
        }
    }

    /// The refusal in words.
    pub fn text(&self) -> (text: String)
        ensures
            text@ == refusal_text(*self),
    {
        match self {
            Refusal::Unauthorized => "the connection is not authorized".to_owned(),
            Refusal::NotARegistration => "the first message must be a registration request".to_owned(),
            Refusal::AlreadyRegistered => "a live connection is registered under this target name".to_owned(),
            Refusal::Pairing(PairingError::TargetNotFound) => "no target is registered under this name".to_owned(),
            Refusal::Pairing(PairingError::TargetAlreadyPaired) => "the target is already in a session".to_owned(),
            Refusal::Pairing(PairingError::IdCollision) => "the session identifier is in use".to_owned(),
        }
    }

    /// The message that tells the connection of the refusal, stamped `now`.
    pub fn to_message(&self, now: Timestamp) -> (message: Message)
        ensures
            is_refusal_message(*self, now, message),
            message.consistent(),
    {
        Message::stamped(
            MessageType::Status,
            None,
            now,
            MessagePayload::Status(
                StatusMessage::Error { error_code: self.code(), error_message: self.text() },
            ),
        )
    }
}

/// How a handshake ended.
#[derive(Clone, Copy, Debug, PartialEq, Eq, Structural)]
pub enum Handshake {
    /// The connection is registered as a target.
    Target { connection: ConnectionId },
    /// The connection is registered as a controller and paired.
    Controller { connection: ConnectionId, session_id: SessionId },
    /// The connection is closed without registration.
    Refused(Refusal),
}

/// The registration request that a first frame carries, if it carries one:
/// a consistent session-control message that either creates a target under
/// a name that is not empty, or joins a target.
pub open spec fn registration_of(first: Frame) -> Option<SessionControlMessage> {
    match first {
        Frame::Text(Some(message)) => match message.payload {
            MessagePayload::SessionControl(control) => if message.consistent() && (control is JoinSession || (
            control matches SessionControlMessage::CreateSession { client_id, .. } && client_id@.len()
                > 0)) {
                Some(control)
            } else {
                None
            },
            _ => None,
        },
        _ => None,
    }
}

/// The identifiers of `sessions`, in their order.
pub open spec fn ids_of(sessions: Seq<Session>) -> Seq<SessionId> {
    Seq::new(sessions.len(), |k: int| sessions[k].id)
}

/// Whether `handle` is registered in `s` in the role `role`.
pub open spec fn registered_as(s: RelayState, role: Role, handle: ConnectionId) -> bool {
    has_handle(s.connections, handle) && s.connections[handle_index(s.connections, handle)].role == role
}

/// The session that `handle` takes part in, if it is registered and paired.
pub open spec fn session_link(s: RelayState, handle: ConnectionId) -> Option<SessionId> {
    if has_handle(s.connections, handle) {
        s.connections[handle_index(s.connections, handle)].session
    } else {
        None
    }
}

/// The state after `frame` has come in at `now` on what the caller takes for
/// a connection of role `role`: a handle that is not registered in that role
/// changes nothing.
pub open spec fn served_as(s: RelayState, role: Role, handle: ConnectionId, frame: Frame, now: Timestamp) -> RelayState {
    if registered_as(s, role, handle) {
        served(s, handle, frame, now)
    } else {
        s
    }
}

/// Whether the receive loop stops after `frame`, for what the caller takes
/// for a connection of role `role`.
pub open spec fn stops_as(s: RelayState, role: Role, handle: ConnectionId, frame: Frame) -> bool {
    !registered_as(s, role, handle) || stops(s, handle, frame)
}

/// How the handshake of a connection ends whose first frame is `first`.
pub open spec fn handshake_result(s: RelayState, first: Frame, authorized: bool, id: SessionId) -> Handshake {
    if !authorized {
        Handshake::Refused(Refusal::Unauthorized)
    } else {
        match registration_of(first) {
            Some(SessionControlMessage::CreateSession { client_id, .. }) => if has_target(
                s.connections,
                client_id@,
            ) {
                Handshake::Refused(Refusal::AlreadyRegistered)
            } else {
                Handshake::Target { connection: ConnectionId(s.next_handle) }
            },
            Some(SessionControlMessage::JoinSession { target_client_id }) => match pairing_verdict(
                s,
                target_client_id@,
                id,
            ) {
                Some(e) => Handshake::Refused(Refusal::Pairing(e)),
                None => Handshake::Controller { connection: ConnectionId(s.next_handle), session_id: id },
            },
            _ => Handshake::Refused(Refusal::NotARegistration),
        }
    }
}

/// The state after the handshake of the connection labelled `peer`, whose
/// first frame is `first`. A handshake that is refused changes nothing.
pub open spec fn handshake_state(
    s: RelayState,
    peer: String,
    first: Frame,
    authorized: bool,
    id: SessionId,
    now: Timestamp,
) -> RelayState {
    match handshake_result(s, first, authorized, id) {
        Handshake::Refused(_) => s,
        Handshake::Target { .. } => target_registered(
            s,
            registration_of(first)->0->CreateSession_client_id@,
        ),
        Handshake::Controller { .. } => paired_state(
            s,
            peer,
            registration_of(first)->0->JoinSession_target_client_id,
            id,
            now,
        ),
    }
}

/// The state after a target has registered under `name`.
pub open spec fn target_registered(s: RelayState, name: Seq<char>) -> RelayState {
    RelayState {
        connections: s.connections.push(fresh_record(ConnectionId(s.next_handle), Role::Target, name)),
        next_handle: (s.next_handle + 1) as u64,
        ..s
    }
}

/// What a target that asks to register under `name` is answered in state
/// `s`: its new handle, or the refusal where a live target holds the name.
pub open spec fn registration_answer(s: RelayState, name: Seq<char>) -> Result<ConnectionId, AlreadyRegistered> {
    if has_target(s.connections, name) {
        Err(AlreadyRegistered)
    } else {
        Ok(ConnectionId(s.next_handle))
    }
}

/// The state after a target has asked to register under `name`: a refused
/// registration changes nothing.
pub open spec fn after_registration(s: RelayState, name: Seq<char>) -> RelayState {
    if has_target(s.connections, name) {
        s
    } else {
        target_registered(s, name)
    }
}

/// The state after a controller has registered under the label `name`.
pub open spec fn controller_registered(s: RelayState, name: Seq<char>) -> RelayState {
    RelayState {
        connections: s.connections.push(
            fresh_record(ConnectionId(s.next_handle), Role::Controller, name),
        ),
        next_handle: (s.next_handle + 1) as u64,
        ..s
    }
}

/// The relay engine.
pub struct SessionServer {
    config: Config,
    registry: ConnectionRegistry,
    sessions: SessionManager,
}

impl View for SessionServer {
    type V = RelayState;

    closed spec fn view(&self) -> RelayState {
        RelayState {
            connections: self.registry@,
            next_handle: self.registry.next_handle(),
            sessions: self.sessions@,
        }
    }
}

/// The other role.
fn other_role(role: Role) -> (r: Role)
    ensures
        r == opposite(role),
{
    match role {
        Role::Target => Role::Controller,
        Role::Controller => Role::Target,
    }
}

/// Whether the relay hands a message with this payload on when a connection
/// of role `role` sends it.
fn is_forwardable(role: Role, payload: &MessagePayload) -> (b: bool)
    ensures
        b == forwardable(role, *payload),
{
    match payload {
        MessagePayload::HidEvent(_) => true,
        MessagePayload::Status(_) => true,
        MessagePayload::SessionControl(control) => match control {
            SessionControlMessage::CreateSession { .. } => false,
            SessionControlMessage::JoinSession { .. } => false,
            SessionControlMessage::EndSession => false,
            _ => role == Role::Controller,
        },
        MessagePayload::Auth(_) => false,
    }
}

/// Whether `message` asks to end the sender's session.
fn is_end_request(message: &Message) -> (b: bool)
    ensures
        b == asks_to_end(*message),
{
    match &message.payload {
        MessagePayload::SessionControl(control) => match control {
            SessionControlMessage::EndSession => true,
            _ => false,
        },
        _ => false,
    }
}

impl SessionServer {
    /// The settings that the engine was made with.
    pub closed spec fn settings(&self) -> Config {
        self.config
    }

    /// The engine's invariant: `new` establishes it and every method keeps it.
    pub open spec fn wf(&self) -> bool {
        relay_wf(self@)
    }

    /// Whether a handle is left for one more connection.
    pub open spec fn has_room(&self) -> bool {
        self@.next_handle < u64::MAX
    }

    /// An engine without connections or sessions.
    pub fn new(config: Config) -> (server: SessionServer)
        ensures
            server.wf(),
            server.has_room(),
            server.settings() == config,
            server@.connections == Seq::<ConnectionView>::empty(),
            server@.sessions == Seq::<Session>::empty(),
            server@.next_handle == 0,
    {
        SessionServer { config, registry: ConnectionRegistry::new(), sessions: SessionManager::new() }
    }

    /// The settings that the engine was made with.
    pub fn config(&self) -> (config: &Config)
        ensures
            *config == self.settings(),
    {
        &self.config
    }

    /// The registry of live connections, to read.
    pub fn registry(&self) -> (registry: &ConnectionRegistry)
        requires
            self.wf(),
        ensures
            registry.wf(),
            registry@ == self@.connections,
            registry.next_handle() == self@.next_handle,
    {
        &self.registry
    }

    /// The table of active sessions, to read.
    pub fn sessions(&self) -> (sessions: &SessionManager)
        requires
            self.wf(),
        ensures
            sessions.wf(),
            sessions@ == self@.sessions,
    {
        &self.sessions
    }

    /// Whether a handle is left for one more connection.
    pub fn can_accept(&self) -> (b: bool)
        ensures
            b == self.has_room(),
    {
        self.registry.can_register()
    }

    /// Registers a target under the name `client_id`. A name that a live
    /// target holds is refused, and nothing changes; a handle must be left
    /// only where the name is free.
    pub fn register_hid_client(&mut self, client_id: String) -> (r: Result<ConnectionId, AlreadyRegistered>)
        requires
            old(self).wf(),
            !has_target(old(self)@.connections, client_id@) ==> old(self).has_room(),
        ensures
            final(self).wf(),
            final(self).settings() == old(self).settings(),
            r == registration_answer(old(self)@, client_id@),
            final(self)@ == after_registration(old(self)@, client_id@),
    {
        proof {
            if !has_target(self@.connections, client_id@) {
                lemma_enrolled(self@, Role::Target, client_id@);
            }
        }
        self.registry.register_target(client_id)
    }

    /// Registers a controller under the label `commander_id`.
    pub fn register_commander(&mut self, commander_id: String) -> (handle: ConnectionId)
        requires
            old(self).wf(),
            old(self).has_room(),
        ensures
            final(self).wf(),
            final(self).settings() == old(self).settings(),
            handle == ConnectionId(old(self)@.next_handle),
            final(self)@ == controller_registered(old(self)@, commander_id@),
    {
        proof {
            lemma_enrolled(self@, Role::Controller, commander_id@);
        }
        self.registry.register_controller(commander_id)
    }

    /// Registers a controller under the label `commander_id` and pairs it
    /// with the target named `target_id` in a session with identifier `id`
    /// that starts at `now`, all in one step. A refused pairing leaves no
    /// trace: the controller is not registered either, and no handle need be
    /// left for it.
    pub fn create_pairing(
        &mut self,
        commander_id: String,
        target_id: String,
        id: SessionId,
        now: Timestamp,
    ) -> (r: Result<(ConnectionId, SessionId), PairingError>)
        requires
            old(self).wf(),
            pairing_verdict(old(self)@, target_id@, id) is None ==> old(self).has_room(),
        ensures
            final(self).wf(),
            final(self).settings() == old(self).settings(),
            pairing_verdict(old(self)@, target_id@, id) matches Some(e) ==> r == Err::<
                (ConnectionId, SessionId),
                PairingError,
            >(e) && final(self)@ == old(self)@,
            pairing_verdict(old(self)@, target_id@, id) is None ==> r == Ok::<
                (ConnectionId, SessionId),
                PairingError,
            >((ConnectionId(old(self)@.next_handle), id)) && final(self)@ == paired_state(
                old(self)@,
                commander_id,
                target_id,
                id,
                now,
            ),
    {
        let target = match self.registry.lookup(target_id.as_str()) {
            Some(handle) => handle,
            None => {
                return Err(PairingError::TargetNotFound);
            },
        };
        let label = commander_id.clone();
        match self.sessions.create_session_with(id, commander_id, target_id, now) {
            Err(e) => Err(e),
            Ok(_) => {
                let ghost reg0 = self.registry@;
                let ghost t = target_index(reg0, target_id@);
                let controller = self.registry.register_controller(label);
                let ghost reg1 = self.registry@;
                proof {
                    lemma_record_unique(reg1, self.registry.next_handle(), reg0.len() as int);
                }
                self.registry.set_session(controller, Some(id));
                let ghost reg2 = self.registry@;
                proof {
                    lemma_same_connections(reg1, reg2, self.registry.next_handle());
                    assert(reg2[t].id == target);
                    lemma_record_unique(reg2, self.registry.next_handle(), t);
                }
                self.registry.set_session(target, Some(id));
                proof {
                    assert(self@.connections =~= paired_state(
                        old(self)@,
                        commander_id,
                        target_id,
                        id,
                        now,
                    ).connections);
                    lemma_paired(old(self)@, commander_id, target_id, id, now);
                }
                Ok((controller, id))
            },
        }
    }

    /// Decides the handshake of a new connection from its first frame.
    ///
    /// `peer` labels the connection, `authorized` is the authenticator's
    /// verdict (`true` where authentication is switched off), `id` is a
    /// fresh identifier for the session that a controller may start, and
    /// `now` is the current instant. A connection that is not authorized is
    /// refused before anything else is looked at. The first frame must carry
    /// a registration request: a target is registered under its name, a
    /// controller is registered and paired with the target it names. Every
    /// refusal leaves the state as it was, and is answered whether or not a
    /// handle is left; a handle must be left only where the handshake ends
    /// in a registration.
    pub fn handle_connection(
        &mut self,
        peer: String,
        first: Frame,
        authorized: bool,
        id: SessionId,
        now: Timestamp,
    ) -> (r: Handshake)
        requires
            old(self).wf(),
            !(handshake_result(old(self)@, first, authorized, id) is Refused) ==> old(self).has_room(),
        ensures
            final(self).wf(),
            final(self).settings() == old(self).settings(),
            r == handshake_result(old(self)@, first, authorized, id),
            final(self)@ == handshake_state(old(self)@, peer, first, authorized, id, now),
    {
        if !authorized {
            return Handshake::Refused(Refusal::Unauthorized);
        }
        let message = match first {
            Frame::Text(Some(message)) => message,
            _ => {
                return Handshake::Refused(Refusal::NotARegistration);
            },
        };
        if !message.is_consistent() {
            return Handshake::Refused(Refusal::NotARegistration);
        }
        match message.payload {
            MessagePayload::SessionControl(SessionControlMessage::CreateSession { client_id, client_name }) => {
                if client_id.as_str().is_empty() {
                    return Handshake::Refused(Refusal::NotARegistration);
                }
                match self.register_hid_client(client_id) {
                    Ok(connection) => Handshake::Target { connection },
                    Err(_) => Handshake::Refused(Refusal::AlreadyRegistered),
                }
            },
            MessagePayload::SessionControl(SessionControlMessage::JoinSession { target_client_id }) => {
                match self.create_pairing(peer, target_client_id, id, now) {
                    Ok((connection, session_id)) => Handshake::Controller { connection, session_id },
                    Err(e) => Handshake::Refused(Refusal::Pairing(e)),
                }
            },
            _ => Handshake::Refused(Refusal::NotARegistration),
        }
    }

    /// Takes connection `connection` out of the relay; `reason` is what its
    /// peer is told if it had one.
    fn close(&mut self, connection: ConnectionId, reason: EndReason)
        requires
            old(self).wf(),
        ensures
            final(self).wf(),
            final(self).settings() == old(self).settings(),
            final(self)@ == closed(old(self)@, connection, reason),
    {
        proof {
            lemma_closed(self@, connection, reason);
        }
        let link = match self.registry.get(connection) {
            Some(record) => record.session,
            None => {
                return ;
            },
        };
        match link {
            Some(sid) => {
                self.sessions.end_session(sid);
                self.registry.close_session(sid, reason, Some(connection));
                proof {
                    lemma_same_connections(
                        old(self)@.connections,
                        self.registry@,
                        self.registry.next_handle(),
                    );
                }
                self.registry.remove(connection);
            },
            None => {
                self.registry.remove(connection);
            },
        }
    }

    /// The connection `connection` is gone: its record is removed, and if it
    /// was paired its session ends and the peer is told that its peer
    /// disconnected. A second call for the same handle changes nothing.
    pub fn disconnect(&mut self, connection: ConnectionId)
        requires
            old(self).wf(),
        ensures
            final(self).wf(),
            final(self).settings() == old(self).settings(),
            final(self)@ == closed(old(self)@, connection, EndReason::PeerDisconnected),
            !has_handle(final(self)@.connections, connection),
    {
        proof {
            lemma_closed(self@, connection, EndReason::PeerDisconnected);
        }
        self.close(connection, EndReason::PeerDisconnected);
    }

    /// Hands `message` of connection `connection` on to its peer.
    fn forward(&mut self, connection: ConnectionId, message: Message, now: Timestamp)
        requires
            old(self).wf(),
        ensures
            final(self).wf(),
            final(self).settings() == old(self).settings(),
            final(self)@ == forwarded(old(self)@, connection, message, now),
    {
        proof {
            lemma_forwarded(self@, connection, message, now);
        }
        let (role, link) = match self.registry.get(connection) {
            Some(record) => (record.role, record.session),
            None => {
                return ;
            },
        };
        let sid = match link {
            Some(sid) => sid,
            None => {
                return ;
            },
        };
        let peer = match self.registry.find_linked(other_role(role), sid) {
            Some(peer) => peer,
            None => {
                return ;
            },
        };
        proof {
            let reg = self@.connections;
            let i = choose|i: int|
                0 <= i < reg.len() && linked(#[trigger] reg[i], opposite(role), sid) && reg[i].id == peer;
            let j = peer_index(reg, opposite(role), sid);
            assert(linked(reg[j], opposite(role), sid));
            if i != j {
                if i < j {
                    assert(reg[i].role != reg[j].role);
                } else {
                    assert(reg[j].role != reg[i].role);
                }
            }
        }
        let item = Outbound::Forward(
            Message {
                message_type: message.message_type,
                session_id: Some(sid),
                timestamp: message.timestamp,
                payload: message.payload,
            },
        );
        self.registry.enqueue(peer, item);
        self.sessions.update_session_activity_at(sid, now);
    }

    /// One step of the receive loop of connection `connection`.
    fn serve(&mut self, connection: ConnectionId, frame: Frame, now: Timestamp) -> (step: Step)
        requires
            old(self).wf(),
        ensures
            final(self).wf(),
            final(self).settings() == old(self).settings(),
            final(self)@ == served(old(self)@, connection, frame, now),
            step == if stops(old(self)@, connection, frame) {
                Step::Closed
            } else {
                Step::Continue
            },
    {
        let role = match self.registry.get(connection) {
            Some(record) => record.role,
            None => {
                return Step::Closed;
            },
        };
        match frame {
            Frame::Close => {
                self.close(connection, EndReason::PeerDisconnected);
                Step::Closed
            },
            Frame::Failed => {
                self.close(connection, EndReason::PeerDisconnected);
                Step::Closed
            },
            Frame::Other => Step::Continue,
            Frame::Text(decoded) => match check_envelope(decoded) {
                Err(_) => Step::Continue,
                Ok(message) => {
                    if is_end_request(&message) {
                        self.close(connection, EndReason::EndedByPeer);
                        Step::Closed
                    } else if is_forwardable(role, &message.payload) {
                        self.forward(connection, message, now);
                        Step::Continue
                    } else {
                        Step::Continue
                    }
                },
            },
        }
    }

    /// One step of the receive loop of a controller: what the relay does
    /// with `frame`, received from controller `connection` at `now`.
    ///
    /// A close or a transport failure is a disconnect. The request to end
    /// the session ends it, tells the target, and closes the controller. An
    /// input event, a status message or a session-control message that is
    /// no registration goes into the target's queue, marked with the
    /// session, and counts as activity. Anything else is dropped, and so is
    /// whatever a controller sends while it is not paired. A handle that is
    /// not a registered controller stops the loop and changes nothing.
    pub fn serve_commander(&mut self, connection: ConnectionId, frame: Frame, now: Timestamp) -> (step: Step)
        requires
            old(self).wf(),
        ensures
            final(self).wf(),
            final(self).settings() == old(self).settings(),
            final(self)@ == served_as(old(self)@, Role::Controller, connection, frame, now),
            step == if stops_as(old(self)@, Role::Controller, connection, frame) {
                Step::Closed
            } else {
                Step::Continue
            },
    {
        if !self.has_role(connection, Role::Controller) {
            return Step::Closed;
        }
        self.serve(connection, frame, now)
    }

    /// One step of the receive loop of a target: what the relay does with
    /// `frame`, received from target `connection` at `now`.
    ///
    /// A close or a transport failure is a disconnect. The request to end
    /// the session ends it, tells the controller, and closes the target. An
    /// input event or a status message goes into the controller's queue,
    /// marked with the session, and counts as activity. Anything else is
    /// dropped, and so is whatever a target sends while it is not paired. A
    /// handle that is not a registered target stops the loop and changes
    /// nothing.
    pub fn serve_hid_client(&mut self, connection: ConnectionId, frame: Frame, now: Timestamp) -> (step: Step)
        requires
            old(self).wf(),
        ensures
            final(self).wf(),
            final(self).settings() == old(self).settings(),
            final(self)@ == served_as(old(self)@, Role::Target, connection, frame, now),
            step == if stops_as(old(self)@, Role::Target, connection, frame) {
                Step::Closed
            } else {
                Step::Continue
            },
    {
        if !self.has_role(connection, Role::Target) {
            return Step::Closed;
        }
        self.serve(connection, frame, now)
    }

    /// The session that `connection` takes part in, if it is registered and paired.
    pub fn session_of(&self, connection: ConnectionId) -> (r: Option<SessionId>)
        requires
            self.wf(),
        ensures
            r == session_link(self@, connection),
    {
        match self.registry.get(connection) {
            Some(record) => record.session,
            None => None,
        }
    }

    /// Whether `connection` is registered in the role `role`.
    pub fn has_role(&self, connection: ConnectionId, role: Role) -> (b: bool)
        requires
            self.wf(),
        ensures
            b == registered_as(self@, role, connection),
    {
        match self.registry.get(connection) {
            Some(record) => record.role == role,
            None => false,
        }
    }

    /// Ends every session that has been idle at `now` for more than the
    /// configured timeout, tells both connections of each, and returns the
    /// identifiers of the sessions that ended, oldest session first.
    pub fn sweep_expired(&mut self, now: Timestamp) -> (ended: Vec<SessionId>)
        requires
            old(self).wf(),
        ensures
            final(self).wf(),
            final(self).settings() == old(self).settings(),
            final(self)@ == swept_state(old(self)@, now, old(self).settings().session.session_timeout_mins),
            ended@ == ids_of(
                expired_part(old(self)@.sessions, now, old(self).settings().session.session_timeout_mins),
            ),
    {
        let timeout_mins = self.config.session.session_timeout_mins;
        proof {
            lemma_swept(self@, now, timeout_mins);
        }
        self.registry.expire_links(&self.sessions, now, timeout_mins);
        let expired = self.sessions.cleanup_expired_sessions_at(now, timeout_mins);
        let mut ended: Vec<SessionId> = Vec::new();
        let mut i: usize = 0;
        while i < expired.len()
            invariant
                0 <= i <= expired.len(),
                ended@.len() == i,
                forall|k: int| 0 <= k < i ==> ended@[k] == (#[trigger] expired@[k]).id,
            decreases expired.len() - i,
        {
            ended.push(expired[i].id);
            i += 1;
        }
        proof {
            assert(ended@ =~= ids_of(expired@));
        }
        ended
    }

    /// Takes everything that waits in the outbound queue of `connection`,
    /// oldest first, and leaves the queue empty. Only the send loop of that
    /// connection calls this.
    pub fn take_outbound(&mut self, connection: ConnectionId) -> (items: Vec<Outbound>)
        requires
            old(self).wf(),
        ensures
            final(self).wf(),
            final(self).settings() == old(self).settings(),
            final(self)@ == (RelayState {
                connections: with_queue_taken(old(self)@.connections, connection),
                ..old(self)@
            }),
            has_handle(old(self)@.connections, connection) ==> items@ == old(self)@.connections[handle_index(
                old(self)@.connections,
                connection,
            )].outbound,
            !has_handle(old(self)@.connections, connection) ==> items@ == Seq::<Outbound>::empty(),
    {
        let items = self.registry.take_outbound(connection);
        proof {
            lemma_queues_and_clocks(old(self)@, self@);
        }
        items
    }
}

} // verus!
