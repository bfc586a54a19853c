//! The registry of live connections.
//!
//! Every connection that has completed its handshake has one record here,
//! under a handle that is never given out twice. A record also carries the
//! connection's outbound queue: whoever wants the connection to receive
//! something appends to that queue, and only the connection's own send loop
//! takes items from it.

use vstd::prelude::*;
use crate::ident::SessionId;
use crate::protocol::{Message, MessagePayload, MessageType, SessionControlMessage};
use crate::session::{Session, SessionManager, expired_at, has_id, index_of};
use crate::time::Timestamp;

verus! {

/// The handle of a live connection.
#[derive(Clone, Copy, Debug, PartialEq, Eq, Hash, Structural)]
pub struct ConnectionId(pub u64);

/// The role that a connection declared in its handshake.
#[derive(Clone, Copy, Debug, PartialEq, Eq, Structural)]
pub enum Role {
    /// The endpoint that is controlled, registered under a public name.
    Target,
    /// The endpoint that controls.
    Controller,
}

/// Why a session ended.
#[derive(Clone, Copy, Debug, PartialEq, Eq, Structural)]
pub enum EndReason {
    /// The other side of the session disconnected.
    PeerDisconnected,
    /// Nothing was forwarded for longer than the idle timeout.
    IdleTimeout,
    /// The other side asked for the session to end.
    EndedByPeer,
}

/// One item of an outbound queue.
#[derive(Debug)]
pub enum Outbound {
    /// A message of the peer, to be delivered as it is.
    Forward(Message),
    /// The notice that session `session_id` is over.
    SessionEnded { session_id: SessionId, reason: EndReason },
}

/// The words in which a peer is told why its session ended.
pub open spec fn reason_text(reason: EndReason) -> Seq<char> {
    match reason {
        EndReason::PeerDisconnected => "peer disconnected"@,
        EndReason::IdleTimeout => "idle timeout"@,
        EndReason::EndedByPeer => "ended by peer"@,
    }
}

/// Whether `message` is what goes over the wire for `item` when it is sent
/// at `now`: a forwarded message goes as it is; the notice of a session's
/// end goes as a session-control message of that session, stamped `now`,
/// with the reason in words.
pub open spec fn is_wire_form(item: Outbound, now: Timestamp, message: Message) -> bool {
    match item {
        Outbound::Forward(inner) => message == inner,
        Outbound::SessionEnded { session_id, reason } => {
            &&& message.message_type == MessageType::SessionControl
            &&& message.session_id == Some(session_id)
            &&& message.timestamp == now
            &&& message.payload matches MessagePayload::SessionControl(
                SessionControlMessage::SessionEnded { reason: text },
            )
            &&& text@ == reason_text(reason)
        },
    }
}

impl EndReason {
    /// The reason in words.
    pub fn text(&self) -> (t: String)
        ensures
            t@ == reason_text(*self),
    {
        match self {
            EndReason::PeerDisconnected => "peer disconnected".to_owned(),
            EndReason::IdleTimeout => "idle timeout".to_owned(),
            EndReason::EndedByPeer => "ended by peer".to_owned(),
        }
    }
}

impl Outbound {
    /// The message that goes over the wire for this item when it is sent at `now`.
    pub fn into_message(self, now: Timestamp) -> (message: Message)
        ensures
            is_wire_form(self, now, message),
    {
        match self {
            Outbound::Forward(inner) => inner,
            Outbound::SessionEnded { session_id, reason } => Message::stamped(
                MessageType::SessionControl,
                Some(session_id),
                now,
                MessagePayload::SessionControl(SessionControlMessage::SessionEnded { reason: reason.text() }),
            ),
        }
    }
}

/// Registration under a target name that a live connection already holds.
#[derive(Clone, Copy, Debug, PartialEq, Eq, Structural)]
pub struct AlreadyRegistered;

/// The record of one live connection.
#[derive(Debug)]
pub struct ConnectionRecord {
    pub id: ConnectionId,
    pub role: Role,
    pub declared_id: String,
    pub session: Option<SessionId>,
    pub outbound: Vec<Outbound>,
}

/// What a record holds, as plain values.
pub struct ConnectionView {
    pub id: ConnectionId,
    pub role: Role,
    pub declared_id: Seq<char>,
    pub session: Option<SessionId>,
    pub outbound: Seq<Outbound>,
}

impl View for ConnectionRecord {
    type V = ConnectionView;

    open spec fn view(&self) -> ConnectionView {
        ConnectionView {
            id: self.id,
            role: self.role,
            declared_id: self.declared_id@,
            session: self.session,
            outbound: self.outbound@,
        }
    }
}

/// The record of a connection that has just registered: unpaired, with
/// nothing to send.
pub open spec fn fresh_record(id: ConnectionId, role: Role, declared_id: Seq<char>) -> ConnectionView {
    ConnectionView { id, role, declared_id, session: None, outbound: Seq::empty() }
}

/// Whether `reg` holds a record under `handle`.
pub open spec fn has_handle(reg: Seq<ConnectionView>, handle: ConnectionId) -> bool {
    exists|i: int| 0 <= i < reg.len() && (#[trigger] reg[i]).id == handle
}

/// The position of the record under `handle`, where there is one.
pub open spec fn handle_index(reg: Seq<ConnectionView>, handle: ConnectionId) -> int {
    choose|i: int| 0 <= i < reg.len() && (#[trigger] reg[i]).id == handle
}

/// Whether a target is registered in `reg` under `name`.
pub open spec fn has_target(reg: Seq<ConnectionView>, name: Seq<char>) -> bool {
    exists|i: int| 0 <= i < reg.len() && is_target_named(#[trigger] reg[i], name)
}

/// The position of the target registered under `name`, where there is one.
pub open spec fn target_index(reg: Seq<ConnectionView>, name: Seq<char>) -> int {
    choose|i: int| 0 <= i < reg.len() && is_target_named(#[trigger] reg[i], name)
}

/// Whether `record` is a target registered under `name`.
pub open spec fn is_target_named(record: ConnectionView, name: Seq<char>) -> bool {
    record.role == Role::Target && record.declared_id == name
}

/// The registry's invariant: every handle is below `next` and occurs once,
/// and no name has two targets.
pub open spec fn registry_wf(reg: Seq<ConnectionView>, next: u64) -> bool {
    &&& forall|i: int| 0 <= i < reg.len() ==> (#[trigger] reg[i]).id.0 < next
    &&& forall|i: int, j: int| 0 <= i < j < reg.len() ==> (#[trigger] reg[i]).id != (#[trigger] reg[j]).id
    &&& forall|i: int, j: int|
        0 <= i < j < reg.len() && (#[trigger] reg[i]).role == Role::Target && (#[trigger] reg[j]).role
            == Role::Target ==> reg[i].declared_id != reg[j].declared_id
}

/// The registry after `handle` has been removed: without that record, or
/// unchanged where it holds none.
pub open spec fn without_handle(reg: Seq<ConnectionView>, handle: ConnectionId) -> Seq<ConnectionView> {
    if has_handle(reg, handle) {
        reg.remove(handle_index(reg, handle))
    } else {
        reg
    }
}

/// The registry after `item` has been appended to the queue of `handle`; a
/// handle that is gone takes nothing.
pub open spec fn with_enqueued(reg: Seq<ConnectionView>, handle: ConnectionId, item: Outbound) -> Seq<
    ConnectionView,
> {
    if has_handle(reg, handle) {
        let i = handle_index(reg, handle);
        reg.update(i, ConnectionView { outbound: reg[i].outbound.push(item), ..reg[i] })
    } else {
        reg
    }
}

/// The registry after the queue of `handle` has been emptied.
pub open spec fn with_queue_taken(reg: Seq<ConnectionView>, handle: ConnectionId) -> Seq<ConnectionView> {
    if has_handle(reg, handle) {
        let i = handle_index(reg, handle);
        reg.update(i, ConnectionView { outbound: Seq::empty(), ..reg[i] })
    } else {
        reg
    }
}

/// The registry after the session link of `handle` has been set to `session`.
pub open spec fn with_link(reg: Seq<ConnectionView>, handle: ConnectionId, session: Option<SessionId>) -> Seq<
    ConnectionView,
> {
    if has_handle(reg, handle) {
        let i = handle_index(reg, handle);
        reg.update(i, ConnectionView { session, ..reg[i] })
    } else {
        reg
    }
}

/// Whether `record` takes part in session `session_id` in the role `role`.
pub open spec fn linked(record: ConnectionView, role: Role, session_id: SessionId) -> bool {
    record.role == role && record.session == Some(session_id)
}

/// Whether some connection takes part in session `session_id` as `role`.
pub open spec fn has_peer(reg: Seq<ConnectionView>, role: Role, session_id: SessionId) -> bool {
    exists|i: int| 0 <= i < reg.len() && linked(#[trigger] reg[i], role, session_id)
}

/// The position of the connection that takes part in `session_id` as `role`.
pub open spec fn peer_index(reg: Seq<ConnectionView>, role: Role, session_id: SessionId) -> int {
    choose|i: int| 0 <= i < reg.len() && linked(#[trigger] reg[i], role, session_id)
}

/// A record after session `session_id` has ended for the reason `reason`: a
/// record of that session is unpaired again and is told so, unless it is the
/// connection `quiet`, which asked for the end itself. Other records are
/// left alone.
pub open spec fn torn_record(
    record: ConnectionView,
    session_id: SessionId,
    reason: EndReason,
    quiet: Option<ConnectionId>,
) -> ConnectionView {
    if record.session == Some(session_id) {
        ConnectionView {
            session: None,
            outbound: if quiet == Some(record.id) {
                record.outbound
            } else {
                record.outbound.push(Outbound::SessionEnded { session_id, reason })
            },
            ..record
        }
    } else {
        record
    }
}

/// The registry after session `session_id` has ended.
pub open spec fn torn_down(
    reg: Seq<ConnectionView>,
    session_id: SessionId,
    reason: EndReason,
    quiet: Option<ConnectionId>,
) -> Seq<ConnectionView> {
    Seq::new(reg.len(), |i: int| torn_record(reg[i], session_id, reason, quiet))
}

/// Whether `record` is paired in a session of `sessions` that has expired at `now`.
pub open spec fn link_expired(record: ConnectionView, sessions: Seq<Session>, now: Timestamp, timeout_mins: u64) -> bool {
    record.session matches Some(sid) && has_id(sessions, sid) && expired_at(
        sessions[index_of(sessions, sid)],
        now,
        timeout_mins,
    )
}

/// A record after a sweep at `now`: a record whose session has expired is
/// unpaired again and is told so. Other records are left alone.
pub open spec fn swept_record(record: ConnectionView, sessions: Seq<Session>, now: Timestamp, timeout_mins: u64) -> ConnectionView {
    if link_expired(record, sessions, now, timeout_mins) {
        ConnectionView {
            session: None,
            outbound: record.outbound.push(
                Outbound::SessionEnded { session_id: record.session->0, reason: EndReason::IdleTimeout },
            ),
            ..record
        }
    } else {
        record
    }
}

/// The registry after a sweep at `now`.
pub open spec fn swept(reg: Seq<ConnectionView>, sessions: Seq<Session>, now: Timestamp, timeout_mins: u64) -> Seq<
    ConnectionView,
> {
    Seq::new(reg.len(), |i: int| swept_record(reg[i], sessions, now, timeout_mins))
}

/// Whether `after` has the records of `before`, one for one, under the same
/// handles, roles and names: only links and queues may differ.
pub open spec fn same_connections(before: Seq<ConnectionView>, after: Seq<ConnectionView>) -> bool {
    &&& after.len() == before.len()
    &&& forall|i: int|
        0 <= i < before.len() ==> (#[trigger] after[i]).id == before[i].id && after[i].role
            == before[i].role && after[i].declared_id == before[i].declared_id
}

/// A registry stays well formed as long as handles, roles and names stay.
pub proof fn lemma_same_connections(before: Seq<ConnectionView>, after: Seq<ConnectionView>, next: u64)
    requires
        registry_wf(before, next),
        same_connections(before, after),
    ensures
        registry_wf(after, next),
        forall|h: ConnectionId| has_handle(before, h) == has_handle(after, h),
        forall|h: ConnectionId| has_handle(before, h) ==> handle_index(before, h) == handle_index(after, h),
        forall|n: Seq<char>| has_target(before, n) == has_target(after, n),
        forall|n: Seq<char>| has_target(before, n) ==> target_index(before, n) == target_index(after, n),
{
    assert forall|i: int, j: int| 0 <= i < j < after.len() implies (#[trigger] after[i]).id != (
    #[trigger] after[j]).id && (after[i].role == Role::Target && after[j].role == Role::Target
        ==> after[i].declared_id != after[j].declared_id) by {
        assert(before[i].id != before[j].id);
    }
    assert forall|i: int| 0 <= i < after.len() implies (#[trigger] after[i]).id.0 < next by {
        assert(before[i].id.0 < next);
    }
    assert forall|h: ConnectionId| has_handle(before, h) == has_handle(after, h) && (has_handle(
        before,
        h,
    ) ==> handle_index(before, h) == handle_index(after, h)) by {
        if has_handle(before, h) {
            let i = handle_index(before, h);
            assert(after[i].id == h);
            lemma_record_unique(after, next, i);
        }
        if has_handle(after, h) {
            let i = handle_index(after, h);
            assert(before[i].id == h);
        }
    }
    assert forall|n: Seq<char>| has_target(before, n) == has_target(after, n) && (has_target(
        before,
        n,
    ) ==> target_index(before, n) == target_index(after, n)) by {
        if has_target(before, n) {
            let i = target_index(before, n);
            assert(is_target_named(after[i], n));
            lemma_record_unique(after, next, i);
        }
        if has_target(after, n) {
            let i = target_index(after, n);
            assert(is_target_named(before[i], n));
        }
    }
}

/// In a well-formed registry the record at position `i` is the only one
/// under its handle and, if it is a target, the only target of its name.
pub proof fn lemma_record_unique(reg: Seq<ConnectionView>, next: u64, i: int)
    requires
        registry_wf(reg, next),
        0 <= i < reg.len(),
    ensures
        has_handle(reg, reg[i].id),
        handle_index(reg, reg[i].id) == i,
        reg[i].role == Role::Target ==> has_target(reg, reg[i].declared_id) && target_index(
            reg,
            reg[i].declared_id,
        ) == i,
{
    let j = handle_index(reg, reg[i].id);
    assert(0 <= j < reg.len() && reg[j].id == reg[i].id);
    if reg[i].role == Role::Target {
        let name = reg[i].declared_id;
        assert(is_target_named(reg[i], name));
        let k = target_index(reg, name);
        assert(0 <= k < reg.len() && is_target_named(reg[k], name));
    }
}

/// Removing a handle leaves a well-formed registry that no longer holds it.
pub proof fn lemma_without_handle(reg: Seq<ConnectionView>, next: u64, handle: ConnectionId)
    requires
        registry_wf(reg, next),
    ensures
        registry_wf(without_handle(reg, handle), next),
        !has_handle(without_handle(reg, handle), handle),
{
    if has_handle(reg, handle) {
        let i = handle_index(reg, handle);
        let t = reg.remove(i);
        assert forall|j: int| 0 <= j < t.len() implies (#[trigger] t[j]).id != handle && t[j].id.0
            < next by {
            if j < i {
                assert(t[j] == reg[j]);
            } else {
                assert(t[j] == reg[j + 1]);
            }
        }
        assert forall|a: int, b: int| 0 <= a < b < t.len() implies (#[trigger] t[a]).id != (
        #[trigger] t[b]).id && (t[a].role == Role::Target && t[b].role == Role::Target
            ==> t[a].declared_id != t[b].declared_id) by {
            let a2 = if a < i { a } else { a + 1 };
            let b2 = if b < i { b } else { b + 1 };
            assert(t[a] == reg[a2] && t[b] == reg[b2]);
        }
    }
}

/// The live connections, in the order in which they registered.
pub struct ConnectionRegistry {
    records: Vec<ConnectionRecord>,
    next: u64,
}

impl View for ConnectionRegistry {
    type V = Seq<ConnectionView>;

    closed spec fn view(&self) -> Seq<ConnectionView> {
        Seq::new(self.records@.len(), |i: int| self.records@[i]@)
    }
}

impl ConnectionRegistry {
    /// The number that the next handle will hold.
    pub closed spec fn next_handle(&self) -> u64 {
        self.next
    }

    /// The registry's invariant: every constructor establishes it and every
    /// method keeps it.
    pub open spec fn wf(&self) -> bool {
        registry_wf(self@, self.next_handle())
    }

    /// Whether a handle is left to give out.
    pub open spec fn has_room(&self) -> bool {
        self.next_handle() < u64::MAX
    }

    /// An empty registry.
    pub fn new() -> (r: ConnectionRegistry)
        ensures
            r.wf(),
            r.has_room(),
            r@ == Seq::<ConnectionView>::empty(),
            r.next_handle() == 0,
    {
        ConnectionRegistry { records: Vec::new(), next: 0 }
    }

    /// Whether a handle is left to give out.
    pub fn can_register(&self) -> (b: bool)
        ensures
            b == self.has_room(),
    {
        self.next < u64::MAX
    }

    /// The number of live connections.
    pub fn len(&self) -> (n: usize)
        ensures
            n == self@.len(),
    {
        self.records.len()
    }

    /// The position of the record under `handle`.
    fn position(&self, handle: ConnectionId) -> (r: Option<usize>)
        requires
            self.wf(),
        ensures
            r matches Some(i) ==> has_handle(self@, handle) && i == handle_index(self@, handle) && i
                < self@.len(),
            r is None ==> !has_handle(self@, handle),
    {
        let mut i: usize = 0;
        while i < self.records.len()
            invariant
                self.wf(),
                0 <= i <= self.records.len(),
                forall|k: int| 0 <= k < i ==> (#[trigger] self@[k]).id != handle,
            decreases self.records.len() - i,
        {
            if self.records[i].id == handle {
                proof {
                    lemma_record_unique(self@, self.next, i as int);
                }
                return Some(i);
            }
            i += 1;
        }
        None
    }

    /// The position of the target registered under `name`.
    fn position_of_target(&self, name: &String) -> (r: Option<usize>)
        requires
            self.wf(),
        ensures
            r matches Some(i) ==> has_target(self@, name@) && i == target_index(self@, name@) && i
                < self@.len(),
            r is None ==> !has_target(self@, name@),
    {
        let mut i: usize = 0;
        while i < self.records.len()
            invariant
                self.wf(),
                0 <= i <= self.records.len(),
                forall|k: int| 0 <= k < i ==> !is_target_named(#[trigger] self@[k], name@),
            decreases self.records.len() - i,
        {
            if self.records[i].role == Role::Target && self.records[i].declared_id == *name {
                proof {
                    lemma_record_unique(self@, self.next, i as int);
                }
                return Some(i);
            }
            i += 1;
        }
        None
    }

    /// Adds a record for a connection that has just declared itself.
    fn enroll(&mut self, role: Role, declared_id: String) -> (handle: ConnectionId)
        requires
            old(self).wf(),
            old(self).has_room(),
            role == Role::Target ==> !has_target(old(self)@, declared_id@),
        ensures
            final(self).wf(),
            handle == ConnectionId(old(self).next_handle()),
            final(self).next_handle() == old(self).next_handle() + 1,
            final(self)@ == old(self)@.push(fresh_record(handle, role, declared_id@)),
    {
        let handle = ConnectionId(self.next);
        let record = ConnectionRecord { id: handle, role, declared_id, session: None, outbound: Vec::new() };
        self.records.push(record);
        self.next = self.next + 1;
        proof {
            assert(self@ =~= old(self)@.push(fresh_record(handle, role, declared_id@)));
            assert forall|i: int, j: int|
                0 <= i < j < self@.len() && (#[trigger] self@[i]).role == Role::Target && (
                #[trigger] self@[j]).role == Role::Target implies self@[i].declared_id
                != self@[j].declared_id by {
                if j == self@.len() - 1 {
                    assert(old(self)@[i] == self@[i]);
                    assert(!is_target_named(old(self)@[i], declared_id@));
                } else {
                    assert(old(self)@[i] == self@[i]);
                    assert(old(self)@[j] == self@[j]);
                }
            }
        }
        handle
    }

    /// Registers a target under the name `target_id`. A name that a live
    /// target already holds is refused, and the registry stays as it was; a
    /// handle must be left only where the name is free.
    pub fn register_target(&mut self, target_id: String) -> (r: Result<ConnectionId, AlreadyRegistered>)
        requires
            old(self).wf(),
            !has_target(old(self)@, target_id@) ==> old(self).has_room(),
        ensures
            final(self).wf(),
            has_target(old(self)@, target_id@) ==> r == Err::<ConnectionId, AlreadyRegistered>(
                AlreadyRegistered,
            ) && final(self)@ == old(self)@ && final(self).next_handle() == old(self).next_handle(),
            !has_target(old(self)@, target_id@) ==> r == Ok::<ConnectionId, AlreadyRegistered>(
                ConnectionId(old(self).next_handle()),
            ) && final(self)@ == old(self)@.push(
                fresh_record(ConnectionId(old(self).next_handle()), Role::Target, target_id@),
            ) && final(self).next_handle() == old(self).next_handle() + 1,
    {
        if self.position_of_target(&target_id).is_some() {
            return Err(AlreadyRegistered);
        }
        Ok(self.enroll(Role::Target, target_id))
    }

    /// Registers a controller. `declared_id` is a label for the connection;
    /// it need not be unique.
    pub fn register_controller(&mut self, declared_id: String) -> (handle: ConnectionId)
        requires
            old(self).wf(),
            old(self).has_room(),
        ensures
            final(self).wf(),
            handle == ConnectionId(old(self).next_handle()),
            final(self).next_handle() == old(self).next_handle() + 1,
            final(self)@ == old(self)@.push(fresh_record(handle, Role::Controller, declared_id@)),
    {
        self.enroll(Role::Controller, declared_id)
    }

    /// The handle of the target registered under `target_id`.
    pub fn lookup(&self, target_id: &str) -> (r: Option<ConnectionId>)
        requires
            self.wf(),
        ensures
            has_target(self@, target_id@) ==> r == Some(self@[target_index(self@, target_id@)].id),
            !has_target(self@, target_id@) ==> r is None,
    {
        let name = target_id.to_owned();
        match self.position_of_target(&name) {
            Some(i) => Some(self.records[i].id),
            None => None,
        }
    }

    /// The record under `handle`.
    pub fn get(&self, handle: ConnectionId) -> (r: Option<&ConnectionRecord>)
        requires
            self.wf(),
        ensures
            has_handle(self@, handle) ==> r is Some && r->0@ == self@[handle_index(self@, handle)],
            !has_handle(self@, handle) ==> r is None,
    {
        match self.position(handle) {
            Some(i) => Some(&self.records[i]),
            None => None,
        }
    }

    /// Removes the record under `handle` and hands it back. Removing a
    /// handle that is gone changes nothing.
    pub fn remove(&mut self, handle: ConnectionId) -> (r: Option<ConnectionRecord>)
        requires
            old(self).wf(),
        ensures
            final(self).wf(),
            final(self).next_handle() == old(self).next_handle(),
            final(self)@ == without_handle(old(self)@, handle),
            !has_handle(final(self)@, handle),
            has_handle(old(self)@, handle) ==> r is Some && r->0@ == old(self)@[handle_index(
                old(self)@,
                handle,
            )],
            !has_handle(old(self)@, handle) ==> r is None,
    {
        proof {
            lemma_without_handle(self@, self.next, handle);
        }
        match self.position(handle) {
            Some(i) => {
                let record = self.records.remove(i);
                proof {
                    assert(self@ =~= old(self)@.remove(i as int));
                }
                Some(record)
            },
            None => None,
        }
    }

    /// Appends `item` to the outbound queue of `handle`. An item for a
    /// connection that is gone is dropped; the result tells whether the item
    /// was taken.
    pub fn enqueue(&mut self, handle: ConnectionId, item: Outbound) -> (taken: bool)
        requires
            old(self).wf(),
        ensures
            final(self).wf(),
            final(self).next_handle() == old(self).next_handle(),
            taken == has_handle(old(self)@, handle),
            final(self)@ == with_enqueued(old(self)@, handle, item),
    {
        match self.position(handle) {
            Some(i) => {
                self.records[i].outbound.push(item);
                proof {
                    assert(self@ =~= with_enqueued(old(self)@, handle, item));
                }
                true
            },
            None => false,
        }
    }

    /// Takes everything that waits in the outbound queue of `handle`, oldest
    /// first, and leaves the queue empty.
    pub fn take_outbound(&mut self, handle: ConnectionId) -> (items: Vec<Outbound>)
        requires
            old(self).wf(),
        ensures
            final(self).wf(),
            final(self).next_handle() == old(self).next_handle(),
            final(self)@ == with_queue_taken(old(self)@, handle),
            has_handle(old(self)@, handle) ==> items@ == old(self)@[handle_index(
                old(self)@,
                handle,
            )].outbound,
            !has_handle(old(self)@, handle) ==> items@ == Seq::<Outbound>::empty(),
    {
        match self.position(handle) {
            Some(i) => {
                let mut items: Vec<Outbound> = Vec::new();
                std::mem::swap(&mut items, &mut self.records[i].outbound);
                proof {
                    assert(self@ =~= with_queue_taken(old(self)@, handle));
                }
                items
            },
            None => Vec::new(),
        }
    }

    /// Sets the session link of `handle`.
    pub fn set_session(&mut self, handle: ConnectionId, session: Option<SessionId>)
        requires
            old(self).wf(),
        ensures
            final(self).wf(),
            final(self).next_handle() == old(self).next_handle(),
            final(self)@ == with_link(old(self)@, handle, session),
    {
        match self.position(handle) {
            Some(i) => {
                self.records[i].session = session;
                proof {
                    assert(self@ =~= with_link(old(self)@, handle, session));
                }
            },
            None => {},
        }
    }

    /// The handle of the first connection, in the order of registration,
    /// that takes part in `session_id` as `role`.
    pub fn find_linked(&self, role: Role, session_id: SessionId) -> (r: Option<ConnectionId>)
        ensures
            r matches Some(h) ==> has_peer(self@, role, session_id) && has_handle(self@, h) && exists|
                i: int,
            |
                0 <= i < self@.len() && linked(#[trigger] self@[i], role, session_id) && self@[i].id == h
                    && forall|k: int| 0 <= k < i ==> !linked(#[trigger] self@[k], role, session_id),
            r is None ==> !has_peer(self@, role, session_id),
    {
        let mut i: usize = 0;
        while i < self.records.len()
            invariant
                0 <= i <= self.records.len(),
                forall|k: int| 0 <= k < i ==> !linked(#[trigger] self@[k], role, session_id),
            decreases self.records.len() - i,
        {
            let here = match self.records[i].session {
                Some(sid) => sid == session_id,
                None => false,
            };
            if here && self.records[i].role == role {
                assert(linked(self@[i as int], role, session_id));
                return Some(self.records[i].id);
            }
            i += 1;
        }
        None
    }

    /// Ends session `session_id` in the registry: every connection of the
    /// session is unpaired again and gets a notice with `reason`, but for
    /// the connection `quiet`, which gets none.
    pub fn close_session(&mut self, session_id: SessionId, reason: EndReason, quiet: Option<ConnectionId>)
        requires
            old(self).wf(),
        ensures
            final(self).wf(),
            final(self).next_handle() == old(self).next_handle(),
            final(self)@ == torn_down(old(self)@, session_id, reason, quiet),
    {
        let mut i: usize = 0;
        while i < self.records.len()
            invariant
                0 <= i <= self.records.len(),
                self.records.len() == old(self).records.len(),
                self.next == old(self).next,
                forall|k: int|
                    0 <= k < i ==> (#[trigger] self@[k]) == torn_record(
                        old(self)@[k],
                        session_id,
                        reason,
                        quiet,
                    ),
                forall|k: int| i <= k < self.records.len() ==> (#[trigger] self@[k]) == old(self)@[k],
            decreases self.records.len() - i,
        {
            let ghost before = self@;
            let here = match self.records[i].session {
                Some(sid) => sid == session_id,
                None => false,
            };
            if here {
                let told = match quiet {
                    Some(q) => q == self.records[i].id,
                    None => false,
                };
                self.records[i].session = None;
                assert(told == (quiet == Some(before[i as int].id)));
                if !told {
                    self.records[i].outbound.push(Outbound::SessionEnded { session_id, reason });
                }
            }
            proof {
                assert(here == (before[i as int].session == Some(session_id)));
                assert(self@[i as int] == torn_record(before[i as int], session_id, reason, quiet));
                assert forall|k: int| 0 <= k < self.records.len() && k != i implies (#[trigger] self@[k])
                    == before[k] by {}
            }
            i += 1;
        }
        proof {
            assert(self@ =~= torn_down(old(self)@, session_id, reason, quiet));
            lemma_same_connections(old(self)@, self@, self.next);
        }
    }

    /// Unpairs every connection whose session in `sessions` has been idle
    /// for more than `timeout_mins` minutes at `now`, and puts the notice of
    /// it in the connection's queue.
    pub fn expire_links(&mut self, sessions: &SessionManager, now: Timestamp, timeout_mins: u64)
        requires
            old(self).wf(),
            sessions.wf(),
        ensures
            final(self).wf(),
            final(self).next_handle() == old(self).next_handle(),
            final(self)@ == swept(old(self)@, sessions@, now, timeout_mins),
    {
        let mut i: usize = 0;
        while i < self.records.len()
            invariant
                sessions.wf(),
                0 <= i <= self.records.len(),
                self.records.len() == old(self).records.len(),
                self.next == old(self).next,
                forall|k: int|
                    0 <= k < i ==> (#[trigger] self@[k]) == swept_record(
                        old(self)@[k],
                        sessions@,
                        now,
                        timeout_mins,
                    ),
                forall|k: int| i <= k < self.records.len() ==> (#[trigger] self@[k]) == old(self)@[k],
            decreases self.records.len() - i,
        {
            let ghost before = self@;
            let over = match self.records[i].session {
                Some(sid) => match sessions.get_session(sid) {
                    Some(session) => session.is_expired_at(&now, timeout_mins),
                    None => false,
                },
                None => false,
            };
            if over {
                let session_id = self.records[i].session.unwrap();
                self.records[i].session = None;
                self.records[i].outbound.push(
                    Outbound::SessionEnded { session_id, reason: EndReason::IdleTimeout },
                );
            }
            proof {
                assert(over == link_expired(before[i as int], sessions@, now, timeout_mins));
                assert forall|k: int| 0 <= k < self.records.len() && k != i implies (#[trigger] self@[k])
                    == before[k] by {}
            }
            i += 1;
        }
        proof {
            assert(self@ =~= swept(old(self)@, sessions@, now, timeout_mins));
            lemma_same_connections(old(self)@, self@, self.next);
        }
    }
}

} // verus!
