//! Sessions and the table that owns them.
//!
//! A session pairs one controller with one target. The table keeps at most
//! one session per target and never two sessions with one identifier.

use vstd::prelude::*;
use crate::ident::SessionId;
use crate::time::{Timestamp, idle_longer_than};

verus! {

/// Why a controller could not be paired with a target.
#[derive(Clone, Copy, Debug, PartialEq, Eq, Structural)]
pub enum PairingError {
    /// No live connection is registered under the target's name.
    TargetNotFound,
    /// The target already has an active session.
    TargetAlreadyPaired,
    /// The identifier drawn for the new session is already in use.
    IdCollision,
}

/// One pairing of a controller with a target.
#[derive(Debug, Clone)]
pub struct Session {
    pub id: SessionId,
    pub commander_id: String,
    pub hid_client_id: String,
    pub created_at: Timestamp,
    pub last_activity: Timestamp,
}

/// Whether some session in `s` has identifier `id`.
pub open spec fn has_id(s: Seq<Session>, id: SessionId) -> bool {
    exists|i: int| 0 <= i < s.len() && #[trigger] s[i].id == id
}

/// The position of the session with identifier `id`, where there is one.
pub open spec fn index_of(s: Seq<Session>, id: SessionId) -> int {
    choose|i: int| 0 <= i < s.len() && #[trigger] s[i].id == id
}

/// Whether some session in `s` has the identifier of a random (version 4) UUID.
pub open spec fn holds_random_id(s: Seq<Session>) -> bool {
    exists|i: int| 0 <= i < s.len() && (#[trigger] s[i]).id.is_v4()
}

/// Whether some session in `s` drives the target named `target`.
pub open spec fn target_paired(s: Seq<Session>, target: Seq<char>) -> bool {
    exists|i: int| 0 <= i < s.len() && #[trigger] s[i].hid_client_id@ == target
}

/// The position of the session that drives `target`, where there is one.
pub open spec fn index_of_target(s: Seq<Session>, target: Seq<char>) -> int {
    choose|i: int| 0 <= i < s.len() && #[trigger] s[i].hid_client_id@ == target
}

/// The table's invariant: no identifier and no target occurs twice.
pub open spec fn sessions_wf(s: Seq<Session>) -> bool {
    &&& forall|i: int, j: int|
        0 <= i < j < s.len() ==> (#[trigger] s[i]).id != (#[trigger] s[j]).id
    &&& forall|i: int, j: int|
        0 <= i < j < s.len() ==> (#[trigger] s[i]).hid_client_id@ != (#[trigger] s[j]).hid_client_id@
}

/// Whether `session` has been idle for more than `timeout_mins` minutes at `now`.
pub open spec fn expired_at(session: Session, now: Timestamp, timeout_mins: u64) -> bool {
    idle_longer_than(session.last_activity@, now@, timeout_mins as nat)
}

/// The session that `id` names when it starts at `now`.
pub open spec fn opened(id: SessionId, commander_id: String, hid_client_id: String, now: Timestamp) -> Session {
    Session { id, commander_id, hid_client_id, created_at: now, last_activity: now }
}

/// `session` with activity recorded at `now`.
pub open spec fn touched(session: Session, now: Timestamp) -> Session {
    Session { last_activity: now, ..session }
}

impl Session {
    /// A session that starts at `now`.
    pub fn opened_at(id: SessionId, commander_id: String, hid_client_id: String, now: Timestamp) -> (s: Session)
        ensures
            s == (Session { id, commander_id, hid_client_id, created_at: now, last_activity: now }),
    {
        Session { id, commander_id, hid_client_id, created_at: now, last_activity: now }
    }

    /// A session with a random identifier that starts at the current instant.
    pub fn new(commander_id: String, hid_client_id: String) -> (s: Session)
        ensures
            s.commander_id == commander_id,
            s.hid_client_id == hid_client_id,
            s.last_activity == s.created_at,
            s.id.is_v4(),
    {
        Session::opened_at(SessionId::random(), commander_id, hid_client_id, Timestamp::now())
    }

    /// Records activity at `now`.
    pub fn update_activity_at(&mut self, now: Timestamp)
        ensures
            *final(self) == touched(*old(self), now),
    {
        self.last_activity = now;
    }

    /// Records activity at the current instant.
    pub fn update_activity(&mut self)
        ensures
            exists|now: Timestamp| *final(self) == #[trigger] touched(*old(self), now),
    {
        let now = Timestamp::now();
        self.update_activity_at(now);
        assert(*self == touched(*old(self), now));
    }

    /// Whether the session has been idle for more than `timeout_mins` minutes at `now`.
    pub fn is_expired_at(&self, now: &Timestamp, timeout_mins: u64) -> (b: bool)
        ensures
            b == expired_at(*self, *now, timeout_mins),
    {
        self.last_activity.idle_at(now, timeout_mins)
    }

    /// Whether the session has been idle for more than `timeout_mins` minutes
    /// by the system clock.
    pub fn is_expired(&self, timeout_mins: u64) -> (b: bool)
        ensures
            exists|now: Timestamp| b == #[trigger] expired_at(*self, now, timeout_mins),
    {
        let now = Timestamp::now();
        let b = self.is_expired_at(&now, timeout_mins);
        assert(b == expired_at(*self, now, timeout_mins));
        b
    }
}

/// In a well-formed table the session at position `i` is the only one with
/// its identifier and the only one with its target.
pub proof fn lemma_position_unique(s: Seq<Session>, i: int)
    requires
        sessions_wf(s),
        0 <= i < s.len(),
    ensures
        has_id(s, s[i].id),
        index_of(s, s[i].id) == i,
        target_paired(s, s[i].hid_client_id@),
        index_of_target(s, s[i].hid_client_id@) == i,
{
    let j = index_of(s, s[i].id);
    assert(0 <= j < s.len() && s[j].id == s[i].id);
    let k = index_of_target(s, s[i].hid_client_id@);
    assert(0 <= k < s.len() && s[k].hid_client_id@ == s[i].hid_client_id@);
}

/// What one more session adds to the two parts of a sweep.
proof fn lemma_parts_step(s: Seq<Session>, k: int, now: Timestamp, timeout_mins: u64)
    requires
        0 <= k < s.len(),
    ensures
        expired_part(s.take(k + 1), now, timeout_mins) == if expired_at(s[k], now, timeout_mins) {
            expired_part(s.take(k), now, timeout_mins).push(s[k])
        } else {
            expired_part(s.take(k), now, timeout_mins)
        },
        live_part(s.take(k + 1), now, timeout_mins) == if expired_at(s[k], now, timeout_mins) {
            live_part(s.take(k), now, timeout_mins)
        } else {
            live_part(s.take(k), now, timeout_mins).push(s[k])
        },
{
    reveal(Seq::filter);
    assert(s.take(k + 1).drop_last() =~= s.take(k));
}

/// A sweep keeps exactly the sessions that have not expired: each of them
/// stays, under its identifier and its target, and nothing else does. What
/// is left is a well-formed table again.
pub proof fn lemma_live_part(s: Seq<Session>, now: Timestamp, timeout_mins: u64)
    requires
        sessions_wf(s),
    ensures
        sessions_wf(live_part(s, now, timeout_mins)),
        forall|j: int|
            0 <= j < live_part(s, now, timeout_mins).len() ==> s.contains(
                #[trigger] live_part(s, now, timeout_mins)[j],
            ) && !expired_at(live_part(s, now, timeout_mins)[j], now, timeout_mins),
        forall|i: int|
            0 <= i < s.len() && !expired_at(#[trigger] s[i], now, timeout_mins) ==> live_part(
                s,
                now,
                timeout_mins,
            ).contains(s[i]),
    decreases s.len(),
{
    reveal(Seq::filter);
    let live = live_part(s, now, timeout_mins);
    if s.len() > 0 {
        let front = s.drop_last();
        let last = s.last();
        lemma_live_part(front, now, timeout_mins);
        let live_front = live_part(front, now, timeout_mins);
        assert forall|j: int| 0 <= j < live.len() implies s.contains(#[trigger] live[j])
            && !expired_at(live[j], now, timeout_mins) by {
            if j < live_front.len() {
                assert(front.contains(live_front[j]));
                let k = choose|k: int| 0 <= k < front.len() && front[k] == live_front[j];
                assert(s[k] == live[j]);
            } else {
                assert(s[s.len() - 1] == live[j]);
            }
        }
        assert forall|i: int|
            0 <= i < s.len() && !expired_at(#[trigger] s[i], now, timeout_mins) implies live.contains(
            s[i],
        ) by {
            if i < front.len() {
                assert(front[i] == s[i]);
                assert(live_front.contains(front[i]));
                let k = choose|k: int| 0 <= k < live_front.len() && live_front[k] == front[i];
                assert(live[k] == s[i]);
            } else {
                assert(live[live.len() - 1] == s[i]);
            }
        }
        assert forall|i: int, j: int| 0 <= i < j < live.len() implies (#[trigger] live[i]).id != (
        #[trigger] live[j]).id && live[i].hid_client_id@ != live[j].hid_client_id@ by {
            if j < live_front.len() {
            } else {
                assert(front.contains(live_front[i]));
                let k = choose|k: int| 0 <= k < front.len() && front[k] == live_front[i];
                assert(s[k] == live[i]);
                assert(s[s.len() - 1] == live[j]);
            }
        }
    }
}

/// The sessions of `s` that have expired at `now`, in their order in `s`.
pub open spec fn expired_part(s: Seq<Session>, now: Timestamp, timeout_mins: u64) -> Seq<Session> {
    s.filter(|x: Session| expired_at(x, now, timeout_mins))
}

/// The sessions of `s` that are still alive at `now`, in their order in `s`.
pub open spec fn live_part(s: Seq<Session>, now: Timestamp, timeout_mins: u64) -> Seq<Session> {
    s.filter(|x: Session| !expired_at(x, now, timeout_mins))
}

/// Why the table `s` refuses to pair the target named `target` in a session
/// with identifier `id`, if it does: the target must not be paired, and the
/// identifier must be free. The two are tested in this order.
pub open spec fn pairing_refusal(s: Seq<Session>, target: Seq<char>, id: SessionId) -> Option<PairingError> {
    if target_paired(s, target) {
        Some(PairingError::TargetAlreadyPaired)
    } else if has_id(s, id) {
        Some(PairingError::IdCollision)
    } else {
        None
    }
}

/// The table after a request to pair `commander_id` with `hid_client_id` in
/// session `id` at `now`: with the new session last, or as it was where the
/// pairing is refused.
pub open spec fn with_pairing(
    s: Seq<Session>,
    id: SessionId,
    commander_id: String,
    hid_client_id: String,
    now: Timestamp,
) -> Seq<Session> {
    if pairing_refusal(s, hid_client_id@, id) is None {
        s.push(opened(id, commander_id, hid_client_id, now))
    } else {
        s
    }
}

/// The table after session `id` has ended: without that session, or
/// unchanged where it holds none.
pub open spec fn without_id(s: Seq<Session>, id: SessionId) -> Seq<Session> {
    if has_id(s, id) {
        s.remove(index_of(s, id))
    } else {
        s
    }
}

/// Ending a session takes exactly that session out of a well-formed table.
pub proof fn lemma_without_id(s: Seq<Session>, id: SessionId)
    requires
        sessions_wf(s),
    ensures
        sessions_wf(without_id(s, id)),
        !has_id(without_id(s, id), id),
{
    if has_id(s, id) {
        let i = index_of(s, id);
        let t = s.remove(i);
        assert forall|j: int| 0 <= j < t.len() implies (#[trigger] t[j]).id != id by {
            if j < i {
                assert(t[j] == s[j]);
            } else {
                assert(t[j] == s[j + 1]);
            }
        }
        assert forall|a: int, b: int| 0 <= a < b < t.len() implies (#[trigger] t[a]).id != (
        #[trigger] t[b]).id && t[a].hid_client_id@ != t[b].hid_client_id@ by {
            let a2 = if a < i { a } else { a + 1 };
            let b2 = if b < i { b } else { b + 1 };
            assert(t[a] == s[a2] && t[b] == s[b2]);
        }
    }
}

/// Activity changes neither identifiers nor targets, so the table stays
/// well formed and every lookup finds what it found before.
pub proof fn lemma_with_activity(s: Seq<Session>, id: SessionId, now: Timestamp)
    requires
        sessions_wf(s),
    ensures
        sessions_wf(with_activity(s, id, now)),
        with_activity(s, id, now).len() == s.len(),
        forall|j: int|
            0 <= j < s.len() ==> (#[trigger] with_activity(s, id, now)[j]).id == s[j].id
                && with_activity(s, id, now)[j].hid_client_id == s[j].hid_client_id,
{
}

/// The table after activity on session `id` at `now`.
pub open spec fn with_activity(s: Seq<Session>, id: SessionId, now: Timestamp) -> Seq<Session> {
    if has_id(s, id) {
        s.update(index_of(s, id), touched(s[index_of(s, id)], now))
    } else {
        s
    }
}

/// The table of active sessions, in the order in which they were created.
pub struct SessionManager {
    sessions: Vec<Session>,
}

impl View for SessionManager {
    type V = Seq<Session>;

    closed spec fn view(&self) -> Seq<Session> {
        self.sessions@
    }
}

impl Default for SessionManager {
    fn default() -> (m: SessionManager)
        ensures
            m.wf(),
            m@ == Seq::<Session>::empty(),
    {
        SessionManager { sessions: Vec::new() }
    }
}

impl SessionManager {
    /// The table's invariant: every constructor establishes it and every
    /// method keeps it.
    pub open spec fn wf(&self) -> bool {
        sessions_wf(self@)
    }

    /// An empty table.
    pub fn new() -> (m: SessionManager)
        ensures
            m.wf(),
            m@ == Seq::<Session>::empty(),
    {
        SessionManager { sessions: Vec::new() }
    }

    /// The position of the session with identifier `id`.
    fn position(&self, id: SessionId) -> (r: Option<usize>)
        requires
            self.wf(),
        ensures
            r matches Some(i) ==> has_id(self@, id) && i == index_of(self@, id) && i < self@.len(),
            r is None ==> !has_id(self@, id),
    {
        let mut i: usize = 0;
        while i < self.sessions.len()
            invariant
                self.wf(),
                0 <= i <= self.sessions.len(),
                forall|k: int| 0 <= k < i ==> (#[trigger] self.sessions@[k]).id != id,
            decreases self.sessions.len() - i,
        {
            if self.sessions[i].id == id {
                proof {
                    lemma_position_unique(self@, i as int);
                }
                return Some(i);
            }
            i += 1;
        }
        None
    }

    /// The position of the session that drives the target named `target`.
    fn position_of_target(&self, target: &String) -> (r: Option<usize>)
        requires
            self.wf(),
        ensures
            r matches Some(i) ==> target_paired(self@, target@) && i == index_of_target(self@, target@)
                && i < self@.len(),
            r is None ==> !target_paired(self@, target@),
    {
        let mut i: usize = 0;
        while i < self.sessions.len()
            invariant
                self.wf(),
                0 <= i <= self.sessions.len(),
                forall|k: int| 0 <= k < i ==> (#[trigger] self.sessions@[k]).hid_client_id@ != target@,
            decreases self.sessions.len() - i,
        {
            if self.sessions[i].hid_client_id == *target {
                proof {
                    lemma_position_unique(self@, i as int);
                }
                return Some(i);
            }
            i += 1;
        }
        None
    }

    /// Pairs `commander_id` with the target `hid_client_id` in a session with
    /// identifier `id` that starts at `now`. Fails, and leaves the table as it
    /// was, if the target already has a session or if `id` is in use.
    pub fn create_session_with(
        &mut self,
        id: SessionId,
        commander_id: String,
        hid_client_id: String,
        now: Timestamp,
    ) -> (r: Result<SessionId, PairingError>)
        requires
            old(self).wf(),
        ensures
            final(self).wf(),
            r == match pairing_refusal(old(self)@, hid_client_id@, id) {
                Some(e) => Err::<SessionId, PairingError>(e),
                None => Ok::<SessionId, PairingError>(id),
            },
            final(self)@ == with_pairing(old(self)@, id, commander_id, hid_client_id, now),
    {
        if self.position_of_target(&hid_client_id).is_some() {
            return Err(PairingError::TargetAlreadyPaired);
        }
        if self.position(id).is_some() {
            return Err(PairingError::IdCollision);
        }
        let session = Session::opened_at(id, commander_id, hid_client_id, now);
        self.sessions.push(session);
        Ok(id)
    }

    /// Pairs `commander_id` with the target `hid_client_id` in a new session
    /// with a random identifier, starting at the current instant.
    ///
    /// The result and the table afterwards are what `create_session_with`
    /// gives for the identifier drawn, a version-4 UUID, and the instant
    /// that the clock shows. A target that already has a session is refused.
    /// Otherwise the pairing succeeds, unless the identifier drawn is that of
    /// a session in the table: on a table that holds no session with such
    /// an identifier, and on an empty table above all, a target that is not
    /// paired is always paired.
    pub fn create_session(&mut self, commander_id: String, hid_client_id: String) -> (r: Result<
        SessionId,
        PairingError,
    >)
        requires
            old(self).wf(),
        ensures
            final(self).wf(),
            target_paired(old(self)@, hid_client_id@) ==> r == Err::<SessionId, PairingError>(
                PairingError::TargetAlreadyPaired,
            ),
            !target_paired(old(self)@, hid_client_id@) && !holds_random_id(old(self)@) ==> r is Ok,
            r is Err ==> final(self)@ == old(self)@,
            r matches Err(e) ==> e != PairingError::TargetNotFound,
            r matches Err(PairingError::TargetAlreadyPaired) ==> target_paired(old(self)@, hid_client_id@),
            r matches Err(PairingError::IdCollision) ==> exists|drawn: SessionId|
                drawn.is_v4() && #[trigger] has_id(old(self)@, drawn),
            r matches Ok(id) ==> id.is_v4() && !has_id(old(self)@, id) && !target_paired(
                old(self)@,
                hid_client_id@,
            ) && exists|now: Timestamp|
                final(self)@ == old(self)@.push(#[trigger] opened(id, commander_id, hid_client_id, now)),
            exists|drawn: SessionId, now: Timestamp|
                drawn.is_v4() && final(self)@ == #[trigger] with_pairing(
                    old(self)@,
                    drawn,
                    commander_id,
                    hid_client_id,
                    now,
                ) && r == match pairing_refusal(old(self)@, hid_client_id@, drawn) {
                    Some(e) => Err::<SessionId, PairingError>(e),
                    None => Ok::<SessionId, PairingError>(drawn),
                },
    {
        let id = SessionId::random();
        let now = Timestamp::now();
        let r = self.create_session_with(id, commander_id, hid_client_id, now);
        proof {
            if r is Ok {
                assert(self@ == old(self)@.push(opened(id, commander_id, hid_client_id, now)));
            }
            if r matches Err(PairingError::IdCollision) {
                assert(id.is_v4() && has_id(old(self)@, id));
                let i = index_of(old(self)@, id);
                assert(old(self)@[i].id.is_v4());
            }
            assert(id.is_v4() && self@ == with_pairing(old(self)@, id, commander_id, hid_client_id, now));
        }
        r
    }

    /// Ends session `session_id` and hands it back. Ending a session that the
    /// table does not hold changes nothing.
    pub fn end_session(&mut self, session_id: SessionId) -> (r: Option<Session>)
        requires
            old(self).wf(),
        ensures
            final(self).wf(),
            final(self)@ == without_id(old(self)@, session_id),
            !has_id(final(self)@, session_id),
            has_id(old(self)@, session_id) ==> r == Some(old(self)@[index_of(old(self)@, session_id)]),
            !has_id(old(self)@, session_id) ==> r is None,
    {
        proof {
            lemma_without_id(self@, session_id);
        }
        match self.position(session_id) {
            Some(i) => Some(self.sessions.remove(i)),
            None => None,
        }
    }

    /// The session with identifier `session_id`.
    pub fn get_session(&self, session_id: SessionId) -> (r: Option<&Session>)
        requires
            self.wf(),
        ensures
            has_id(self@, session_id) ==> r == Some(&self@[index_of(self@, session_id)]),
            !has_id(self@, session_id) ==> r is None,
    {
        match self.position(session_id) {
            Some(i) => {
                let found = &self.sessions[i];
                assert(*found == self@[index_of(self@, session_id)]);
                Some(found)
            },
            None => None,
        }
    }

    /// The session that drives the target named `client_id`.
    pub fn get_session_by_client(&self, client_id: &str) -> (r: Option<&Session>)
        requires
            self.wf(),
        ensures
            target_paired(self@, client_id@) ==> r == Some(&self@[index_of_target(self@, client_id@)]),
            !target_paired(self@, client_id@) ==> r is None,
    {
        let target = client_id.to_owned();
        match self.position_of_target(&target) {
            Some(i) => {
                let found = &self.sessions[i];
                assert(*found == self@[index_of_target(self@, client_id@)]);
                Some(found)
            },
            None => None,
        }
    }

    /// Records activity on session `session_id` at `now`. A session that the
    /// table does not hold is no error: nothing changes.
    pub fn update_session_activity_at(&mut self, session_id: SessionId, now: Timestamp)
        requires
            old(self).wf(),
        ensures
            final(self).wf(),
            final(self)@ == with_activity(old(self)@, session_id, now),
    {
        match self.position(session_id) {
            Some(i) => {
                self.sessions[i].update_activity_at(now);
                proof {
                    assert(self.sessions@ =~= old(self)@.update(
                        i as int,
                        touched(old(self)@[i as int], now),
                    ));
                    lemma_with_activity(old(self)@, session_id, now);
                }
            },
            None => {},
        }
    }

    /// Records activity on session `session_id` at the current instant.
    pub fn update_session_activity(&mut self, session_id: SessionId)
        requires
            old(self).wf(),
        ensures
            final(self).wf(),
            exists|now: Timestamp| final(self)@ == #[trigger] with_activity(old(self)@, session_id, now),
    {
        let now = Timestamp::now();
        self.update_session_activity_at(session_id, now);
        assert(self@ == with_activity(old(self)@, session_id, now));
    }

    /// Removes every session that has been idle for more than `timeout_mins`
    /// minutes at `now`, and returns the removed sessions in the order in
    /// which they were created. The others stay as they are.
    pub fn cleanup_expired_sessions_at(&mut self, now: Timestamp, timeout_mins: u64) -> (expired: Vec<
        Session,
    >)
        requires
            old(self).wf(),
        ensures
            final(self).wf(),
            expired@ == expired_part(old(self)@, now, timeout_mins),
            final(self)@ == live_part(old(self)@, now, timeout_mins),
    {
        let mut expired: Vec<Session> = Vec::new();
        let mut i: usize = 0;
        let ghost orig = self.sessions@;
        let ghost mut k: int = 0;
        proof {
            reveal(Seq::filter);
            assert(orig.take(0) =~= Seq::<Session>::empty());
        }
        while i < self.sessions.len()
            invariant
                0 <= i <= self.sessions.len(),
                k == i + expired.len(),
                0 <= k <= orig.len(),
                self.sessions.len() - i == orig.len() - k,
                self.sessions@.subrange(0, i as int) == live_part(orig.take(k), now, timeout_mins),
                self.sessions@.subrange(i as int, self.sessions.len() as int) == orig.subrange(
                    k,
                    orig.len() as int,
                ),
                expired@ == expired_part(orig.take(k), now, timeout_mins),
            decreases self.sessions.len() - i,
        {
            let ghost before = self.sessions@;
            proof {
                lemma_parts_step(orig, k, now, timeout_mins);
                assert(before[i as int] == before.subrange(i as int, before.len() as int)[0]);
                assert(before[i as int] == orig[k]);
            }
            if self.sessions[i].is_expired_at(&now, timeout_mins) {
                let session = self.sessions.remove(i);
                expired.push(session);
                proof {
                    assert(self.sessions@.subrange(0, i as int) =~= before.subrange(0, i as int));
                    assert(self.sessions@.subrange(i as int, self.sessions.len() as int)
                        =~= before.subrange(i as int, before.len() as int).subrange(
                        1,
                        before.len() - i,
                    ));
                    assert(before.subrange(i as int, before.len() as int).subrange(1, before.len() - i)
                        =~= orig.subrange(k + 1, orig.len() as int));
                    k = k + 1;
                }
            } else {
                proof {
                    assert(before.subrange(0, i + 1) =~= before.subrange(0, i as int).push(
                        before[i as int],
                    ));
                    assert(before.subrange(i + 1, before.len() as int) =~= before.subrange(
                        i as int,
                        before.len() as int,
                    ).subrange(1, before.len() - i));
                    assert(before.subrange(i as int, before.len() as int).subrange(1, before.len() - i)
                        =~= orig.subrange(k + 1, orig.len() as int));
                    k = k + 1;
                }
                i += 1;
            }
        }
        proof {
            assert(orig.take(k) =~= orig);
            assert(self.sessions@.subrange(0, i as int) =~= self.sessions@);
            lemma_live_part(orig, now, timeout_mins);
        }
        expired
    }

    /// Removes every session that has been idle for more than `timeout_mins`
    /// minutes by the system clock, and returns the removed sessions.
    pub fn cleanup_expired_sessions(&mut self, timeout_mins: u64) -> (expired: Vec<Session>)
        requires
            old(self).wf(),
        ensures
            final(self).wf(),
            exists|now: Timestamp|
                expired@ == #[trigger] expired_part(old(self)@, now, timeout_mins) && final(self)@
                    == live_part(old(self)@, now, timeout_mins),
    {
        let now = Timestamp::now();
        let expired = self.cleanup_expired_sessions_at(now, timeout_mins);
        assert(expired@ == expired_part(old(self)@, now, timeout_mins) && self@ == live_part(
            old(self)@,
            now,
            timeout_mins,
        ));
        expired
    }

    /// Every session of the table, in the order in which they were created.
    pub fn list_sessions(&self) -> (r: Vec<&Session>)
        ensures
            r@.len() == self@.len(),
            forall|i: int| 0 <= i < r@.len() ==> *(#[trigger] r@[i]) == self@[i],
    {
        let mut r: Vec<&Session> = Vec::new();
        let mut i: usize = 0;
        while i < self.sessions.len()
            invariant
                0 <= i <= self.sessions.len(),
                r@.len() == i,
                forall|j: int| 0 <= j < i ==> *(#[trigger] r@[j]) == self.sessions@[j],
            decreases self.sessions.len() - i,
        {
            r.push(&self.sessions[i]);
            i += 1;
        }
        r
    }
}

} // verus!
