//! Pairing sessions: which web application (by Firebase user) may drive the
//! devices, under which pairing token, and where it wants webhooks sent.
use crate::environment::{is_uuid_v4_text, new_uuid_string, unix_time_secs};
use crate::keyed::{
    keys_unique, lemma_map_of_all, lemma_map_of_index, lemma_map_of_keys, lemma_map_of_len, map_of,
    Keyed, KeyedVec,
};
use vstd::prelude::*;

verus! {

/// One paired web application.
#[derive(Debug, Clone)]
pub struct Session {
    pub session_id: String,
    pub firebase_uid: String,
    pub pairing_token: String,
    pub react_webhook_url: Option<String>,
    pub created_at: u64,
}

impl Keyed for Session {
    open spec fn spec_key(&self) -> Seq<char> {
        self.session_id@
    }

    fn key(&self) -> (k: &String) {
        &self.session_id
    }
}

/// `s` with its webhook URL set to `url`.
pub open spec fn with_webhook_url(s: Session, url: String) -> Session {
    Session {
        session_id: s.session_id,
        firebase_uid: s.firebase_uid,
        pairing_token: s.pairing_token,
        react_webhook_url: Some(url),
        created_at: s.created_at,
    }
}

/// Setting a session's webhook URL to `url` leaves it holding exactly `url`,
/// whatever URL it held before, and changes nothing else about it.
pub proof fn lemma_webhook_url_is_set(s: Session, url: String)
    ensures
        with_webhook_url(s, url).react_webhook_url == Some(url),
        with_webhook_url(s, url).session_id == s.session_id,
        with_webhook_url(s, url).firebase_uid == s.firebase_uid,
        with_webhook_url(s, url).pairing_token == s.pairing_token,
        with_webhook_url(s, url).created_at == s.created_at,
{
}

/// Setting the webhook URL twice leaves the second one: the first is forgotten.
pub proof fn lemma_webhook_url_last_wins(s: Session, first: String, second: String)
    ensures
        with_webhook_url(with_webhook_url(s, first), second) == with_webhook_url(s, second),
        with_webhook_url(with_webhook_url(s, first), second).react_webhook_url == Some(second),
{
}

/// `k` names a session of `m` created no later than any other.
pub open spec fn is_oldest(m: Map<Seq<char>, Session>, k: Seq<char>) -> bool {
    &&& m.contains_key(k)
    &&& forall|j: Seq<char>| #[trigger] m.contains_key(j) ==> m[k].created_at <= m[j].created_at
}

/// `after` is `before` once room has been made for one more session: where
/// `before` already holds `capacity` sessions or more, one of its oldest is gone.
pub open spec fn made_room(
    before: Map<Seq<char>, Session>,
    after: Map<Seq<char>, Session>,
    capacity: usize,
) -> bool {
    if before.len() >= capacity && before.len() > 0 {
        exists|k: Seq<char>| is_oldest(before, k) && after == before.remove(k)
    } else {
        after == before
    }
}

/// `after` is `before` with room made (as `made_room` says) and then `s` stored
/// under its id.
pub open spec fn session_added(
    before: Map<Seq<char>, Session>,
    after: Map<Seq<char>, Session>,
    capacity: usize,
    s: Session,
) -> bool {
    exists|mid: Map<Seq<char>, Session>|
        made_room(before, mid, capacity) && after == #[trigger] mid.insert(s.session_id@, s)
}

/// Some session of `m` has pairing token `token`.
pub open spec fn token_known(m: Map<Seq<char>, Session>, token: Seq<char>) -> bool {
    exists|k: Seq<char>| #[trigger] m.contains_key(k) && m[k].pairing_token@ == token
}

/// Creating a session never takes a manager that holds at most `capacity`
/// sessions (with room for at least one) above `capacity`.
pub proof fn lemma_session_count_bounded(
    before: Map<Seq<char>, Session>,
    after: Map<Seq<char>, Session>,
    capacity: usize,
    s: Session,
)
    requires
        before.dom().finite(),
        before.len() <= capacity,
        capacity >= 1,
        session_added(before, after, capacity, s),
    ensures
        after.dom().finite(),
        after.len() <= capacity,
{
    let mid = choose|mid: Map<Seq<char>, Session>|
        made_room(before, mid, capacity) && after == #[trigger] mid.insert(s.session_id@, s);
    if before.len() >= capacity && before.len() > 0 {
        let k = choose|k: Seq<char>| is_oldest(before, k) && mid == before.remove(k);
        assert(mid.len() == before.len() - 1);
    }
    assert(mid.dom().finite());
    if mid.contains_key(s.session_id@) {
        assert(after.dom() =~= mid.dom());
    } else {
        assert(after.dom() =~= mid.dom().insert(s.session_id@));
    }
}

/// A session just created is stored under its id, and its pairing token is
/// that of some stored session (so validating it finds a session).
pub proof fn lemma_created_session_validates(
    before: Map<Seq<char>, Session>,
    after: Map<Seq<char>, Session>,
    capacity: usize,
    s: Session,
)
    requires
        session_added(before, after, capacity, s),
    ensures
        after.contains_key(s.session_id@),
        after[s.session_id@] == s,
        token_known(after, s.pairing_token@),
{
    let mid = choose|mid: Map<Seq<char>, Session>|
        made_room(before, mid, capacity) && after == #[trigger] mid.insert(s.session_id@, s);
    assert(after.contains_key(s.session_id@));
}

/// Creating a session keeps every session that it does not make room by dropping:
/// all but at most one session, and that one only when the manager was full.
pub proof fn lemma_created_session_keeps_others(
    before: Map<Seq<char>, Session>,
    after: Map<Seq<char>, Session>,
    capacity: usize,
    s: Session,
    k: Seq<char>,
)
    requires
        session_added(before, after, capacity, s),
        before.contains_key(k),
        k != s.session_id@,
        before.len() < capacity || !is_oldest(before, k),
    ensures
        after.contains_key(k),
        after[k] == before[k],
{
    let mid = choose|mid: Map<Seq<char>, Session>|
        made_room(before, mid, capacity) && after == #[trigger] mid.insert(s.session_id@, s);
    if before.len() >= capacity && before.len() > 0 {
        let o = choose|o: Seq<char>| is_oldest(before, o) && mid == before.remove(o);
        assert(o != k);
    }
}

/// A session once revoked is gone: revoking it again finds nothing.
pub proof fn lemma_revoke_twice(m: Map<Seq<char>, Session>, session_id: Seq<char>)
    ensures
        !m.remove(session_id).contains_key(session_id),
        m.remove(session_id).remove(session_id) == m.remove(session_id),
{
    assert(m.remove(session_id).remove(session_id) =~= m.remove(session_id));
}

/// Setting a webhook URL changes neither which sessions exist nor which
/// pairing tokens they hold.
pub proof fn lemma_webhook_url_keeps_tokens(
    m: Map<Seq<char>, Session>,
    session_id: Seq<char>,
    url: String,
    token: Seq<char>,
)
    requires
        m.contains_key(session_id),
    ensures
        m.insert(session_id, with_webhook_url(m[session_id], url)).dom() == m.dom(),
        token_known(m.insert(session_id, with_webhook_url(m[session_id], url)), token) == token_known(
            m,
            token,
        ),
{
    let n = m.insert(session_id, with_webhook_url(m[session_id], url));
    assert(n.dom() =~= m.dom());
    if token_known(m, token) {
        let k = choose|k: Seq<char>| #[trigger] m.contains_key(k) && m[k].pairing_token@ == token;
        assert(n.contains_key(k) && n[k].pairing_token@ == token);
    }
    if token_known(n, token) {
        let k = choose|k: Seq<char>| #[trigger] n.contains_key(k) && n[k].pairing_token@ == token;
        assert(m.contains_key(k) && m[k].pairing_token@ == token);
    }
}

/// What looking up pairing token `token` among `m` may give: a stored session
/// that holds it, or nothing exactly when no stored session holds it.
pub open spec fn token_lookup(m: Map<Seq<char>, Session>, token: Seq<char>, r: Option<Session>) -> bool {
    match r {
        Some(s) => m.contains_key(s.session_id@) && m[s.session_id@] == s && s.pairing_token@ == token,
        None => !token_known(m, token),
    }
}

pub open spec fn deref_session(r: Option<&Session>) -> Option<Session> {
    match r {
        Some(s) => Some(*s),
        None => None,
    }
}

/// The session stored under `k` is the only one that holds its pairing token.
pub open spec fn sole_holder(m: Map<Seq<char>, Session>, k: Seq<char>) -> bool {
    &&& m.contains_key(k)
    &&& forall|j: Seq<char>|
        #[trigger] m.contains_key(j) && m[j].pairing_token@ == m[k].pairing_token@ ==> j == k
}

/// Looking up the token of a session that alone holds it finds that session.
pub proof fn lemma_sole_holder_is_found(m: Map<Seq<char>, Session>, k: Seq<char>, r: Option<Session>)
    requires
        sole_holder(m, k),
        token_lookup(m, m[k].pairing_token@, r),
    ensures
        r == Some(m[k]),
{
    match r {
        Some(s) => {
            assert(m.contains_key(s.session_id@) && m[s.session_id@].pairing_token@ == m[k].pairing_token@);
        },
        None => {
            assert(token_known(m, m[k].pairing_token@));
        },
    }
}

/// Creating another session, with another pairing token, keeps a session that
/// alone holds its token, unchanged and still alone in holding it, unless it
/// is dropped to make room (only when the manager is full and it is among the
/// oldest).
pub proof fn lemma_sole_holder_survives_creation(
    before: Map<Seq<char>, Session>,
    after: Map<Seq<char>, Session>,
    capacity: usize,
    s: Session,
    k: Seq<char>,
)
    requires
        session_added(before, after, capacity, s),
        sole_holder(before, k),
        k != s.session_id@,
        s.pairing_token@ != before[k].pairing_token@,
        before.len() < capacity || !is_oldest(before, k),
    ensures
        sole_holder(after, k),
        after[k] == before[k],
{
    lemma_created_session_keeps_others(before, after, capacity, s, k);
    let mid = choose|mid: Map<Seq<char>, Session>|
        made_room(before, mid, capacity) && after == #[trigger] mid.insert(s.session_id@, s);
    assert forall|j: Seq<char>| #[trigger] after.contains_key(j) && after[j].pairing_token@
        == after[k].pairing_token@ implies j == k by {
        if j != s.session_id@ {
            assert(mid.contains_key(j) && mid[j] == after[j]);
            if before.len() >= capacity && before.len() > 0 {
                let o = choose|o: Seq<char>| is_oldest(before, o) && mid == before.remove(o);
                assert(before.contains_key(j) && before[j] == mid[j]);
            }
        }
    }
}

/// Revoking another session keeps a session that alone holds its token,
/// unchanged and still alone in holding it.
pub proof fn lemma_sole_holder_survives_revoke(m: Map<Seq<char>, Session>, session_id: Seq<char>, k: Seq<char>)
    requires
        sole_holder(m, k),
        k != session_id,
    ensures
        sole_holder(m.remove(session_id), k),
        m.remove(session_id)[k] == m[k],
{
}

/// Setting a webhook URL keeps every session alone in holding its token as it
/// was, with its id, user, pairing token and creation time unchanged.
pub proof fn lemma_sole_holder_survives_webhook_url(
    m: Map<Seq<char>, Session>,
    session_id: Seq<char>,
    url: String,
    k: Seq<char>,
)
    requires
        sole_holder(m, k),
        m.contains_key(session_id),
    ensures
        sole_holder(m.insert(session_id, with_webhook_url(m[session_id], url)), k),
        m.insert(session_id, with_webhook_url(m[session_id], url))[k].session_id == m[k].session_id,
        m.insert(session_id, with_webhook_url(m[session_id], url))[k].firebase_uid == m[k].firebase_uid,
        m.insert(session_id, with_webhook_url(m[session_id], url))[k].pairing_token == m[k].pairing_token,
        m.insert(session_id, with_webhook_url(m[session_id], url))[k].created_at == m[k].created_at,
{
    let n = m.insert(session_id, with_webhook_url(m[session_id], url));
    assert forall|j: Seq<char>| #[trigger] n.contains_key(j) && n[j].pairing_token@ == n[k].pairing_token@ implies j == k by {
        assert(m.contains_key(j) && m[j].pairing_token@ == m[k].pairing_token@);
    }
}

/// One change to the sessions, as the manager's operations make it.
pub enum SessionOp {
    /// A session created (as `create_session` or `add_session` does).
    Create(Session),
    /// The session with this id revoked.
    Revoke(Seq<char>),
    /// The webhook URL of the session with this id set.
    SetWebhookUrl(Seq<char>, String),
}

/// `after` is what `op` makes of `before`, as the contract of the operation
/// that makes it states, in a manager that keeps at most `capacity` sessions.
pub open spec fn op_step(
    before: Map<Seq<char>, Session>,
    after: Map<Seq<char>, Session>,
    capacity: usize,
    op: SessionOp,
) -> bool {
    match op {
        SessionOp::Create(s) => session_added(before, after, capacity, s),
        SessionOp::Revoke(id) => after == before.remove(id),
        SessionOp::SetWebhookUrl(id, url) => if before.contains_key(id) {
            after == before.insert(id, with_webhook_url(before[id], url))
        } else {
            after == before
        },
    }
}

/// `states` are the sessions before and after each of `ops` in turn.
pub open spec fn is_trace(states: Seq<Map<Seq<char>, Session>>, ops: Seq<SessionOp>, capacity: usize) -> bool {
    &&& states.len() == ops.len() + 1
    &&& forall|i: int| 0 <= i < ops.len() ==> #[trigger] op_step(states[i], states[i + 1], capacity, ops[i])
}

/// `t` is `s` but perhaps for its webhook URL.
pub open spec fn same_pairing(t: Session, s: Session) -> bool {
    &&& t.session_id == s.session_id
    &&& t.firebase_uid == s.firebase_uid
    &&& t.pairing_token == s.pairing_token
    &&& t.created_at == s.created_at
}

/// A session just created with a pairing token that no other session holds is
/// alone in holding it.
proof fn lemma_created_session_sole_holder(
    before: Map<Seq<char>, Session>,
    after: Map<Seq<char>, Session>,
    capacity: usize,
    s: Session,
)
    requires
        session_added(before, after, capacity, s),
        !token_known(before, s.pairing_token@),
    ensures
        sole_holder(after, s.session_id@),
        after[s.session_id@] == s,
{
    let mid = choose|mid: Map<Seq<char>, Session>|
        made_room(before, mid, capacity) && after == #[trigger] mid.insert(s.session_id@, s);
    assert forall|j: Seq<char>| #[trigger] after.contains_key(j) && after[j].pairing_token@
        == after[s.session_id@].pairing_token@ implies j == s.session_id@ by {
        if j != s.session_id@ {
            assert(mid.contains_key(j) && mid[j] == after[j]);
            if before.len() >= capacity && before.len() > 0 {
                let o = choose|o: Seq<char>| is_oldest(before, o) && mid == before.remove(o);
            }
            assert(before.contains_key(j) && before[j].pairing_token@ == s.pairing_token@);
        }
    }
}

/// One operation that keeps session `k`, and is no creation of a session with
/// its id or its pairing token, keeps it alone in holding its token, with its
/// id, user, token and creation time as they were.
proof fn lemma_step_keeps_sole_holder(
    before: Map<Seq<char>, Session>,
    after: Map<Seq<char>, Session>,
    capacity: usize,
    op: SessionOp,
    k: Seq<char>,
)
    requires
        op_step(before, after, capacity, op),
        sole_holder(before, k),
        after.contains_key(k),
        op matches SessionOp::Create(c) ==> c.session_id@ != k && c.pairing_token@ != before[k].pairing_token@,
    ensures
        sole_holder(after, k),
        same_pairing(after[k], before[k]),
{
    match op {
        SessionOp::Create(c) => {
            let mid = choose|mid: Map<Seq<char>, Session>|
                made_room(before, mid, capacity) && after == #[trigger] mid.insert(c.session_id@, c);
            assert(mid.contains_key(k));
            if before.len() >= capacity && before.len() > 0 {
                let o = choose|o: Seq<char>| is_oldest(before, o) && mid == before.remove(o);
                assert(o != k);
            }
            assert(after[k] == before[k]);
            assert forall|j: Seq<char>| #[trigger] after.contains_key(j) && after[j].pairing_token@
                == after[k].pairing_token@ implies j == k by {
                assert(j != c.session_id@);
                assert(mid.contains_key(j) && mid[j] == after[j]);
                if before.len() >= capacity && before.len() > 0 {
                    let o = choose|o: Seq<char>| is_oldest(before, o) && mid == before.remove(o);
                }
                assert(before.contains_key(j) && before[j] == mid[j]);
            }
        },
        SessionOp::Revoke(id) => {
            assert(id != k);
            lemma_sole_holder_survives_revoke(before, id, k);
        },
        SessionOp::SetWebhookUrl(id, url) => {
            if before.contains_key(id) {
                lemma_sole_holder_survives_webhook_url(before, id, url, k);
            }
        },
    }
}

/// Along a trace whose every state keeps session `k`, with no creation of a
/// session with its id or its pairing token, `k` stays alone in holding its
/// token, with its id, user, token and creation time as at the start.
proof fn lemma_trace_keeps_sole_holder(
    states: Seq<Map<Seq<char>, Session>>,
    ops: Seq<SessionOp>,
    capacity: usize,
    k: Seq<char>,
    i: int,
)
    requires
        is_trace(states, ops, capacity),
        sole_holder(states[0], k),
        0 <= i <= ops.len(),
        forall|j: int| 0 <= j <= ops.len() ==> (#[trigger] states[j]).contains_key(k),
        forall|j: int|
            0 <= j < ops.len() ==> (#[trigger] ops[j] matches SessionOp::Create(c) ==> c.session_id@ != k
                && c.pairing_token@ != states[0][k].pairing_token@),
    ensures
        sole_holder(states[i], k),
        same_pairing(states[i][k], states[0][k]),
    decreases i,
{
    if i > 0 {
        lemma_trace_keeps_sole_holder(states, ops, capacity, k, i - 1);
        assert(op_step(states[i - 1], states[i - 1 + 1], capacity, ops[i - 1]));
        assert(states[i].contains_key(k));
        lemma_step_keeps_sole_holder(states[i - 1], states[i], capacity, ops[i - 1], k);
    }
}

/// A pairing token validates to its session for as long as that session is
/// kept: where `s` was created (into `states[0]`) with a pairing token that no
/// other session held, and after any sequence of creations of other sessions
/// with other pairing tokens, revocations and webhook-URL changes that neither
/// revokes `s` nor drops it to make room, looking up `s`'s pairing token finds
/// the session with `s`'s id, user, pairing token and creation time.
pub proof fn lemma_pairing_token_validates_while_kept(
    before: Map<Seq<char>, Session>,
    capacity: usize,
    s: Session,
    ops: Seq<SessionOp>,
    states: Seq<Map<Seq<char>, Session>>,
    r: Option<Session>,
)
    requires
        session_added(before, states[0], capacity, s),
        !token_known(before, s.pairing_token@),
        is_trace(states, ops, capacity),
        forall|j: int| 0 <= j <= ops.len() ==> (#[trigger] states[j]).contains_key(s.session_id@),
        forall|j: int|
            0 <= j < ops.len() ==> (#[trigger] ops[j] matches SessionOp::Create(c) ==> c.session_id@
                != s.session_id@ && c.pairing_token@ != s.pairing_token@),
        token_lookup(states.last(), s.pairing_token@, r),
    ensures
        r matches Some(t) && same_pairing(t, s),
{
    let k = s.session_id@;
    lemma_created_session_sole_holder(before, states[0], capacity, s);
    lemma_trace_keeps_sole_holder(states, ops, capacity, k, ops.len() as int);
    let last = states[ops.len() as int];
    assert(states.last() == last);
    lemma_sole_holder_is_found(last, k, r);
}

/// The sessions, keyed by session id, with the most that may be kept.
pub struct SessionManager {
    sessions: KeyedVec<Session>,
    max_sessions: usize,
}

impl View for SessionManager {
    type V = Map<Seq<char>, Session>;

    closed spec fn view(&self) -> Map<Seq<char>, Session> {
        self.sessions@
    }
}

impl SessionManager {
    /// The number of sessions past which the oldest is dropped.
    pub closed spec fn capacity(&self) -> usize {
        self.max_sessions
    }

    /// Each session is stored under its own id, and there are finitely many.
    pub proof fn lemma_stored_under_own_id(&self)
        ensures
            self@.dom().finite(),
            forall|k: Seq<char>| #[trigger] self@.contains_key(k) ==> self@[k].session_id@ == k,
    {
        lemma_map_of_keys(self.sessions.entries());
    }

    pub fn new(max_sessions: usize) -> (m: Self)
        ensures
            m@ == Map::<Seq<char>, Session>::empty(),
            m.capacity() == max_sessions,
    {
        SessionManager { sessions: KeyedVec::new(), max_sessions }
    }

    /// Makes room for one more session: where the manager is full, drops one of
    /// the sessions created earliest.
    fn make_room(&mut self)
        ensures
            final(self).capacity() == old(self).capacity(),
            made_room(old(self)@, final(self)@, old(self).capacity()),
    {
        let n = self.sessions.len();
        if n < self.max_sessions || n == 0 {
            return;
        }
        let items = self.sessions.items();
        proof {
            lemma_map_of_all(items@);
        }
        let mut oldest: usize = 0;
        let mut i: usize = 1;
        while i < n
            invariant
                n == items@.len(),
                n > 0,
                oldest < n,
                1 <= i <= n,
                forall|j: int| 0 <= j < i ==> items@[oldest as int].created_at <= #[trigger] items@[j].created_at,
            decreases n - i,
        {
            if items[i].created_at < items[oldest].created_at {
                oldest = i;
            }
            i = i + 1;
        }
        let id = items[oldest].session_id.clone();
        let ghost before = self@;
        proof {
            lemma_map_of_index(items@, oldest as int);
            assert(is_oldest(before, id@)) by {
                assert forall|j: Seq<char>| #[trigger] before.contains_key(j) implies before[id@].created_at
                    <= before[j].created_at by {
                    let k = choose|k: int| 0 <= k < items@.len() && #[trigger] items@[k].spec_key() == j;
                    lemma_map_of_index(items@, k);
                }
            }
        }
        self.sessions.remove(id.as_str());
    }

    /// Stores a new session for `firebase_uid` under the given id and pairing
    /// token, first making room as `made_room` says.
    pub fn add_session(
        &mut self,
        firebase_uid: String,
        session_id: String,
        pairing_token: String,
        created_at: u64,
    ) -> (s: Session)
        ensures
            s.session_id == session_id,
            s.firebase_uid == firebase_uid,
            s.pairing_token == pairing_token,
            s.react_webhook_url is None,
            s.created_at == created_at,
            final(self).capacity() == old(self).capacity(),
            session_added(old(self)@, final(self)@, old(self).capacity(), s),
    {
        self.make_room();
        let ghost mid = self@;
        let session = Session {
            session_id: session_id.clone(),
            firebase_uid,
            pairing_token,
            react_webhook_url: None,
            created_at,
        };
        let stored = Session {
            session_id: session.session_id.clone(),
            firebase_uid: session.firebase_uid.clone(),
            pairing_token: session.pairing_token.clone(),
            react_webhook_url: None,
            created_at,
        };
        self.sessions.insert(stored);
        assert(self@ == mid.insert(session.session_id@, session));
        session
    }

    /// Creates a session for `firebase_uid` with a fresh random id and pairing
    /// token, stamped with the current time, first making room as `made_room` says.
    pub fn create_session(&mut self, firebase_uid: String) -> (s: Session)
        ensures
            s.firebase_uid == firebase_uid,
            s.react_webhook_url is None,
            is_uuid_v4_text(s.session_id@),
            is_uuid_v4_text(s.pairing_token@),
            final(self).capacity() == old(self).capacity(),
            session_added(old(self)@, final(self)@, old(self).capacity(), s),
    {
        let session_id = new_uuid_string();
        let pairing_token = new_uuid_string();
        let created_at = unix_time_secs();
        self.add_session(firebase_uid, session_id, pairing_token, created_at)
    }

    /// A session whose pairing token is `token`, if any has it.
    pub fn validate_pairing_token(&self, token: &str) -> (r: Option<&Session>)
        ensures
            token_lookup(self@, token@, deref_session(r)),
    {
        let items = self.sessions.items();
        proof {
            lemma_map_of_all(items@);
        }
        let wanted = token.to_owned();
        let n = items.len();
        let mut i: usize = 0;
        while i < n
            invariant
                n == items@.len(),
                i <= n,
                wanted@ == token@,
                keys_unique(items@),
                self@ == map_of(items@),
                forall|j: int| 0 <= j < i ==> (#[trigger] items@[j]).pairing_token@ != token@,
            decreases n - i,
        {
            if items[i].pairing_token == wanted {
                proof {
                    lemma_map_of_index(items@, i as int);
                }
                return Some(&items[i]);
            }
            i = i + 1;
        }
        assert(!token_known(self@, token@)) by {
            if token_known(self@, token@) {
                let k = choose|k: Seq<char>| #[trigger] self@.contains_key(k) && self@[k].pairing_token@ == token@;
                let j = choose|j: int| 0 <= j < items@.len() && #[trigger] items@[j].spec_key() == k;
            }
        }
        None
    }

    /// Drops the session `session_id`; true if there was one.
    pub fn revoke_session(&mut self, session_id: &str) -> (r: bool)
        ensures
            r == old(self)@.contains_key(session_id@),
            final(self)@ == old(self)@.remove(session_id@),
            final(self).capacity() == old(self).capacity(),
    {
        self.sessions.remove(session_id).is_some()
    }

    /// All sessions, earliest created first.
    pub fn list_sessions(&self) -> (r: Vec<&Session>)
        ensures
            r@.len() == self@.len(),
            forall|i: int|
                0 <= i < r@.len() ==> #[trigger] self@.contains_key(r@[i].session_id@)
                    && self@[r@[i].session_id@] == *r@[i],
            forall|i: int, j: int|
                0 <= i < j < r@.len() ==> #[trigger] r@[i].session_id@ != #[trigger] r@[j].session_id@,
            forall|i: int, j: int|
                0 <= i <= j < r@.len() ==> #[trigger] r@[i].created_at <= #[trigger] r@[j].created_at,
    {
        let items = self.sessions.items();
        proof {
            lemma_map_of_all(items@);
            lemma_map_of_len(items@);
        }
        let n = items.len();
        let mut sorted: Vec<&Session> = Vec::new();
        let mut i: usize = 0;
        while i < n
            invariant
                n == items@.len(),
                i <= n,
                keys_unique(items@),
                sorted@.len() == i,
                forall|a: int|
                    0 <= a < sorted@.len() ==> exists|b: int|
                        0 <= b < i && #[trigger] sorted@[a] == #[trigger] items@[b],
                forall|a: int, b: int|
                    0 <= a < b < sorted@.len() ==> #[trigger] sorted@[a].session_id@
                        != #[trigger] sorted@[b].session_id@,
                forall|a: int, b: int|
                    0 <= a <= b < sorted@.len() ==> #[trigger] sorted@[a].created_at
                        <= #[trigger] sorted@[b].created_at,
            decreases n - i,
        {
            let x = &items[i];
            let m = sorted.len();
            let mut pos: usize = 0;
            while pos < m && sorted[pos].created_at <= x.created_at
                invariant
                    m == sorted@.len(),
                    pos <= m,
                    forall|a: int| 0 <= a < pos ==> (#[trigger] sorted@[a]).created_at <= x.created_at,
                decreases m - pos,
            {
                pos = pos + 1;
            }
            let ghost old_sorted = sorted@;
            proof {
                assert forall|a: int| pos <= a < m implies x.created_at < (#[trigger] old_sorted[a]).created_at by {
                    assert(old_sorted[pos as int].created_at <= old_sorted[a].created_at);
                }
                assert forall|a: int| 0 <= a < m implies (#[trigger] old_sorted[a]).session_id@ != x.session_id@ by {
                    let b = choose|b: int| 0 <= b < i && #[trigger] old_sorted[a] == #[trigger] items@[b];
                    assert(items@[b].spec_key() != items@[i as int].spec_key());
                }
            }
            sorted.insert(pos, x);
            proof {
                assert forall|a: int| 0 <= a < sorted@.len() implies exists|b: int|
                    0 <= b < i + 1 && #[trigger] sorted@[a] == #[trigger] items@[b] by {
                    if a < pos {
                        assert(sorted@[a] == old_sorted[a]);
                        let b = choose|b: int| 0 <= b < i && #[trigger] old_sorted[a] == #[trigger] items@[b];
                        assert(sorted@[a] == items@[b]);
                    } else if a == pos {
                        assert(sorted@[a] == items@[i as int]);
                    } else {
                        assert(sorted@[a] == old_sorted[a - 1]);
                        let b = choose|b: int| 0 <= b < i && #[trigger] old_sorted[a - 1] == #[trigger] items@[b];
                        assert(sorted@[a] == items@[b]);
                    }
                }
                assert forall|a: int, b: int|
                    0 <= a < b < sorted@.len() implies #[trigger] sorted@[a].session_id@
                    != #[trigger] sorted@[b].session_id@ by {
                    let oa = if a < pos { a } else if a == pos { -1 } else { a - 1 };
                    let ob = if b < pos { b } else if b == pos { -1 } else { b - 1 };
                    if oa >= 0 {
                        assert(sorted@[a] == old_sorted[oa]);
                    }
                    if ob >= 0 {
                        assert(sorted@[b] == old_sorted[ob]);
                    }
                }
                assert forall|a: int, b: int|
                    0 <= a <= b < sorted@.len() implies #[trigger] sorted@[a].created_at
                    <= #[trigger] sorted@[b].created_at by {
                    let oa = if a < pos { a } else if a == pos { -1 } else { a - 1 };
                    let ob = if b < pos { b } else if b == pos { -1 } else { b - 1 };
                    if oa >= 0 {
                        assert(sorted@[a] == old_sorted[oa]);
                    }
                    if ob >= 0 {
                        assert(sorted@[b] == old_sorted[ob]);
                    }
                }
            }
            i = i + 1;
        }
        proof {
            assert forall|a: int| 0 <= a < sorted@.len() implies #[trigger] self@.contains_key(
                sorted@[a].session_id@,
            ) && self@[sorted@[a].session_id@] == *sorted@[a] by {
                let b = choose|b: int| 0 <= b < n && #[trigger] sorted@[a] == #[trigger] items@[b];
                assert(items@[b].spec_key() == sorted@[a].session_id@);
            }
        }
        sorted
    }

    /// Sets the webhook URL of session `session_id`; true if there is such a session.
    pub fn set_react_webhook_url(&mut self, session_id: &str, url: String) -> (r: bool)
        ensures
            r == old(self)@.contains_key(session_id@),
            r ==> final(self)@ == old(self)@.insert(
                session_id@,
                with_webhook_url(old(self)@[session_id@], url),
            ),
            r ==> final(self)@.dom() == old(self)@.dom(),
            r ==> final(self)@[session_id@].react_webhook_url == Some(url),
            r ==> final(self)@[session_id@].session_id == old(self)@[session_id@].session_id,
            r ==> final(self)@[session_id@].firebase_uid == old(self)@[session_id@].firebase_uid,
            r ==> final(self)@[session_id@].pairing_token == old(self)@[session_id@].pairing_token,
            r ==> final(self)@[session_id@].created_at == old(self)@[session_id@].created_at,
            r ==> forall|k: Seq<char>| k != session_id@ && #[trigger] old(self)@.contains_key(k) ==> final(self)@[k] == old(self)@[k],
            !r ==> final(self)@ == old(self)@,
            final(self).capacity() == old(self).capacity(),
    {
        proof {
            self.lemma_stored_under_own_id();
        }
        let ghost before = self@;
        match self.sessions.remove(session_id) {
            Some(s) => {
                let updated = Session {
                    session_id: s.session_id,
                    firebase_uid: s.firebase_uid,
                    pairing_token: s.pairing_token,
                    react_webhook_url: Some(url),
                    created_at: s.created_at,
                };
                self.sessions.insert(updated);
                assert(self@ =~= before.insert(session_id@, with_webhook_url(before[session_id@], url)));
                true
            },
            None => {
                assert(self@ =~= before);
                false
            },
        }
    }
}

} // verus!
