//! The session manager: issues, refreshes and clears server-side sessions
//! keyed by an unguessable token, under a sliding inactivity window. A
//! session seen past its window is treated as absent and reclaimed lazily on
//! that access; clearing is unconditional and idempotent.

use vstd::prelude::*;
use vstd::string::StringExecFns;
use crate::errors::StoreError;
use crate::ids::fresh_id;

verus! {

/// One live session: the token is the capability, `user_email` the bound
/// principal, `last_activity` the start of the current inactivity window.
#[derive(Debug)]
pub struct Session {
    pub token: u128,
    pub user_email: String,
    pub last_activity: u64,
}

/// All live sessions plus the configured inactivity window (a policy
/// constant, not negotiated per request).
#[derive(Debug)]
pub struct Sessions {
    pub sessions: Vec<Session>,
    pub window: u64,
}

/// Whether some live session carries this token.
pub open spec fn has_token(ss: Seq<Session>, token: u128) -> bool {
    exists|i: int| 0 <= i < ss.len() && ss[i].token == token
}

/// The index of the session with this token (meaningful when one exists and
/// tokens are unique).
pub open spec fn session_index(ss: Seq<Session>, token: u128) -> int {
    choose|i: int| 0 <= i < ss.len() && ss[i].token == token
}

/// The session stored under this token.
pub open spec fn stored_session(ss: Seq<Session>, token: u128) -> Session {
    ss[session_index(ss, token)]
}

/// Exactly one session per token.
pub open spec fn tokens_unique(ss: Seq<Session>) -> bool {
    forall|i: int, j: int| 0 <= i < j < ss.len() ==> ss[i].token != ss[j].token
}

/// Whether a session is still inside its inactivity window at `now`.
pub open spec fn session_alive(s: Session, window: u64, now: u64) -> bool {
    now < s.last_activity + window
}

/// What `touch_and_read` returns: the bound principal when the token names
/// a session still inside its window, absent otherwise.
pub open spec fn spec_touch_result(
    ss: Seq<Session>,
    window: u64,
    token: u128,
    now: u64,
) -> Option<Seq<char>> {
    if has_token(ss, token) && session_alive(stored_session(ss, token), window, now) {
        Some(stored_session(ss, token).user_email@)
    } else {
        None
    }
}

/// Session state after `touch_and_read`: a live session's window is
/// restarted at `now`; an expired one is reclaimed; an unknown token
/// changes nothing.
pub open spec fn spec_touch_state(
    ss: Seq<Session>,
    window: u64,
    token: u128,
    now: u64,
) -> Seq<Session> {
    if has_token(ss, token) {
        let k = session_index(ss, token);
        if session_alive(ss[k], window, now) {
            ss.update(k, Session { last_activity: now, ..ss[k] })
        } else {
            ss.remove(k)
        }
    } else {
        ss
    }
}

/// Session state after `clear`: the token's session removed if present;
/// clearing an absent token changes nothing, so `clear` is idempotent.
pub open spec fn spec_clear_state(ss: Seq<Session>, token: u128) -> Seq<Session> {
    if has_token(ss, token) {
        ss.remove(session_index(ss, token))
    } else {
        ss
    }
}

impl Sessions {
    /// The manager's invariant: one session per token.
    pub open spec fn wf(self) -> bool {
        tokens_unique(self.sessions@)
    }

    /// A manager with no live sessions and the given inactivity window.
    pub fn new(window: u64) -> (r: Sessions)
        ensures
            r.wf(),
            r.sessions@.len() == 0,
            r.window == window,
    {
        Sessions { sessions: Vec::new(), window }
    }

    /// Finds the position of the session with this token, if any.
    fn find_session(&self, token: u128) -> (r: Option<usize>)
        ensures
            match r {
                Some(i) => i < self.sessions@.len() && self.sessions@[i as int].token == token,
                None => !has_token(self.sessions@, token),
            },
    {
        let mut i: usize = 0;
        while i < self.sessions.len()
            invariant
                i <= self.sessions@.len(),
                forall|j: int| 0 <= j < i ==> self.sessions@[j].token != token,
            decreases self.sessions@.len() - i,
        {
            if self.sessions[i].token == token {
                return Some(i);
            }
            i += 1;
        }
        None
    }

    /// Stores a session binding a caller-supplied token to `principal`,
    /// with the inactivity clock started at `now`: succeeds exactly when no
    /// live session carries that token; a taken token is refused with
    /// nothing changed.
    pub fn create_with_token(&mut self, token: u128, principal: &str, now: u64) -> (r: Result<
        u128,
        StoreError,
    >)
        requires
            old(self).wf(),
        ensures
            final(self).wf(),
            final(self).window == old(self).window,
            r is Ok <==> !has_token(old(self).sessions@, token),
            r matches Err(e) ==> e == StoreError::SessionError && final(self).sessions@ == old(
                self,
            ).sessions@,
            r matches Ok(t) ==> {
                &&& t == token
                &&& final(self).sessions@.len() == old(self).sessions@.len() + 1
                &&& final(self).sessions@.subrange(0, old(self).sessions@.len() as int) == old(
                    self,
                ).sessions@
                &&& final(self).sessions@.last().token == token
                &&& final(self).sessions@.last().user_email@ == principal@
                &&& final(self).sessions@.last().last_activity == now
                &&& has_token(final(self).sessions@, token)
            },
    {
        if let Some(_) = self.find_session(token) {
            return Err(StoreError::SessionError);
        }
        self.sessions.push(
            Session { token, user_email: String::from_str(principal), last_activity: now },
        );
        proof {
            let ss = final(self).sessions@;
            let n = old(self).sessions@.len() as int;
            assert(ss.subrange(0, n) =~= old(self).sessions@);
            assert(forall|i: int| 0 <= i < n ==> ss[i] == old(self).sessions@[i]);
            assert(forall|i: int| 0 <= i < n ==> ss[i].token != token);
            assert(ss[n].token == token);
        }
        Ok(token)
    }

    /// Issues a session binding a freshly drawn token to `principal`, with
    /// the inactivity clock started at `now`, and returns the token. The
    /// token is random, so only this call site cannot owe success: it
    /// succeeds exactly when the drawn token names no live session, which
    /// `create_with_token` states.
    pub fn create(&mut self, principal: &str, now: u64) -> (r: Result<u128, StoreError>)
        requires
            old(self).wf(),
        ensures
            final(self).wf(),
            final(self).window == old(self).window,
            r matches Err(e) ==> e == StoreError::SessionError && final(self).sessions@ == old(
                self,
            ).sessions@,
            r matches Ok(t) ==> {
                &&& !has_token(old(self).sessions@, t)
                &&& final(self).sessions@.len() == old(self).sessions@.len() + 1
                &&& final(self).sessions@.subrange(0, old(self).sessions@.len() as int) == old(
                    self,
                ).sessions@
                &&& final(self).sessions@.last().token == t
                &&& final(self).sessions@.last().user_email@ == principal@
                &&& final(self).sessions@.last().last_activity == now
                &&& has_token(final(self).sessions@, t)
            },
    {
        let token = fresh_id();
        self.create_with_token(token, principal, now)
    }

    /// On a request carrying `token`: if it names a session still inside
    /// its inactivity window, restarts the window at `now` and returns the
    /// bound principal; otherwise (unknown or expired) treats the session
    /// as absent, reclaiming an expired record.
    pub fn touch_and_read(&mut self, token: u128, now: u64) -> (r: Option<String>)
        requires
            old(self).wf(),
        ensures
            final(self).wf(),
            final(self).window == old(self).window,
            final(self).sessions@ == spec_touch_state(
                old(self).sessions@,
                old(self).window,
                token,
                now,
            ),
            match r {
                Some(p) => spec_touch_result(old(self).sessions@, old(self).window, token, now)
                    == Some(p@),
                None => spec_touch_result(old(self).sessions@, old(self).window, token, now)
                    is None,
            },
    {
        let idx = match self.find_session(token) {
            None => {
                return None;
            },
            Some(i) => i,
        };
        proof {
            lemma_session_index_agrees(self.sessions@, token, idx as int);
        }
        let s = self.sessions.remove(idx);
        let alive = if now >= s.last_activity {
            now - s.last_activity < self.window
        } else {
            true
        };
        if alive {
            let ns = Session { token: s.token, user_email: s.user_email, last_activity: now };
            let principal = ns.user_email.clone();
            self.sessions.insert(idx, ns);
            proof {
                let k = session_index(old(self).sessions@, token);
                assert(final(self).sessions@ =~= old(self).sessions@.update(
                    k,
                    Session { last_activity: now, ..old(self).sessions@[k] },
                ));
                lemma_session_update_keeps_unique(
                    old(self).sessions@,
                    k,
                    Session { last_activity: now, ..old(self).sessions@[k] },
                );
            }
            Some(principal)
        } else {
            proof {
                lemma_session_remove_keeps_unique(old(self).sessions@, idx as int);
            }
            None
        }
    }

    /// Deletes the session under this token unconditionally; clearing a
    /// token with no session is a no-op, so the operation is idempotent.
    pub fn clear(&mut self, token: u128)
        requires
            old(self).wf(),
        ensures
            final(self).wf(),
            final(self).window == old(self).window,
            final(self).sessions@ == spec_clear_state(old(self).sessions@, token),
    {
        match self.find_session(token) {
            None => {},
            Some(i) => {
                proof {
                    lemma_session_index_agrees(self.sessions@, token, i as int);
                }
                self.sessions.remove(i);
                proof {
                    lemma_session_remove_keeps_unique(old(self).sessions@, i as int);
                }
            },
        }
    }
}

/// With unique tokens, any position holding `token` is the `session_index`.
proof fn lemma_session_index_agrees(ss: Seq<Session>, token: u128, i: int)
    requires
        tokens_unique(ss),
        0 <= i < ss.len(),
        ss[i].token == token,
    ensures
        session_index(ss, token) == i,
        stored_session(ss, token) == ss[i],
        has_token(ss, token),
{
    let k = session_index(ss, token);
    assert(0 <= k < ss.len() && ss[k].token == token);
    if k < i {
        assert(ss[k].token != ss[i].token);
    } else if i < k {
        assert(ss[i].token != ss[k].token);
    }
}

/// Removing a session keeps tokens unique.
proof fn lemma_session_remove_keeps_unique(ss: Seq<Session>, k: int)
    requires
        tokens_unique(ss),
        0 <= k < ss.len(),
    ensures
        tokens_unique(ss.remove(k)),
{
    let q = ss.remove(k);
    assert forall|i: int, j: int| 0 <= i < j < q.len() implies q[i].token != q[j].token by {
        let oi = if i < k { i } else { i + 1 };
        let oj = if j < k { j } else { j + 1 };
        assert(q[i] == ss[oi]);
        assert(q[j] == ss[oj]);
    }
}

/// Replacing a session with one of the same token keeps tokens unique.
proof fn lemma_session_update_keeps_unique(ss: Seq<Session>, k: int, ns: Session)
    requires
        tokens_unique(ss),
        0 <= k < ss.len(),
        ns.token == ss[k].token,
    ensures
        tokens_unique(ss.update(k, ns)),
{
    let q = ss.update(k, ns);
    assert forall|i: int, j: int| 0 <= i < j < q.len() implies q[i].token != q[j].token by {
        assert(q[i].token == ss[i].token);
        assert(q[j].token == ss[j].token);
    }
}

/// After a session's token is cleared, no live session carries it, so any
/// later read of that token — at any time — finds it absent and a request
/// carrying it is unauthenticated.
pub proof fn lemma_clear_then_absent(ss: Seq<Session>, window: u64, token: u128, now: u64)
    requires
        tokens_unique(ss),
    ensures
        !has_token(spec_clear_state(ss, token), token),
        spec_touch_result(spec_clear_state(ss, token), window, token, now) is None,
{
    if has_token(ss, token) {
        let k = session_index(ss, token);
        assert(0 <= k < ss.len() && ss[k].token == token);
        let q = ss.remove(k);
        assert forall|i: int| 0 <= i < q.len() implies q[i].token != token by {
            let oi = if i < k { i } else { i + 1 };
            assert(q[i] == ss[oi]);
            if oi < k {
                assert(ss[oi].token != ss[k].token);
            } else {
                assert(ss[k].token != ss[oi].token);
            }
        }
    }
}

/// Immediately after a session is created, reading its token inside the
/// inactivity window returns the bound principal; once the window has
/// elapsed with no touches, reading it returns absent.
pub proof fn lemma_touch_after_create(ss: Seq<Session>, window: u64, s: Session, now: u64)
    requires
        tokens_unique(ss),
        !has_token(ss, s.token),
    ensures
        now < s.last_activity + window ==> spec_touch_result(ss.push(s), window, s.token, now)
            == Some(s.user_email@),
        now >= s.last_activity + window ==> spec_touch_result(ss.push(s), window, s.token, now)
            is None,
{
    let q = ss.push(s);
    let n = ss.len() as int;
    assert(q[n] == s);
    assert(has_token(q, s.token));
    assert forall|i: int| 0 <= i < n implies q[i].token != s.token by {
        assert(q[i] == ss[i]);
    }
    assert(tokens_unique(q));
    lemma_session_index_agrees(q, s.token, n);
}

} // verus!
