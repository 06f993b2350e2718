//! Dashboard sessions: the claims a session token carries, and the table of
//! open sessions by token, with a cap per admin and expiry.
//!
//! Times are seconds since the Unix epoch.
use vstd::prelude::*;
use crate::text::{to_owned_string, str_eq, push_str};
use crate::password::{verify_credentials, phc_parses, argon2_verifies};
use crate::keyed::{keys_distinct, has_key, lookup, find_key, lemma_lookup_index, lemma_lookup_update,
    lemma_lookup_push, lemma_lookup_remove};

verus! {

/// What a session token asserts.
#[derive(Debug, Clone)]
pub struct SessionClaims {
    /// The admin's username.
    pub sub: String,
    /// Expiry time.
    pub exp: i64,
    /// Issue time.
    pub iat: i64,
    /// Token id.
    pub jti: String,
    pub admin_level: u8,
}

/// An open dashboard session.
#[derive(Debug, Clone)]
pub struct Session {
    pub username: String,
    pub admin_level: u8,
    pub token_id: String,
    pub created_at: i64,
    pub last_activity: i64,
}

/// The claims of a session opened at `now` for `timeout` seconds.
pub fn new_claims(username: &str, admin_level: u8, token_id: &str, now: i64, timeout: u64) -> (c: SessionClaims)
    requires
        now + (timeout as i64) <= i64::MAX,
        now + (timeout as i64) >= i64::MIN,
    ensures
        c.sub@ == username@,
        c.exp == now + (timeout as i64),
        c.iat == now,
        c.jti@ == token_id@,
        c.admin_level == admin_level,
{
    SessionClaims {
        sub: to_owned_string(username),
        exp: now + timeout as i64,
        iat: now,
        jti: to_owned_string(token_id),
        admin_level,
    }
}

/// A token whose claims expired before `now` is refused when expiry is enforced.
pub fn check_expiry(claims: &SessionClaims, now: i64, enforce: bool) -> (r: Result<(), String>)
    ensures
        (enforce && claims.exp < now) ==> (r matches Err(e) && e@ == "Token expired"@),
        !(enforce && claims.exp < now) ==> r is Ok,
{
    if enforce && claims.exp < now {
        return Err(to_owned_string("Token expired"));
    }
    Ok(())
}

/// The open sessions by token.
#[derive(Debug)]
pub struct SessionTable {
    pub sessions: Vec<(String, Session)>,
}

/// The number of sessions of `user` among `s`.
pub open spec fn count_of(s: Seq<(String, Session)>, user: Seq<char>) -> nat
    decreases s.len(),
{
    if s.len() == 0 {
        0
    } else {
        count_of(s.drop_last(), user) + if s.last().1.username@ == user { 1nat } else { 0nat }
    }
}

/// Whether the session at `i` is one of `user`'s, and none of `user`'s
/// sessions was opened before it.
pub open spec fn oldest_at(s: Seq<(String, Session)>, user: Seq<char>, i: int) -> bool {
    &&& 0 <= i < s.len()
    &&& s[i].1.username@ == user
    &&& forall|j: int| 0 <= j < s.len() && (#[trigger] s[j].1).username@ == user ==> s[i].1.created_at <= s[j].1.created_at
}

/// A user with a session has a positive count, and one without has none.
proof fn lemma_count_of_positive(s: Seq<(String, Session)>, user: Seq<char>)
    ensures
        count_of(s, user) > 0 <==> exists|j: int| 0 <= j < s.len() && (#[trigger] s[j].1).username@ == user,
    decreases s.len(),
{
    if s.len() > 0 {
        lemma_count_of_positive(s.drop_last(), user);
        if exists|j: int| 0 <= j < s.drop_last().len() && (#[trigger] s.drop_last()[j].1).username@ == user {
            let j = choose|j: int| 0 <= j < s.drop_last().len() && (#[trigger] s.drop_last()[j].1).username@ == user;
            assert(s[j].1.username@ == user);
        }
        if exists|j: int| 0 <= j < s.len() && (#[trigger] s[j].1).username@ == user {
            let j = choose|j: int| 0 <= j < s.len() && (#[trigger] s[j].1).username@ == user;
            if j < s.len() - 1 {
                assert(s.drop_last()[j].1.username@ == user);
            }
        }
    }
}

impl SessionTable {
    /// No token twice.
    pub open spec fn wf(&self) -> bool {
        keys_distinct(self.sessions@)
    }

    /// The session of `token`, if open.
    pub open spec fn session_for(&self, token: Seq<char>) -> Option<Session> {
        lookup(self.sessions@, token)
    }

    /// No session open.
    pub fn new() -> (t: Self)
        ensures
            t.wf(),
            t.sessions@.len() == 0,
    {
        SessionTable { sessions: Vec::new() }
    }

    fn count_user(&self, user: &str) -> (n: usize)
        ensures
            n == count_of(self.sessions@, user@),
    {
        let len = self.sessions.len();
        let mut n: usize = 0;
        let mut i: usize = 0;
        while i < len
            invariant
                i <= len,
                len == self.sessions@.len(),
                n == count_of(self.sessions@.take(i as int), user@),
                n <= i,
            decreases len - i,
        {
            proof {
                assert(self.sessions@.take(i + 1).drop_last() =~= self.sessions@.take(i as int));
            }
            if str_eq(self.sessions[i].1.username.as_str(), user) {
                n = n + 1;
            }
            i = i + 1;
        }
        proof {
            assert(self.sessions@.take(len as int) =~= self.sessions@);
        }
        n
    }

    /// The index of one of `user`'s oldest sessions, if `user` has any.
    fn oldest_user_index(&self, user: &str) -> (r: Option<usize>)
        ensures
            match r {
                Some(i) => oldest_at(self.sessions@, user@, i as int),
                None => forall|j: int| 0 <= j < self.sessions@.len() ==> (#[trigger] self.sessions@[j].1).username@ != user@,
            },
    {
        let len = self.sessions.len();
        let mut best: Option<usize> = None;
        let mut i: usize = 0;
        while i < len
            invariant
                i <= len,
                len == self.sessions@.len(),
                match best {
                    Some(b) => b < i && self.sessions@[b as int].1.username@ == user@ && forall|j: int|
                        0 <= j < i && (#[trigger] self.sessions@[j].1).username@ == user@
                            ==> self.sessions@[b as int].1.created_at <= self.sessions@[j].1.created_at,
                    None => forall|j: int| 0 <= j < i ==> (#[trigger] self.sessions@[j].1).username@ != user@,
                },
            decreases len - i,
        {
            if str_eq(self.sessions[i].1.username.as_str(), user) {
                match best {
                    None => {
                        best = Some(i);
                    },
                    Some(b) => {
                        if self.sessions[i].1.created_at < self.sessions[b].1.created_at {
                            best = Some(i);
                        }
                    },
                }
            }
            i = i + 1;
        }
        best
    }

    /// Opens a session under `token`. When the admin already has
    /// `max_per_admin` sessions or more, the oldest of them (the one opened
    /// first) is closed first.
    pub fn insert_session(&mut self, token: String, session: Session, max_per_admin: u32)
        requires
            old(self).wf(),
        ensures
            final(self).wf(),
            final(self).session_for(token@) == Some(session),
            exists|evicted: Option<int>| #![trigger evicted is Some]
                {
                    let user = session.username@;
                    &&& (evicted is Some <==> count_of(old(self).sessions@, user) >= max_per_admin
                        && count_of(old(self).sessions@, user) > 0)
                    &&& (evicted matches Some(i) ==> oldest_at(old(self).sessions@, user, i))
                    &&& forall|k: Seq<char>| k != token@ ==> #[trigger] final(self).session_for(k) == match evicted {
                        Some(i) => if k == old(self).sessions@[i].0@ { None } else { old(self).session_for(k) },
                        None => old(self).session_for(k),
                    }
                },
    {
        let ghost orig = self.sessions@;
        let ghost user = session.username@;
        proof {
            lemma_count_of_positive(orig, user);
        }
        let n = self.count_user(session.username.as_str());
        let mut evicted: Option<usize> = None;
        if n >= max_per_admin as usize {
            match self.oldest_user_index(session.username.as_str()) {
                Some(i) => {
                    proof {
                        lemma_lookup_remove(self.sessions@, i as int);
                    }
                    self.sessions.remove(i);
                    evicted = Some(i);
                },
                None => {},
            }
        }
        let ghost evicted_at: Option<int> = match evicted {
            Some(i) => Some(i as int),
            None => None,
        };
        let ghost mid = self.sessions@;
        let key = token.clone();
        match find_key(&self.sessions, key.as_str()) {
            Some(i) => {
                let entry = (token, session);
                proof {
                    lemma_lookup_update(self.sessions@, i as int, entry);
                }
                self.sessions.remove(i);
                self.sessions.insert(i, entry);
                proof {
                    assert(self.sessions@ =~= mid.update(i as int, entry));
                }
            },
            None => {
                let entry = (token, session);
                proof {
                    lemma_lookup_push(self.sessions@, entry);
                }
                self.sessions.push(entry);
            },
        }
        assert(evicted_at is Some <==> evicted is Some);
    }

    /// Records activity of the session of `token` at `now`; an unknown token
    /// is refused ("Session not found").
    pub fn touch(&mut self, token: &str, now: i64) -> (r: Result<(), String>)
        requires
            old(self).wf(),
        ensures
            final(self).wf(),
            match old(self).session_for(token@) {
                Some(s) => r is Ok && final(self).session_for(token@) == Some(Session { last_activity: now, ..s }),
                None => (r matches Err(e) && e@ == "Session not found"@) && final(self).sessions@ == old(self).sessions@,
            },
            forall|k: Seq<char>| k != token@ ==> #[trigger] final(self).session_for(k) == old(self).session_for(k),
    {
        match find_key(&self.sessions, token) {
            Some(i) => {
                proof {
                    lemma_lookup_index(self.sessions@, i as int);
                }
                let (k, s) = self.sessions.remove(i);
                let entry = (k, Session { last_activity: now, ..s });
                proof {
                    lemma_lookup_update(old(self).sessions@, i as int, entry);
                }
                self.sessions.insert(i, entry);
                proof {
                    assert(self.sessions@ =~= old(self).sessions@.update(i as int, entry));
                }
                Ok(())
            },
            None => Err(to_owned_string("Session not found")),
        }
    }

    /// Closes the session of `token`, if open.
    pub fn invalidate_session(&mut self, token: &str)
        requires
            old(self).wf(),
        ensures
            final(self).wf(),
            final(self).session_for(token@) is None,
            forall|k: Seq<char>| k != token@ ==> #[trigger] final(self).session_for(k) == old(self).session_for(k),
    {
        match find_key(&self.sessions, token) {
            Some(i) => {
                proof {
                    lemma_lookup_remove(self.sessions@, i as int);
                }
                self.sessions.remove(i);
            },
            None => {},
        }
    }

    /// Closes the sessions opened `timeout` seconds or more before `now`.
    pub fn cleanup_expired_sessions(&mut self, now: i64, timeout: u64)
        requires
            old(self).wf(),
            forall|i: int| 0 <= i < old(self).sessions@.len() ==> i64::MIN <= now - #[trigger] old(self).sessions@[i].1.created_at
                <= i64::MAX,
        ensures
            final(self).wf(),
            forall|k: Seq<char>| #[trigger] final(self).session_for(k) == match old(self).session_for(k) {
                Some(s) => if now - s.created_at < (timeout as i64) { Some(s) } else { None },
                None => None,
            },
    {
        let limit = timeout as i64;
        let mut i: usize = 0;
        let ghost orig = self.sessions@;
        while i < self.sessions.len()
            invariant
                i <= self.sessions@.len(),
                keys_distinct(orig),
                keys_distinct(self.sessions@),
                forall|j: int| 0 <= j < orig.len() ==> i64::MIN <= now - #[trigger] orig[j].1.created_at <= i64::MAX,
                forall|j: int| 0 <= j < i ==> now - (#[trigger] self.sessions@[j]).1.created_at < limit,
                forall|j: int| 0 <= j < self.sessions@.len() ==> lookup(orig, (#[trigger] self.sessions@[j]).0@) == Some(
                    self.sessions@[j].1,
                ),
                forall|k: Seq<char>| #[trigger] has_key(orig, k) && !has_key(self.sessions@, k) ==> now - lookup(
                    orig,
                    k,
                ).unwrap().created_at >= limit,
            decreases self.sessions@.len() - i,
        {
            let age = now - self.sessions[i].1.created_at;
            proof {
                let s = self.sessions@;
                lemma_lookup_index(orig, choose|m: int| 0 <= m < orig.len() && #[trigger] orig[m].0@ == s[i as int].0@);
            }
            if age < limit {
                i = i + 1;
            } else {
                proof {
                    let s = self.sessions@;
                    lemma_lookup_index(s, i as int);
                    lemma_lookup_remove(s, i as int);
                    let t = s.remove(i as int);
                    assert forall|j: int| 0 <= j < t.len() implies lookup(orig, (#[trigger] t[j]).0@) == Some(t[j].1) by {
                        let j2 = if j < i { j } else { j + 1 };
                        assert(t[j] == s[j2]);
                    }
                    assert forall|k: Seq<char>| #[trigger] has_key(orig, k) && !has_key(t, k) implies now - lookup(orig, k).unwrap().created_at >= limit by {
                        if has_key(s, k) {
                            assert(k == s[i as int].0@) by {
                                if k != s[i as int].0@ {
                                    let m = choose|m: int| 0 <= m < s.len() && #[trigger] s[m].0@ == k;
                                    let m2 = if m < i { m } else { m - 1 };
                                    assert(t[m2] == s[m]);
                                }
                            }
                        }
                    }
                }
                self.sessions.remove(i);
            }
        }
        proof {
            let cur = self.sessions@;
            assert forall|k: Seq<char>| #[trigger] lookup(cur, k) == match lookup(orig, k) {
                Some(s) => if now - s.created_at < limit { Some(s) } else { None },
                None => None,
            } by {
                if has_key(cur, k) {
                    let j = choose|j: int| 0 <= j < cur.len() && #[trigger] cur[j].0@ == k;
                    lemma_lookup_index(cur, j);
                    assert(lookup(orig, cur[j].0@) == Some(cur[j].1));
                    assert(now - cur[j].1.created_at < limit);
                } else if has_key(orig, k) {
                    assert(now - lookup(orig, k).unwrap().created_at >= limit);
                } else {
                }
            }
        }
    }
}

/// What a dashboard login attempt comes to.
#[derive(Debug, Clone)]
pub enum LoginOutcome {
    /// The credentials hold: a session is opened at the sysop level.
    Accepted,
    /// Refused with "Invalid credentials"; the reason goes to the audit log.
    Refused { reason: String },
    /// The password could not be checked: "Authentication error"; the reason
    /// goes to the audit log.
    CheckFailed { reason: String },
}

/// The level a dashboard login is granted.
pub const SYSOP_LEVEL: u8 = 10;

/// Decides a login to the dashboard: only the sysop may log in, at level 10,
/// with the password that the BBS hash checks (see [`verify_credentials`]).
pub fn login_outcome(
    username: &str,
    password: &str,
    sysop_username: &str,
    sysop_password_hash: &str,
    require_admin_level: u8,
) -> (r: LoginOutcome)
    ensures
        username@ != sysop_username@ ==> (r matches LoginOutcome::Refused { reason } && reason@ == "invalid_username"@),
        username@ == sysop_username@ ==> if SYSOP_LEVEL < require_admin_level {
            r matches LoginOutcome::Refused { reason } && reason@ == "invalid_password"@
        } else if !phc_parses(sysop_password_hash@) {
            r matches LoginOutcome::CheckFailed { reason } && (exists|m: Seq<char>| reason@
                == "verification_error: "@ + "Invalid password hash: "@ + m)
        } else if argon2_verifies(password@, sysop_password_hash@) {
            r is Accepted
        } else {
            r matches LoginOutcome::Refused { reason } && reason@ == "invalid_password"@
        },
{
    if !str_eq(username, sysop_username) {
        return LoginOutcome::Refused { reason: to_owned_string("invalid_username") };
    }
    match verify_credentials(require_admin_level, SYSOP_LEVEL, password, sysop_password_hash) {
        Ok(true) => LoginOutcome::Accepted,
        Ok(false) => LoginOutcome::Refused { reason: to_owned_string("invalid_password") },
        Err(e) => {
            let ghost m = e@;
            let mut reason = to_owned_string("verification_error: ");
            push_str(&mut reason, e.as_str());
            proof {
                let k = choose|k: Seq<char>| m == "Invalid password hash: "@ + k;
                assert(reason@ =~= "verification_error: "@ + "Invalid password hash: "@ + k);
            }
            LoginOutcome::CheckFailed { reason }
        },
    }
}

} // verus!
