//! The public channel: pending logins announced there, the per-node reply
//! rate limit, and the parser of public commands.
//!
//! Times are milliseconds on the monotonic clock, counted from when the state
//! was made.
use vstd::prelude::*;
use crate::text::{
    trim, trim_spec, str_eq, eq_ignore_ascii_case, eq_ignore_ascii_case_spec, is_whitespace,
    is_whitespace_spec, to_owned_string, utf8_len, is_byte_boundary,
};
use crate::keyed::{keys_distinct, has_key, lookup, find_key, lemma_lookup_index, lemma_lookup_update,
    lemma_lookup_push, lemma_lookup_remove};
use std::time::Instant;
use crate::clock::{millis_since, monotonic_now};

verus! {

/// A login announced on the public channel, waiting to be completed by DM.
#[derive(Debug)]
pub struct PendingLogin {
    pub requested_username: String,
    /// When the login was announced (ms).
    pub created_at: u64,
}

/// Pending public logins and the time of the last public reply, by node id.
#[derive(Debug)]
pub struct PublicState {
    pub pending: Vec<(String, PendingLogin)>,
    pub last_public_reply: Vec<(String, u64)>,
    /// Minimum time between two public replies to one node (ms).
    pub reply_cooldown: u64,
    /// How long a pending login stays valid (ms).
    pub pending_timeout: u64,
    /// The reading of the monotonic clock from which the times above count.
    pub clock_start: Instant,
}

/// `a - b`, or 0 when `b` is later than `a`.
pub open spec fn elapsed(now: u64, then: u64) -> u64 {
    if now >= then { (now - then) as u64 } else { 0 }
}

impl PublicState {
    /// Each table holds a node at most once.
    pub open spec fn wf(&self) -> bool {
        keys_distinct(self.pending@) && keys_distinct(self.last_public_reply@)
    }

    /// The login pending for `node`, if any.
    pub open spec fn pending_for(&self, node: Seq<char>) -> Option<PendingLogin> {
        lookup(self.pending@, node)
    }

    /// When `node` last got a public reply, if ever.
    pub open spec fn last_reply_for(&self, node: Seq<char>) -> Option<u64> {
        lookup(self.last_public_reply@, node)
    }

    /// Whether a pending login is still valid at `now`.
    pub open spec fn is_live(&self, p: PendingLogin, now: u64) -> bool {
        elapsed(now, p.created_at) < self.pending_timeout
    }

    /// Whether `node` may get a public reply at `now`.
    pub open spec fn may_reply(&self, node: Seq<char>, now: u64) -> bool {
        !(self.last_reply_for(node) matches Some(t) && elapsed(now, t) < self.reply_cooldown)
    }

    /// `after` holds the pending logins of `self` that are still valid at `now`, and no others.
    pub open spec fn pruned_to(&self, after: PublicState, now: u64) -> bool {
        forall|k: Seq<char>| #[trigger] after.pending_for(k) == match self.pending_for(k) {
            Some(p) => if self.is_live(p, now) { Some(p) } else { None },
            None => None,
        }
    }

    /// `node` has a login pending as `username`, announced at `now`.
    pub open spec fn pending_as(&self, node: Seq<char>, username: String, now: u64) -> bool {
        self.pending_for(node) == Some(PendingLogin { requested_username: username, created_at: now })
    }

    /// The answer `r` of `self` to a reply request of `node` at `now`, and the
    /// reply recorded in `after` when it is yes.
    pub open spec fn reply_decided(&self, after: PublicState, node: Seq<char>, now: u64, r: bool) -> bool {
        &&& r == self.may_reply(node, now)
        &&& r ==> after.last_reply_for(node) == Some(now)
    }

    /// Empty tables with the given cooldown and timeout (ms).
    pub fn new(reply_cooldown: u64, pending_timeout: u64) -> (s: Self)
        ensures
            s.wf(),
            s.pending@.len() == 0,
            s.last_public_reply@.len() == 0,
            s.reply_cooldown == reply_cooldown,
            s.pending_timeout == pending_timeout,
    {
        PublicState {
            pending: Vec::new(),
            last_public_reply: Vec::new(),
            reply_cooldown,
            pending_timeout,
            clock_start: monotonic_now(),
        }
    }

    /// Drops the pending logins that have expired at `now`; the others stay.
    pub fn prune_expired_at(&mut self, now: u64)
        requires
            old(self).wf(),
        ensures
            final(self).wf(),
            final(self).clock_start == old(self).clock_start,
            final(self).reply_cooldown == old(self).reply_cooldown,
            final(self).pending_timeout == old(self).pending_timeout,
            final(self).last_public_reply@ == old(self).last_public_reply@,
            old(self).pruned_to(*final(self), now),
    {
        let ghost orig = self.pending@;
        let n = self.pending.len();
        let mut kept: Vec<(String, PendingLogin)> = Vec::new();
        let mut i: usize = 0;
        while i < n
            invariant
                i <= n,
                n == orig.len(),
                self.pending@ == orig,
                keys_distinct(orig),
                keys_distinct(kept@),
                forall|j: int| 0 <= j < kept@.len() ==> exists|m: int| 0 <= m < i && #[trigger] kept@[j].0@ == orig[m].0@,
                forall|k: Seq<char>| #[trigger] lookup(kept@, k) == if (exists|m: int| 0 <= m < i && #[trigger] orig[m].0@ == k)
                    && self.is_live(lookup(orig, k).unwrap(), now) {
                    lookup(orig, k)
                } else {
                    None
                },
            decreases n - i,
        {
            let e = &self.pending[i];
            let age = if now >= e.1.created_at { now - e.1.created_at } else { 0 };
            proof {
                lemma_lookup_index(orig, i as int);
            }
            if age < self.pending_timeout {
                let entry = (e.0.clone(), PendingLogin {
                    requested_username: e.1.requested_username.clone(),
                    created_at: e.1.created_at,
                });
                proof {
                    assert(!has_key(kept@, entry.0@)) by {
                        if has_key(kept@, entry.0@) {
                            let j = choose|j: int| 0 <= j < kept@.len() && #[trigger] kept@[j].0@ == entry.0@;
                            let m = choose|m: int| 0 <= m < i && #[trigger] kept@[j].0@ == orig[m].0@;
                            assert(orig[m].0@ == orig[i as int].0@);
                        }
                    }
                    lemma_lookup_push(kept@, entry);
                }
                kept.push(entry);
                proof {
                    assert forall|j: int| 0 <= j < kept@.len() implies exists|m: int| 0 <= m < i + 1 && #[trigger] kept@[j].0@ == orig[m].0@ by {
                        if j == kept@.len() - 1 {
                            assert(kept@[j].0@ == orig[i as int].0@);
                        } else {
                            let m = choose|m: int| 0 <= m < i && #[trigger] kept@[j].0@ == orig[m].0@;
                            assert(kept@[j].0@ == orig[m].0@);
                        }
                    }
                }
            }
            proof {
                assert forall|k: Seq<char>| #[trigger] lookup(kept@, k) == if (exists|m: int| 0 <= m < i + 1 && #[trigger] orig[m].0@ == k)
                    && self.is_live(lookup(orig, k).unwrap(), now) {
                    lookup(orig, k)
                } else {
                    None
                } by {
                    if k != orig[i as int].0@ {
                        if exists|m: int| 0 <= m < i + 1 && #[trigger] orig[m].0@ == k {
                            let m = choose|m: int| 0 <= m < i + 1 && #[trigger] orig[m].0@ == k;
                            assert(m < i);
                        }
                    } else {
                        assert(orig[i as int].0@ == k);
                        if exists|m: int| 0 <= m < i && #[trigger] orig[m].0@ == k {
                            let m = choose|m: int| 0 <= m < i && #[trigger] orig[m].0@ == k;
                            assert(orig[m].0@ == orig[i as int].0@);
                        }
                        if !(age < self.pending_timeout) {
                            assert(!has_key(kept@, k)) by {
                                if has_key(kept@, k) {
                                    let j = choose|j: int| 0 <= j < kept@.len() && #[trigger] kept@[j].0@ == k;
                                    let m = choose|m: int| 0 <= m < i && #[trigger] kept@[j].0@ == orig[m].0@;
                                    assert(orig[m].0@ == orig[i as int].0@);
                                }
                            }
                        }
                    }
                }
            }
            i = i + 1;
        }
        proof {
            assert forall|k: Seq<char>| #[trigger] lookup(kept@, k) == match lookup(orig, k) {
                Some(p) => if self.is_live(p, now) { Some(p) } else { None },
                None => None,
            } by {
                if has_key(orig, k) {
                    let m = choose|m: int| 0 <= m < orig.len() && #[trigger] orig[m].0@ == k;
                    assert(orig[m].0@ == k);
                }
            }
        }
        self.pending = kept;
    }

    /// Drops the pending logins that have expired now.
    pub fn prune_expired(&mut self)
        requires
            old(self).wf(),
        ensures
            final(self).wf(),
            final(self).clock_start == old(self).clock_start,
            final(self).reply_cooldown == old(self).reply_cooldown,
            final(self).pending_timeout == old(self).pending_timeout,
            final(self).last_public_reply@ == old(self).last_public_reply@,
            exists|now: u64| #[trigger] old(self).pruned_to(*final(self), now),
    {
        let now = millis_since(&self.clock_start);
        self.prune_expired_at(now);
        assert(old(self).pruned_to(*self, now));
    }

    /// Records that `node_id` asked to log in as `username` at `now`,
    /// replacing an earlier request of that node.
    pub fn set_pending_at(&mut self, node_id: &str, username: String, now: u64)
        requires
            old(self).wf(),
        ensures
            final(self).wf(),
            final(self).clock_start == old(self).clock_start,
            final(self).reply_cooldown == old(self).reply_cooldown,
            final(self).pending_timeout == old(self).pending_timeout,
            final(self).last_public_reply@ == old(self).last_public_reply@,
            final(self).pending_as(node_id@, username, now),
            forall|k: Seq<char>| k != node_id@ ==> #[trigger] final(self).pending_for(k) == old(self).pending_for(k),
    {
        let entry = (to_owned_string(node_id), PendingLogin { requested_username: username, created_at: now });
        match find_key(&self.pending, node_id) {
            Some(i) => {
                proof {
                    lemma_lookup_update(self.pending@, i as int, entry);
                }
                self.pending.remove(i);
                self.pending.insert(i, entry);
                proof {
                    assert(self.pending@ =~= old(self).pending@.update(i as int, entry));
                }
            },
            None => {
                proof {
                    lemma_lookup_push(self.pending@, entry);
                }
                self.pending.push(entry);
            },
        }
    }

    /// Records a login request of `node_id` made now.
    pub fn set_pending(&mut self, node_id: &str, username: String)
        requires
            old(self).wf(),
        ensures
            final(self).wf(),
            final(self).clock_start == old(self).clock_start,
            final(self).last_public_reply@ == old(self).last_public_reply@,
            exists|now: u64| #[trigger] final(self).pending_as(node_id@, username, now),
            forall|k: Seq<char>| k != node_id@ ==> #[trigger] final(self).pending_for(k) == old(self).pending_for(k),
    {
        let now = millis_since(&self.clock_start);
        self.set_pending_at(node_id, username, now);
        assert(self.pending_as(node_id@, username, now));
    }

    /// Removes the login pending for `node_id` and returns the username it asked for.
    pub fn take_pending(&mut self, node_id: &str) -> (r: Option<String>)
        requires
            old(self).wf(),
        ensures
            final(self).wf(),
            final(self).clock_start == old(self).clock_start,
            final(self).reply_cooldown == old(self).reply_cooldown,
            final(self).pending_timeout == old(self).pending_timeout,
            final(self).last_public_reply@ == old(self).last_public_reply@,
            match old(self).pending_for(node_id@) {
                Some(p) => r == Some(p.requested_username),
                None => r is None,
            },
            final(self).pending_for(node_id@) is None,
            forall|k: Seq<char>| k != node_id@ ==> #[trigger] final(self).pending_for(k) == old(self).pending_for(k),
    {
        match find_key(&self.pending, node_id) {
            Some(i) => {
                proof {
                    lemma_lookup_index(self.pending@, i as int);
                    lemma_lookup_remove(self.pending@, i as int);
                }
                let (_, p) = self.pending.remove(i);
                Some(p.requested_username)
            },
            None => None,
        }
    }

    /// Whether `node_id` may get a public reply at `now`: not if it got one
    /// less than the cooldown ago. A granted reply is recorded at `now`.
    pub fn should_reply_at(&mut self, node_id: &str, now: u64) -> (r: bool)
        requires
            old(self).wf(),
        ensures
            final(self).wf(),
            final(self).clock_start == old(self).clock_start,
            final(self).reply_cooldown == old(self).reply_cooldown,
            final(self).pending_timeout == old(self).pending_timeout,
            final(self).pending@ == old(self).pending@,
            old(self).reply_decided(*final(self), node_id@, now, r),
            !r ==> final(self).last_public_reply@ == old(self).last_public_reply@,
            forall|k: Seq<char>| k != node_id@ ==> #[trigger] final(self).last_reply_for(k) == old(self).last_reply_for(k),
    {
        match find_key(&self.last_public_reply, node_id) {
            Some(i) => {
                let last = self.last_public_reply[i].1;
                proof {
                    lemma_lookup_index(self.last_public_reply@, i as int);
                }
                let age = if now >= last { now - last } else { 0 };
                if age < self.reply_cooldown {
                    return false;
                }
                let entry = (to_owned_string(node_id), now);
                proof {
                    lemma_lookup_update(self.last_public_reply@, i as int, entry);
                }
                self.last_public_reply.remove(i);
                self.last_public_reply.insert(i, entry);
                proof {
                    assert(self.last_public_reply@ =~= old(self).last_public_reply@.update(i as int, entry));
                }
                true
            },
            None => {
                let entry = (to_owned_string(node_id), now);
                proof {
                    lemma_lookup_push(self.last_public_reply@, entry);
                }
                self.last_public_reply.push(entry);
                true
            },
        }
    }

    /// Whether `node_id` may get a public reply now; a granted reply is recorded.
    pub fn should_reply(&mut self, node_id: &str) -> (r: bool)
        requires
            old(self).wf(),
        ensures
            final(self).wf(),
            final(self).clock_start == old(self).clock_start,
            final(self).pending@ == old(self).pending@,
            exists|now: u64| #[trigger] old(self).reply_decided(*final(self), node_id@, now, r),
            !r ==> final(self).last_public_reply@ == old(self).last_public_reply@,
            forall|k: Seq<char>| k != node_id@ ==> #[trigger] final(self).last_reply_for(k) == old(self).last_reply_for(k),
    {
        let now = millis_since(&self.clock_start);
        let r = self.should_reply_at(node_id, now);
        assert(old(self).reply_decided(*self, node_id@, now, r));
        r
    }
}

/// A login set for a node is the one taken back for it: after recording
/// that `node` asked to log in as `username`, taking the node's pending login
/// yields `username`.
pub proof fn lemma_take_after_set(after_set: PublicState, node: Seq<char>, username: String, now: u64)
    requires
        after_set.pending_as(node, username, now),
    ensures
        after_set.pending_for(node) matches Some(p) && p.requested_username == username,
{
}

/// A node that was just answered is not answered again within the cooldown:
/// once a reply is recorded at `t`, no reply is allowed before `t + cooldown`.
pub proof fn lemma_reply_cooldown(s: PublicState, node: Seq<char>, t: u64, later: u64)
    requires
        s.last_reply_for(node) == Some(t),
        t <= later,
        later - t < s.reply_cooldown,
    ensures
        !s.may_reply(node, later),
{
}

/// Pruning keeps a login exactly while it is younger than the timeout: a login
/// announced at `t` survives a prune at `later >= t` iff `later - t` is below
/// the timeout.
pub proof fn lemma_prune_keeps_fresh(before: PublicState, after: PublicState, node: Seq<char>, p: PendingLogin, later: u64)
    requires
        before.pending_for(node) == Some(p),
        p.created_at <= later,
        before.pruned_to(after, later),
    ensures
        (after.pending_for(node) == Some(p)) <==> (later - p.created_at < before.pending_timeout),
        (after.pending_for(node) is None) <==> (later - p.created_at >= before.pending_timeout),
{
    assert(after.pending_for(node) == match before.pending_for(node) {
        Some(q) => if before.is_live(q, later) { Some(q) } else { None },
        None => None,
    });
}

/// A command read from the public channel.
#[derive(Debug)]
pub enum PublicCommand {
    Help,
    Login(String),
    Unknown,
    Invalid(String),
}

impl PartialEq for PublicCommand {
    fn eq(&self, other: &Self) -> (r: bool) {
        match (self, other) {
            (PublicCommand::Help, PublicCommand::Help) => true,
            (PublicCommand::Unknown, PublicCommand::Unknown) => true,
            (PublicCommand::Login(a), PublicCommand::Login(b)) => str_eq(a.as_str(), b.as_str()),
            (PublicCommand::Invalid(a), PublicCommand::Invalid(b)) => str_eq(a.as_str(), b.as_str()),
            _ => false,
        }
    }
}

impl vstd::std_specs::cmp::PartialEqSpecImpl for PublicCommand {
    open spec fn obeys_eq_spec() -> bool {
        true
    }

    open spec fn eq_spec(&self, other: &Self) -> bool {
        match (self, other) {
            (PublicCommand::Help, PublicCommand::Help) => true,
            (PublicCommand::Unknown, PublicCommand::Unknown) => true,
            (PublicCommand::Login(a), PublicCommand::Login(b)) => a@ == b@,
            (PublicCommand::Invalid(a), PublicCommand::Invalid(b)) => a@ == b@,
            _ => false,
        }
    }
}

impl Eq for PublicCommand {}

/// The text after the caret of a public command, if the trimmed line starts with one.
pub open spec fn public_body(raw: Seq<char>) -> Option<Seq<char>> {
    let t = trim_spec(raw);
    if t.len() > 0 && t[0] == '^' {
        Some(t.drop_first())
    } else {
        None
    }
}

/// Whether a body asks for help: HELP in any case, or "?".
pub open spec fn is_help_body(b: Seq<char>) -> bool {
    eq_ignore_ascii_case_spec(b, "HELP"@) || b == "?"@
}

/// Lines on which the command reader cuts the body after five bytes inside a
/// character, which it cannot do.
pub open spec fn public_parse_faults(raw: Seq<char>) -> bool {
    match public_body(raw) {
        Some(b) => !is_help_body(b) && utf8_len(b) >= 5 && !is_byte_boundary(b, 5),
        None => false,
    }
}

/// Whether `r` is what the reader makes of the line `raw`: a caret, then HELP
/// or "?", or LOGIN (any case) with whitespace and a name; LOGIN with nothing
/// after it, or only whitespace, is invalid; anything else is unknown.
pub open spec fn is_parse_of(r: PublicCommand, raw: Seq<char>) -> bool {
    match public_body(raw) {
        None => r is Unknown,
        Some(b) => if is_help_body(b) {
            r is Help
        } else if b.len() >= 5 && eq_ignore_ascii_case_spec(b.take(5), "LOGIN"@) {
            if b.len() == 5 {
                r matches PublicCommand::Invalid(m) && m@ == "Username required"@
            } else if is_whitespace_spec(b[5]) {
                let user = trim_spec(b.skip(5));
                if user.len() == 0 {
                    r matches PublicCommand::Invalid(m) && m@ == "Username required"@
                } else {
                    r matches PublicCommand::Login(u) && u@ == user
                }
            } else {
                r is Unknown
            }
        } else {
            r is Unknown
        },
    }
}

/// Reader of commands on the public channel.
#[derive(Debug, Clone, Copy)]
pub struct PublicCommandParser;

impl PublicCommandParser {
    pub fn new() -> (p: Self) {
        PublicCommandParser
    }

    /// Reads one line of the public channel.
    pub fn parse(&self, raw: &str) -> (r: PublicCommand)
        requires
            !public_parse_faults(raw@),
        ensures
            is_parse_of(r, raw@),
    {
        let t = trim(raw);
        let n = t.unicode_len();
        if n == 0 || t.get_char(0) != '^' {
            return PublicCommand::Unknown;
        }
        let body = t.substring_char(1, n);
        proof {
            assert(body@ =~= t@.drop_first());
        }
        if eq_ignore_ascii_case(body, "HELP") || str_eq(body, "?") {
            return PublicCommand::Help;
        }
        let bn = body.unicode_len();
        if bn >= 5 && eq_ignore_ascii_case(body.substring_char(0, 5), "LOGIN") {
            proof {
                assert(body@.subrange(0, 5) =~= body@.take(5));
            }
            if bn == 5 {
                return PublicCommand::Invalid(to_owned_string("Username required"));
            }
            let after = body.substring_char(5, bn);
            proof {
                assert(after@ =~= body@.skip(5));
            }
            if is_whitespace(after.get_char(0)) {
                let user = trim(after);
                if user.unicode_len() == 0 {
                    return PublicCommand::Invalid(to_owned_string("Username required"));
                }
                return PublicCommand::Login(to_owned_string(user));
            }
        }
        PublicCommand::Unknown
    }
}

} // verus!
