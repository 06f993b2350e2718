//! Records the BBS keeps on disk, and the rules applied to them: who may
//! register, post or change a level, how messages are ordered for reading,
//! and how the deletion log is paged.
//!
//! Reading and writing the files is left to the caller. Times are milliseconds
//! since the Unix epoch.
use vstd::prelude::*;
use crate::text::{to_owned_string, utf8_len, str_eq};
use crate::keyed::{keys_distinct, lookup, find_key, lemma_lookup_index};
use crate::clock::valid_millis;
use crate::roles::LEVEL_SYSOP;
use crate::order::lemma_move_back_keeps_class;

verus! {

broadcast use vstd::seq_lib::group_to_multiset_ensures;

/// A message posted to an area.
#[derive(Debug)]
pub struct Message {
    pub id: String,
    pub area: String,
    pub author: String,
    pub content: String,
    pub timestamp: i64,
    pub replies: Vec<String>,
}

/// One line of the deletion log.
#[derive(Debug)]
pub struct DeletionAuditEntry {
    pub timestamp: i64,
    pub area: String,
    pub id: String,
    pub actor: String,
}

/// A user account.
#[derive(Debug, Clone)]
pub struct User {
    pub username: String,
    pub node_id: Option<String>,
    pub user_level: u8,
    pub password_hash: Option<String>,
    pub first_login: i64,
    pub last_login: i64,
    pub total_messages: u32,
}

/// Counts over the stored data.
#[derive(Debug, Clone, Copy)]
pub struct BbsStatistics {
    pub total_messages: u32,
    pub total_users: u32,
    pub uptime_start: i64,
}

/// The level of a stored user whose record names none.
pub fn default_user_level() -> (l: u8)
    ensures
        l == 1,
{
    1
}

/// A registration is refused for a name shorter than two bytes, then for a
/// name already taken.
pub fn check_registration(username: &str, exists: bool) -> (r: Result<(), String>)
    ensures
        match r {
            Ok(()) => utf8_len(username@) >= 2 && !exists,
            Err(e) => if utf8_len(username@) < 2 {
                e@ == "Username too short"@
            } else {
                exists && e@ == "User already exists"@
            },
        },
{
    if username.as_bytes().len() < 2 {
        return Err(to_owned_string("Username too short"));
    }
    if exists {
        return Err(to_owned_string("User already exists"));
    }
    Ok(())
}

/// The account a registration creates: level 1, no messages, both login
/// times at `now`.
pub fn new_user(username: &str, node_id: Option<&str>, password_hash: String, now: i64) -> (u: User)
    ensures
        u.username@ == username@,
        u.node_id matches Some(n) ==> node_id matches Some(m) && n@ == m@,
        node_id is Some ==> u.node_id is Some,
        u.user_level == 1,
        u.password_hash == Some(password_hash),
        u.first_login == now,
        u.last_login == now,
        u.total_messages == 0,
{
    User {
        username: to_owned_string(username),
        node_id: match node_id {
            Some(n) => Some(to_owned_string(n)),
            None => None,
        },
        user_level: 1,
        password_hash: Some(password_hash),
        first_login: now,
        last_login: now,
        total_messages: 0,
    }
}

/// Whether `h` is the hash `hash`.
pub open spec fn holds_hash(h: Option<String>, hash: Seq<char>) -> bool {
    h matches Some(x) && x@ == hash
}

/// Whether `r` is the sysop account to write for the configured hash `hash`
/// (see [`seed_sysop`]).
pub open spec fn seeded_sysop(existing: Option<User>, sysop: Seq<char>, hash: Seq<char>, now: i64, r: Option<User>) -> bool {
    match existing {
        None => match r {
            Some(u) => {
                &&& u.username@ == sysop
                &&& u.node_id is None
                &&& u.user_level == LEVEL_SYSOP
                &&& holds_hash(u.password_hash, hash)
                &&& u.first_login == now
                &&& u.last_login == now
                &&& u.total_messages == 0
            },
            None => false,
        },
        Some(old) => if old.user_level < LEVEL_SYSOP || !holds_hash(old.password_hash, hash) {
            match r {
                Some(u) => {
                    &&& u.user_level == if old.user_level < LEVEL_SYSOP { LEVEL_SYSOP } else { old.user_level }
                    &&& holds_hash(u.password_hash, hash)
                    &&& u == (User { user_level: u.user_level, password_hash: u.password_hash, ..old })
                },
                None => false,
            }
        } else {
            r is None
        },
    }
}

/// The sysop account that the configured password hash `hash` calls for,
/// when it has to be written: a missing account is created at level 10 with
/// both login times at `now`; an existing one is raised to level 10 and given
/// the hash when it lacks either. `None` when the account is already so.
pub fn seed_sysop(existing: Option<User>, sysop: &str, hash: &str, now: i64) -> (r: Option<User>)
    ensures
        seeded_sysop(existing, sysop@, hash@, now, r),
{
    match existing {
        Some(mut u) => {
            let mut needs_write = false;
            if u.user_level < LEVEL_SYSOP {
                u.user_level = LEVEL_SYSOP;
                needs_write = true;
            }
            let same = match &u.password_hash {
                Some(h) => str_eq(h.as_str(), hash),
                None => false,
            };
            if !same {
                u.password_hash = Some(to_owned_string(hash));
                needs_write = true;
            }
            if needs_write {
                Some(u)
            } else {
                None
            }
        },
        None => Some(User {
            username: to_owned_string(sysop),
            node_id: None,
            user_level: LEVEL_SYSOP,
            password_hash: Some(to_owned_string(hash)),
            first_login: now,
            last_login: now,
            total_messages: 0,
        }),
    }
}

/// A new password must be 8 to 128 bytes long.
pub fn check_new_password(password: &str) -> (r: Result<(), String>)
    ensures
        match r {
            Ok(()) => 8 <= utf8_len(password@) <= 128,
            Err(e) => if utf8_len(password@) < 8 {
                e@ == "Password too short (min 8)"@
            } else {
                utf8_len(password@) > 128 && e@ == "Password too long"@
            },
        },
{
    let n = password.as_bytes().len();
    if n < 8 {
        return Err(to_owned_string("Password too short (min 8)"));
    }
    if n > 128 {
        return Err(to_owned_string("Password too long"));
    }
    Ok(())
}

/// A user with a new password hash, counted as active at `now`.
pub fn with_password_hash(user: User, hash: String, now: i64) -> (u: User)
    ensures
        u == (User { password_hash: Some(hash), last_login: now, ..user }),
{
    User { password_hash: Some(hash), last_login: now, ..user }
}

/// A user bound to `node_id` unless already bound, and active at `now`.
pub fn bind_node(user: User, node_id: &str, now: i64) -> (u: User)
    ensures
        u.username == user.username,
        u.user_level == user.user_level,
        u.password_hash == user.password_hash,
        u.first_login == user.first_login,
        u.total_messages == user.total_messages,
        u.last_login == now,
        match user.node_id {
            Some(n) => u.node_id == Some(n),
            None => u.node_id matches Some(m) && m@ == node_id@,
        },
{
    let node = match user.node_id {
        Some(n) => Some(n),
        None => Some(to_owned_string(node_id)),
    };
    User { node_id: node, last_login: now, ..user }
}

/// The record after `username` logs in from `node_id` at `now`: the stored
/// record, or a new one at level 1, active now and bound to the node unless
/// bound already.
pub fn touch_user(existing: Option<User>, username: &str, node_id: &str, now: i64) -> (u: User)
    ensures
        match existing {
            Some(e) => {
                &&& u.username == e.username
                &&& u.user_level == e.user_level
                &&& u.password_hash == e.password_hash
                &&& u.first_login == e.first_login
                &&& u.total_messages == e.total_messages
                &&& match e.node_id {
                    Some(n) => u.node_id == Some(n),
                    None => u.node_id matches Some(m) && m@ == node_id@,
                }
            },
            None => {
                &&& u.username@ == username@
                &&& u.node_id matches Some(m) && m@ == node_id@
                &&& u.user_level == 1
                &&& u.password_hash is None
                &&& u.first_login == now
                &&& u.total_messages == 0
            },
        },
        u.last_login == now,
{
    match existing {
        Some(e) => bind_node(e, node_id, now),
        None => User {
            username: to_owned_string(username),
            node_id: Some(to_owned_string(node_id)),
            user_level: 1,
            password_hash: None,
            first_login: now,
            last_login: now,
            total_messages: 0,
        },
    }
}

/// The outcome of setting the level of `username` (whose record is `user`)
/// to `new_level` at `now`: level 0 is refused, then a missing user, then a
/// change of the sysop's own level away from the sysop level.
pub fn change_level(user: Option<User>, username: &str, new_level: u8, now: i64) -> (r: Result<User, String>)
    ensures
        if new_level == 0 {
            r matches Err(e) && e@ == "Invalid level"@
        } else {
            match user {
                None => r matches Err(e) && e@ == "User not found"@,
                Some(u) => if u.user_level == LEVEL_SYSOP && u.username@ == username@ && new_level != LEVEL_SYSOP {
                    r matches Err(e) && e@ == "Cannot modify sysop level"@
                } else {
                    r == Ok::<User, String>(User { user_level: new_level, last_login: now, ..u })
                },
            }
        },
{
    if new_level == 0 {
        return Err(to_owned_string("Invalid level"));
    }
    match user {
        None => Err(to_owned_string("User not found")),
        Some(u) => {
            if u.user_level == LEVEL_SYSOP && crate::text::str_eq(u.username.as_str(), username) && new_level != LEVEL_SYSOP {
                return Err(to_owned_string("Cannot modify sysop level"));
            }
            Ok(User { user_level: new_level, last_login: now, ..u })
        },
    }
}

/// Whether a post to an area is allowed: not in a locked area, and, where
/// the area sets a posting level, only by an author of at least that level
/// (an unknown author counts as level 0).
pub fn check_post(locked: bool, area_levels: Option<(u8, u8)>, author_level: Option<u8>) -> (r: Result<(), String>)
    ensures
        match r {
            Ok(()) => !locked && (area_levels matches Some(lv) ==> (match author_level {
                Some(l) => l,
                None => 0,
            }) >= lv.1),
            Err(e) => if locked {
                e@ == "Area locked"@
            } else {
                area_levels matches Some(lv) && (match author_level {
                    Some(l) => l,
                    None => 0,
                }) < lv.1 && e@ == "Insufficient level to post"@
            },
        },
{
    if locked {
        return Err(to_owned_string("Area locked"));
    }
    if let Some((_, post_level)) = area_levels {
        let level = match author_level {
            Some(l) => l,
            None => 0,
        };
        if level < post_level {
            return Err(to_owned_string("Insufficient level to post"));
        }
    }
    Ok(())
}

/// Where a page of the deletion log starts, counted from the newest entry.
pub open spec fn page_start(page: nat, page_size: nat) -> nat {
    ((page - 1) * page_size) as nat
}

/// Whether a page request can be computed without overflow.
pub open spec fn page_request_fits(len: nat, page: nat, page_size: nat) -> bool {
    page == 0 || (page_start(page, page_size) <= usize::MAX && (page_start(page, page_size) >= len
        || page_start(page, page_size) + page_size <= usize::MAX))
}

/// Page `page` (from 1) of `page_size` entries of a log, newest entry first;
/// empty for page 0 or past the end.
pub open spec fn audit_page_spec<T>(entries: Seq<T>, page: nat, page_size: nat) -> Seq<T> {
    let newest = entries.reverse();
    let start = page_start(page, page_size);
    if page == 0 || start >= entries.len() {
        Seq::empty()
    } else {
        let end = if start + page_size <= entries.len() { (start + page_size) as int } else { entries.len() as int };
        newest.subrange(start as int, end)
    }
}

/// One page of the deletion log, newest entries first (see [`audit_page_spec`]).
pub fn audit_page<T>(entries: Vec<T>, page: usize, page_size: usize) -> (r: Vec<T>)
    requires
        page_request_fits(entries@.len(), page as nat, page_size as nat),
    ensures
        r@ == audit_page_spec(entries@, page as nat, page_size as nat),
{
    if page == 0 {
        return Vec::new();
    }
    let ghost orig = entries@;
    let n = entries.len();
    let start = (page - 1) * page_size;
    if start >= n {
        return Vec::new();
    }
    let end = if page_size <= n - start { start + page_size } else { n };
    let mut rest = entries;
    let mut skipped: usize = 0;
    while skipped < start
        invariant
            skipped <= start < n,
            n == orig.len(),
            rest@ == orig.subrange(0, n - skipped),
        decreases start - skipped,
    {
        rest.pop();
        skipped = skipped + 1;
    }
    let mut out: Vec<T> = Vec::new();
    let mut k: usize = start;
    while k < end
        invariant
            start <= k <= end <= n,
            n == orig.len(),
            rest@ == orig.subrange(0, n - k),
            out@ == orig.reverse().subrange(start as int, k as int),
        decreases end - k,
    {
        let e = rest.pop().unwrap();
        out.push(e);
        k = k + 1;
        proof {
            assert(out@ =~= orig.reverse().subrange(start as int, k as int));
        }
    }
    out
}

/// Newest first: no message is older than one after it.
pub open spec fn newest_first(s: Seq<Message>) -> bool {
    forall|i: int, j: int| 0 <= i < j < s.len() ==> s[i].timestamp >= s[j].timestamp
}

/// The messages posted at `t`.
pub open spec fn stamped(t: i64) -> spec_fn(Message) -> bool {
    |m: Message| m.timestamp == t
}

/// Sorts messages newest first, keeping the order of messages of equal age.
pub fn sort_newest_first(messages: &mut Vec<Message>)
    ensures
        newest_first(final(messages)@),
        final(messages)@.to_multiset() == old(messages)@.to_multiset(),
        forall|t: i64| #[trigger] final(messages)@.filter(stamped(t)) == old(messages)@.filter(stamped(t)),
{
    let n = messages.len();
    let mut i: usize = 1;
    if n == 0 {
        return;
    }
    while i < n
        invariant
            1 <= i <= n,
            n == messages@.len(),
            messages@.to_multiset() == old(messages)@.to_multiset(),
            forall|t: i64| #[trigger] messages@.filter(stamped(t)) == old(messages)@.filter(stamped(t)),
            forall|a: int, b: int| 0 <= a < b < i ==> messages@[a].timestamp >= messages@[b].timestamp,
        decreases n - i,
    {
        let ghost before = messages@;
        let x = messages.remove(i);
        let ghost mid = messages@;
        let mut j: usize = i;
        while j > 0 && messages[j - 1].timestamp < x.timestamp
            invariant
                j <= i,
                i < n,
                messages@ == mid,
                mid.len() == n - 1,
                forall|a: int, b: int| 0 <= a < b < i ==> mid[a].timestamp >= mid[b].timestamp,
                forall|k: int| j <= k < i ==> mid[k].timestamp < x.timestamp,
            decreases j,
        {
            j = j - 1;
        }
        let ghost xs = x.timestamp;
        messages.insert(j, x);
        proof {
            assert(mid == before.remove(i as int));
            assert(messages@ == mid.insert(j as int, x));
            let s = messages@;
            assert(before =~= mid.insert(i as int, s[j as int]));
            assert forall|t: i64| #[trigger] s.filter(stamped(t)) == before.filter(stamped(t)) by {
                lemma_move_back_keeps_class(mid, s[j as int], i as int, j as int, stamped(t));
            }
            assert forall|a: int, b: int| 0 <= a < b < i + 1 implies s[a].timestamp >= s[b].timestamp by {
                if b < j {
                    assert(s[a] == mid[a] && s[b] == mid[b]);
                } else if b == j {
                    assert(s[a] == mid[a]);
                    assert(s[b].timestamp == xs);
                    assert(mid[j - 1].timestamp >= xs);
                } else if a < j {
                    assert(s[a] == mid[a] && s[b] == mid[b - 1]);
                    assert(mid[j - 1].timestamp >= xs);
                    assert(mid[b - 1].timestamp < xs);
                } else if a == j {
                    assert(s[b] == mid[b - 1]);
                } else {
                    assert(s[a] == mid[a - 1] && s[b] == mid[b - 1]);
                }
            }
        }
        i = i + 1;
    }
}

/// The `limit` newest messages, newest first.
pub fn recent_messages(messages: Vec<Message>, limit: usize) -> (r: Vec<Message>)
    ensures
        newest_first(r@),
        r@.len() == if messages@.len() < limit { messages@.len() } else { limit as nat },
        exists|sorted: Seq<Message>| #[trigger] newest_first(sorted) && sorted.to_multiset() == messages@.to_multiset()
            && (forall|t: i64| #[trigger] sorted.filter(stamped(t)) == messages@.filter(stamped(t)))
            && r@ == sorted.take(r@.len() as int),
{
    let mut m = messages;
    sort_newest_first(&mut m);
    let ghost sorted = m@;
    assert(sorted.to_multiset().len() == messages@.to_multiset().len());
    m.truncate(limit);
    assert(m@ =~= sorted.take(m@.len() as int));
    m
}

/// Whether a message from `timestamp` is older than `retention_days` before `now`.
pub fn past_retention(timestamp: i64, now: i64, retention_days: u32) -> (r: bool)
    requires
        valid_millis(now as int),
        valid_millis(now - retention_days * 86_400_000),
    ensures
        r == (timestamp < now - retention_days * 86_400_000),
{
    let cutoff = now - (retention_days as i64) * 86_400_000;
    timestamp < cutoff
}

/// Per-area settings: the locked areas, and the read and post levels of areas.
#[derive(Debug)]
pub struct AreaRules {
    /// Locked areas, each at most once.
    pub locked_areas: Vec<String>,
    /// `(read_level, post_level)` by area, each area at most once.
    pub area_levels: Vec<(String, (u8, u8))>,
}

impl AreaRules {
    /// No area named twice.
    pub open spec fn wf(&self) -> bool {
        &&& forall|i: int, j: int| 0 <= i < j < self.locked_areas@.len() ==> #[trigger] self.locked_areas@[i]@
            != #[trigger] self.locked_areas@[j]@
        &&& keys_distinct(self.area_levels@)
    }

    /// Whether `area` is locked.
    pub open spec fn locked(&self, area: Seq<char>) -> bool {
        exists|i: int| 0 <= i < self.locked_areas@.len() && #[trigger] self.locked_areas@[i]@ == area
    }

    /// No area locked and no levels set.
    pub fn new() -> (r: Self)
        ensures
            r.wf(),
            forall|a: Seq<char>| !#[trigger] r.locked(a),
            r.area_levels@.len() == 0,
    {
        AreaRules { locked_areas: Vec::new(), area_levels: Vec::new() }
    }

    fn locked_index(&self, area: &str) -> (r: Option<usize>)
        ensures
            match r {
                Some(i) => i < self.locked_areas@.len() && self.locked_areas@[i as int]@ == area@,
                None => !self.locked(area@),
            },
    {
        let n = self.locked_areas.len();
        let mut i: usize = 0;
        while i < n
            invariant
                i <= n,
                n == self.locked_areas@.len(),
                forall|j: int| 0 <= j < i ==> #[trigger] self.locked_areas@[j]@ != area@,
            decreases n - i,
        {
            if str_eq(self.locked_areas[i].as_str(), area) {
                return Some(i);
            }
            i = i + 1;
        }
        None
    }

    /// Locks `area` against posting.
    pub fn lock_area(&mut self, area: &str)
        requires
            old(self).wf(),
        ensures
            final(self).wf(),
            final(self).area_levels@ == old(self).area_levels@,
            forall|a: Seq<char>| #[trigger] final(self).locked(a) == (old(self).locked(a) || a == area@),
    {
        if self.locked_index(area).is_none() {
            let ghost before = self.locked_areas@;
            self.locked_areas.push(to_owned_string(area));
            proof {
                let s = self.locked_areas@;
                assert forall|a: Seq<char>| #[trigger] self.locked(a) == (old(self).locked(a) || a == area@) by {
                    if self.locked(a) {
                        let i = choose|i: int| 0 <= i < s.len() && #[trigger] s[i]@ == a;
                        if i < before.len() {
                            assert(before[i]@ == a);
                        }
                    }
                    if old(self).locked(a) {
                        let i = choose|i: int| 0 <= i < before.len() && #[trigger] before[i]@ == a;
                        assert(s[i]@ == a);
                    }
                    if a == area@ {
                        assert(s[before.len() as int]@ == a);
                    }
                }
            }
        }
    }

    /// Unlocks `area`.
    pub fn unlock_area(&mut self, area: &str)
        requires
            old(self).wf(),
        ensures
            final(self).wf(),
            final(self).area_levels@ == old(self).area_levels@,
            forall|a: Seq<char>| #[trigger] final(self).locked(a) == (old(self).locked(a) && a != area@),
    {
        if let Some(i) = self.locked_index(area) {
            let ghost before = self.locked_areas@;
            self.locked_areas.remove(i);
            proof {
                let s = self.locked_areas@;
                assert forall|a: Seq<char>| #[trigger] self.locked(a) == (old(self).locked(a) && a != area@) by {
                    if self.locked(a) {
                        let k = choose|k: int| 0 <= k < s.len() && #[trigger] s[k]@ == a;
                        let k2 = if k < i { k } else { k + 1 };
                        assert(before[k2]@ == a);
                        assert(k2 != i);
                    }
                    if old(self).locked(a) && a != area@ {
                        let k = choose|k: int| 0 <= k < before.len() && #[trigger] before[k]@ == a;
                        assert(k != i);
                        let k2 = if k < i { k } else { k - 1 };
                        assert(s[k2]@ == a);
                    }
                }
            }
        }
    }

    /// Whether `area` is locked.
    pub fn is_area_locked(&self, area: &str) -> (r: bool)
        ensures
            r == self.locked(area@),
    {
        self.locked_index(area).is_some()
    }

    /// Replaces the area levels.
    pub fn set_area_levels(&mut self, levels: Vec<(String, (u8, u8))>)
        requires
            keys_distinct(levels@),
        ensures
            final(self).locked_areas@ == old(self).locked_areas@,
            final(self).area_levels@ == levels@,
    {
        self.area_levels = levels;
    }

    /// The `(read_level, post_level)` set for `area`.
    pub fn get_area_levels(&self, area: &str) -> (r: Option<(u8, u8)>)
        requires
            self.wf(),
        ensures
            r == lookup(self.area_levels@, area@),
    {
        match find_key(&self.area_levels, area) {
            Some(i) => {
                proof {
                    lemma_lookup_index(self.area_levels@, i as int);
                }
                Some(self.area_levels[i].1)
            },
            None => None,
        }
    }
}

/// A lower-case hexadecimal digit.
pub open spec fn lower_hex_char(c: char) -> bool {
    ('0' <= c && c <= '9') || ('a' <= c && c <= 'f')
}

/// The text of a random (version 4) UUID: 32 lower-case hex digits in groups
/// of 8, 4, 4, 4 and 12 joined by hyphens, the version digit `4` and the
/// variant digit one of `8`, `9`, `a`, `b`.
pub open spec fn uuid_v4_text(s: Seq<char>) -> bool {
    &&& s.len() == 36
    &&& forall|i: int| 0 <= i < 36 ==> if i == 8 || i == 13 || i == 18 || i == 23 {
        #[trigger] s[i] == '-'
    } else {
        lower_hex_char(s[i])
    }
    &&& s[14] == '4'
    &&& (s[19] == '8' || s[19] == '9' || s[19] == 'a' || s[19] == 'b')
}

/// A fresh random message id (`uuid::Uuid::new_v4()`, hyphenated).
///
/// Trusted: the id is random; what holds of every one is its shape, since the
/// source sets the version and variant bits and writes the UUID in lower-case
/// hyphenated form.
#[verifier::external_body]
fn new_message_id() -> (id: String)
    ensures
        uuid_v4_text(id@),
{
    uuid::Uuid::new_v4().to_string()
}

/// A new message by `author` in `area` at `now`, if the area takes it (see
/// [`check_post`]); it gets a fresh random id and no replies.
pub fn compose_message(area: &str, author: &str, content: &str, now: i64, locked: bool, area_levels: Option<(u8, u8)>,
    author_level: Option<u8>) -> (r: Result<Message, String>)
    ensures
        match check_post_spec(locked, area_levels, author_level) {
            Some(e) => r matches Err(m) && m@ == e,
            None => r matches Ok(msg) && msg.area@ == area@ && msg.author@ == author@ && msg.content@ == content@
                && msg.timestamp == now && msg.replies@.len() == 0 && uuid_v4_text(msg.id@),
        },
{
    check_post(locked, area_levels, author_level)?;
    Ok(Message {
        id: new_message_id(),
        area: to_owned_string(area),
        author: to_owned_string(author),
        content: to_owned_string(content),
        timestamp: now,
        replies: Vec::new(),
    })
}

/// Why a post is refused, if it is.
pub open spec fn check_post_spec(locked: bool, area_levels: Option<(u8, u8)>, author_level: Option<u8>) -> Option<Seq<char>> {
    if locked {
        Some("Area locked"@)
    } else {
        match area_levels {
            Some(lv) => if (match author_level {
                Some(l) => l,
                None => 0,
            }) < lv.1 {
                Some("Insufficient level to post"@)
            } else {
                None
            },
            None => None,
        }
    }
}

/// The deletion-log entry for `actor` deleting message `id` of `area` at `now`.
pub fn deletion_entry(area: &str, id: &str, actor: &str, now: i64) -> (e: DeletionAuditEntry)
    ensures
        e.timestamp == now,
        e.area@ == area@,
        e.id@ == id@,
        e.actor@ == actor@,
{
    DeletionAuditEntry { timestamp: now, area: to_owned_string(area), id: to_owned_string(id), actor: to_owned_string(actor) }
}

} // verus!
