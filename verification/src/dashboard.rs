//! What the admin dashboard shows of users, answers and content: records,
//! counts and the request and reply shapes of its API.
use vstd::prelude::*;
use crate::text::{to_owned_string, str_eq, holds_text, string_views, opt_view};
use crate::storage::{User, Message};
use crate::order::lemma_move_back_keeps_class;
use crate::clock::{rfc3339_at, rfc3339_spec, valid_millis};
use crate::npcs::{sort_texts, text_lt, text_le, text_less, texts_sorted, lemma_lt_trans, lemma_lt_irreflexive, lemma_text_order};
use crate::eightball::EightballResponse;

verus! {

broadcast use vstd::seq_lib::group_to_multiset_ensures;

/// The role a dashboard shows for a BBS level.
pub open spec fn web_role_spec(level: u8) -> Seq<char> {
    if level == 10 {
        "Sysop"@
    } else if 6 <= level <= 9 {
        "Admin"@
    } else if 3 <= level <= 5 {
        "Moderator"@
    } else {
        "User"@
    }
}

/// The role of a level: Sysop (10), Admin (6 to 9), Moderator (3 to 5), else User.
pub fn level_to_role(level: u8) -> (r: String)
    ensures
        r@ == web_role_spec(level),
{
    if level == 10 {
        to_owned_string("Sysop")
    } else if 6 <= level && level <= 9 {
        to_owned_string("Admin")
    } else if 3 <= level && level <= 5 {
        to_owned_string("Moderator")
    } else {
        to_owned_string("User")
    }
}

/// A user as the dashboard lists it.
#[derive(Debug, Clone)]
pub struct UserRecord {
    pub username: String,
    pub role: String,
    pub level: u8,
    /// Time of the last login (RFC 3339).
    pub last_seen: String,
    pub message_count: u32,
    pub has_password: bool,
    /// Time of the first login (RFC 3339).
    pub created_at: String,
    pub node_id: Option<String>,
}

/// A request to set a user's level.
#[derive(Debug, Clone, Copy)]
pub struct UpdateLevelRequest {
    pub level: u8,
}

/// The reply to a successful change.
#[derive(Debug, Clone)]
pub struct SuccessResponse {
    pub success: bool,
    pub message: String,
}

/// Filters and page of the user list.
#[derive(Debug, Clone, Copy)]
pub struct UserListQuery {
    pub min_level: Option<u8>,
    pub max_level: Option<u8>,
    pub limit: Option<usize>,
    pub offset: Option<usize>,
}

/// The record of a user, with its two login times already written out.
pub fn user_record(user: &User, last_seen: String, created_at: String) -> (r: UserRecord)
    ensures
        r.username@ == user.username@,
        r.role@ == web_role_spec(user.user_level),
        r.level == user.user_level,
        r.last_seen == last_seen,
        r.message_count == user.total_messages,
        r.has_password == user.password_hash is Some,
        r.created_at == created_at,
        r.node_id == user.node_id,
{
    UserRecord {
        username: user.username.clone(),
        role: level_to_role(user.user_level),
        level: user.user_level,
        last_seen,
        message_count: user.total_messages,
        has_password: user.password_hash.is_some(),
        created_at,
        node_id: user.node_id.clone(),
    }
}

/// Whether a level passes the list filters.
pub open spec fn level_passes(q: UserListQuery, level: u8) -> bool {
    &&& q.min_level matches Some(m) ==> level >= m
    &&& q.max_level matches Some(m) ==> level <= m
}

/// The records of `s` that pass the filters, in order.
pub open spec fn passing_records(s: Seq<UserRecord>, q: UserListQuery) -> Seq<UserRecord>
    decreases s.len(),
{
    if s.len() == 0 {
        Seq::empty()
    } else {
        let rest = passing_records(s.drop_last(), q);
        if level_passes(q, s.last().level) { rest.push(s.last()) } else { rest }
    }
}

/// The page size of the user list: as asked (100 when not), at most 1000.
pub open spec fn user_page_limit(q: UserListQuery) -> nat {
    let l = match q.limit {
        Some(l) => l as nat,
        None => 100nat,
    };
    if l < 1000 { l } else { 1000nat }
}

/// The user list a query asks for: the records passing the level filters,
/// from `offset` (0 when not given), at most the page size of them.
pub open spec fn user_page(s: Seq<UserRecord>, q: UserListQuery) -> Seq<UserRecord> {
    let k = passing_records(s, q);
    let off = match q.offset {
        Some(o) => o as nat,
        None => 0nat,
    };
    if off < k.len() {
        let end = if off + user_page_limit(q) <= k.len() { off + user_page_limit(q) } else { k.len() as nat };
        k.subrange(off as int, end as int)
    } else {
        Seq::empty()
    }
}

/// Selects the page of the user list (see [`user_page`]).
pub fn select_users(records: Vec<UserRecord>, query: &UserListQuery) -> (r: Vec<UserRecord>)
    ensures
        r@ == user_page(records@, *query),
{
    let ghost orig = records@;
    let n = records.len();
    let mut kept: Vec<UserRecord> = Vec::new();
    let mut rest = records;
    let mut i: usize = 0;
    while rest.len() > 0
        invariant
            i + rest@.len() == n,
            n == orig.len(),
            rest@ == orig.skip(i as int),
            kept@ == passing_records(orig.take(i as int), *query),
        decreases rest@.len(),
    {
        let x = rest.remove(0);
        proof {
            assert(x == orig[i as int]);
            assert(rest@ =~= orig.skip(i + 1));
            assert(orig.take(i + 1).drop_last() =~= orig.take(i as int));
        }
        let pass = match query.min_level {
            Some(m) => x.level >= m,
            None => true,
        } && match query.max_level {
            Some(m) => x.level <= m,
            None => true,
        };
        if pass {
            kept.push(x);
        }
        i = i + 1;
    }
    proof {
        assert(orig.take(n as int) =~= orig);
    }
    let offset = match query.offset {
        Some(o) => o,
        None => 0,
    };
    let limit = match query.limit {
        Some(l) => if l < 1000 { l } else { 1000 },
        None => 100,
    };
    let k = kept.len();
    if offset >= k {
        return Vec::new();
    }
    let end = if limit <= k - offset { offset + limit } else { k };
    let ghost kv = kept@;
    let mut out: Vec<UserRecord> = Vec::new();
    let mut j: usize = offset;
    while j < end
        invariant
            offset <= j <= end <= k,
            k == kv.len(),
            kept@ == kv.take(offset as int) + kv.skip(j as int),
            out@ == kv.subrange(offset as int, j as int),
        decreases end - j,
    {
        let x = kept.remove(offset);
        proof {
            assert(x == kv[j as int]);
            assert(kept@ =~= kv.take(offset as int) + kv.skip(j + 1));
        }
        out.push(x);
        j = j + 1;
        proof {
            assert(out@ =~= kv.subrange(offset as int, j as int));
        }
    }
    out
}

/// Counts of users by role.
#[derive(Debug, Clone, Copy, PartialEq, Eq, Structural)]
pub struct UserCounts {
    pub total_users: usize,
    pub users_with_passwords: usize,
    pub sysops: usize,
    pub admins: usize,
    pub moderators: usize,
    pub regular_users: usize,
}

/// The number of users in `s` that satisfy `p`.
pub open spec fn count_users(s: Seq<User>, p: spec_fn(User) -> bool) -> nat
    decreases s.len(),
{
    if s.len() == 0 {
        0
    } else {
        count_users(s.drop_last(), p) + if p(s.last()) { 1nat } else { 0nat }
    }
}

proof fn lemma_count_le(s: Seq<User>, p: spec_fn(User) -> bool)
    ensures
        count_users(s, p) <= s.len(),
    decreases s.len(),
{
    if s.len() > 0 {
        lemma_count_le(s.drop_last(), p);
    }
}

/// The user counts of the statistics page: all users, those with a
/// password, sysops (10), admins (6 to 9), moderators (3 to 5), and the rest.
pub fn count_user_roles(users: &Vec<User>) -> (c: UserCounts)
    ensures
        c.total_users == users@.len(),
        c.users_with_passwords == count_users(users@, |u: User| u.password_hash is Some),
        c.sysops == count_users(users@, |u: User| u.user_level == 10),
        c.admins == count_users(users@, |u: User| 6 <= u.user_level < 10),
        c.moderators == count_users(users@, |u: User| 3 <= u.user_level < 6),
        c.regular_users == count_users(users@, |u: User| u.user_level < 3),
{
    let n = users.len();
    let mut c = UserCounts { total_users: n, users_with_passwords: 0, sysops: 0, admins: 0, moderators: 0, regular_users: 0 };
    let mut i: usize = 0;
    while i < n
        invariant
            i <= n,
            n == users@.len(),
            c.total_users == n,
            c.users_with_passwords == count_users(users@.take(i as int), |u: User| u.password_hash is Some),
            c.sysops == count_users(users@.take(i as int), |u: User| u.user_level == 10),
            c.admins == count_users(users@.take(i as int), |u: User| 6 <= u.user_level < 10),
            c.moderators == count_users(users@.take(i as int), |u: User| 3 <= u.user_level < 6),
            c.regular_users == count_users(users@.take(i as int), |u: User| u.user_level < 3),
        decreases n - i,
    {
        let u = &users[i];
        proof {
            assert(users@.take(i + 1).drop_last() =~= users@.take(i as int));
            lemma_count_le(users@.take(i as int), |u: User| u.password_hash is Some);
            lemma_count_le(users@.take(i as int), |u: User| u.user_level == 10);
            lemma_count_le(users@.take(i as int), |u: User| 6 <= u.user_level < 10);
            lemma_count_le(users@.take(i as int), |u: User| 3 <= u.user_level < 6);
            lemma_count_le(users@.take(i as int), |u: User| u.user_level < 3);
        }
        if u.password_hash.is_some() {
            c.users_with_passwords = c.users_with_passwords + 1;
        }
        if u.user_level == 10 {
            c.sysops = c.sysops + 1;
        }
        if u.user_level >= 6 && u.user_level < 10 {
            c.admins = c.admins + 1;
        }
        if u.user_level >= 3 && u.user_level < 6 {
            c.moderators = c.moderators + 1;
        }
        if u.user_level < 3 {
            c.regular_users = c.regular_users + 1;
        }
        i = i + 1;
    }
    proof {
        assert(users@.take(n as int) =~= users@);
    }
    c
}

/// The number of answers of each category.
#[derive(Debug, Clone, Copy, PartialEq, Eq, Structural)]
pub struct CategoryCounts {
    pub positive: usize,
    pub neutral: usize,
    pub negative: usize,
}

/// The number of answers of `s` in category `c`.
pub open spec fn count_category(s: Seq<EightballResponse>, c: Seq<char>) -> nat
    decreases s.len(),
{
    if s.len() == 0 {
        0
    } else {
        count_category(s.drop_last(), c) + if s.last().category@ == c { 1nat } else { 0nat }
    }
}

proof fn lemma_count_category_le(s: Seq<EightballResponse>, c: Seq<char>)
    ensures
        count_category(s, c) <= s.len(),
    decreases s.len(),
{
    if s.len() > 0 {
        lemma_count_category_le(s.drop_last(), c);
    }
}

/// The number of positive, neutral and negative answers.
pub fn category_counts(responses: &[EightballResponse]) -> (c: CategoryCounts)
    ensures
        c.positive == count_category(responses@, "positive"@),
        c.neutral == count_category(responses@, "neutral"@),
        c.negative == count_category(responses@, "negative"@),
{
    let n = responses.len();
    let mut c = CategoryCounts { positive: 0, neutral: 0, negative: 0 };
    let mut i: usize = 0;
    while i < n
        invariant
            i <= n,
            n == responses@.len(),
            c.positive == count_category(responses@.take(i as int), "positive"@),
            c.neutral == count_category(responses@.take(i as int), "neutral"@),
            c.negative == count_category(responses@.take(i as int), "negative"@),
        decreases n - i,
    {
        let cat = responses[i].category.as_str();
        proof {
            assert(responses@.take(i + 1).drop_last() =~= responses@.take(i as int));
            lemma_count_category_le(responses@.take(i as int), "positive"@);
            lemma_count_category_le(responses@.take(i as int), "neutral"@);
            lemma_count_category_le(responses@.take(i as int), "negative"@);
        }
        if str_eq(cat, "positive") {
            c.positive = c.positive + 1;
        }
        if str_eq(cat, "neutral") {
            c.neutral = c.neutral + 1;
        }
        if str_eq(cat, "negative") {
            c.negative = c.negative + 1;
        }
        i = i + 1;
    }
    proof {
        assert(responses@.take(n as int) =~= responses@);
    }
    c
}

/// The answers and their counts, as the dashboard lists them.
#[derive(Debug)]
pub struct EightballListResponse {
    pub responses: Vec<EightballResponse>,
    pub count: usize,
    pub categories: CategoryCounts,
}

/// New answers to store.
#[derive(Debug)]
pub struct UpdateEightballRequest {
    pub responses: Vec<EightballResponse>,
}

/// New fortunes to store.
#[derive(Debug, Clone)]
pub struct UpdateFortunesRequest {
    pub fortunes: Vec<String>,
}

/// The fortunes, as the dashboard lists them.
#[derive(Debug, Clone)]
pub struct FortuneListResponse {
    pub fortunes: Vec<String>,
    pub count: usize,
}

/// A dashboard login.
#[derive(Debug, Clone)]
pub struct LoginRequest {
    pub username: String,
    pub password: String,
}

/// A granted dashboard login.
#[derive(Debug, Clone)]
pub struct LoginResponse {
    pub token: String,
    pub username: String,
    pub admin_level: u8,
}

/// An error reply.
#[derive(Debug, Clone)]
pub struct ErrorResponse {
    pub error: String,
}

/// Size and sample of one seed file.
#[derive(Debug, Clone)]
pub struct SeedSummary {
    pub count: usize,
    pub sample: Vec<String>,
    pub source_path: String,
    pub updated_at: Option<String>,
}

/// The seed files of the TinyMUSH world.
#[derive(Debug, Clone)]
pub struct WorldOverviewResponse {
    pub npcs: SeedSummary,
    pub rooms: SeedSummary,
    pub companions: SeedSummary,
    pub achievements: SeedSummary,
    pub quests: SeedSummary,
    pub recipes: SeedSummary,
}

/// A request to delete a message.
#[derive(Debug, Clone)]
pub struct DeleteMessageRequest {
    pub message_id: String,
}

/// A request to pin or unpin a message.
#[derive(Debug, Clone, Copy)]
pub struct PinMessageRequest {
    pub pinned: bool,
}

/// A request to set or clear a message title.
#[derive(Debug, Clone)]
pub struct UpdateMessageTitleRequest {
    pub title: Option<String>,
}

/// The reply to a message operation.
#[derive(Debug, Clone)]
pub struct MessageOperationResponse {
    pub success: bool,
    pub message: String,
}

/// Messages in one topic.
#[derive(Debug, Clone)]
pub struct TopicMessageCount {
    pub topic: String,
    pub count: usize,
}

/// The statistics page.
#[derive(Debug, Clone)]
pub struct SystemStats {
    pub total_users: usize,
    pub users_with_passwords: usize,
    pub sysops: usize,
    pub admins: usize,
    pub moderators: usize,
    pub regular_users: usize,
    pub total_topics: usize,
    pub total_messages: usize,
    pub total_replies: usize,
    pub unique_message_authors: usize,
    pub messages_per_topic: Vec<TopicMessageCount>,
    pub bbs_name: String,
    pub bbs_location: String,
    pub uptime_seconds: u64,
}

/// The number of messages over all topics.
pub open spec fn message_total(topics: Seq<(String, Vec<Message>)>) -> nat
    decreases topics.len(),
{
    if topics.len() == 0 {
        0
    } else {
        message_total(topics.drop_last()) + topics.last().1@.len()
    }
}

/// The number of replies to the messages.
pub open spec fn reply_count(msgs: Seq<Message>) -> nat
    decreases msgs.len(),
{
    if msgs.len() == 0 {
        0
    } else {
        reply_count(msgs.drop_last()) + msgs.last().replies@.len()
    }
}

/// The number of replies over all topics.
pub open spec fn reply_total(topics: Seq<(String, Vec<Message>)>) -> nat
    decreases topics.len(),
{
    if topics.len() == 0 {
        0
    } else {
        reply_total(topics.drop_last()) + reply_count(topics.last().1@)
    }
}

/// Whether `a` wrote one of the messages of the topics.
pub open spec fn is_author(topics: Seq<(String, Vec<Message>)>, a: Seq<char>) -> bool {
    exists|i: int, j: int| 0 <= i < topics.len() && 0 <= j < topics[i].1@.len() && #[trigger] topics[i].1@[j].author@ == a
}

/// The authors of the messages of the topics.
pub open spec fn authors(topics: Seq<(String, Vec<Message>)>) -> Set<Seq<char>> {
    Set::new(|a: Seq<char>| is_author(topics, a))
}

/// The count line of one topic.
pub open spec fn topic_count(t: (String, Vec<Message>)) -> TopicMessageCount {
    TopicMessageCount { topic: t.0, count: t.1@.len() as usize }
}

/// Whether the counts run from the most messages to the fewest.
pub open spec fn most_messages_first(s: Seq<TopicMessageCount>) -> bool {
    forall|i: int, j: int| 0 <= i < j < s.len() ==> s[i].count >= s[j].count
}

proof fn lemma_message_total_prefix(topics: Seq<(String, Vec<Message>)>, i: int)
    requires
        0 <= i <= topics.len(),
    ensures
        message_total(topics.take(i)) <= message_total(topics),
    decreases topics.len() - i,
{
    if i < topics.len() {
        lemma_message_total_prefix(topics, i + 1);
        assert(topics.take(i + 1).drop_last() =~= topics.take(i));
    } else {
        assert(topics.take(i) =~= topics);
    }
}

proof fn lemma_reply_total_prefix(topics: Seq<(String, Vec<Message>)>, i: int)
    requires
        0 <= i <= topics.len(),
    ensures
        reply_total(topics.take(i)) <= reply_total(topics),
    decreases topics.len() - i,
{
    if i < topics.len() {
        lemma_reply_total_prefix(topics, i + 1);
        assert(topics.take(i + 1).drop_last() =~= topics.take(i));
    } else {
        assert(topics.take(i) =~= topics);
    }
}

proof fn lemma_reply_count_prefix(msgs: Seq<Message>, j: int)
    requires
        0 <= j <= msgs.len(),
    ensures
        reply_count(msgs.take(j)) <= reply_count(msgs),
    decreases msgs.len() - j,
{
    if j < msgs.len() {
        lemma_reply_count_prefix(msgs, j + 1);
        assert(msgs.take(j + 1).drop_last() =~= msgs.take(j));
    } else {
        assert(msgs.take(j) =~= msgs);
    }
}

/// The topic counts of `c` messages.
pub open spec fn counting(c: usize) -> spec_fn(TopicMessageCount) -> bool {
    |t: TopicMessageCount| t.count == c
}

/// Sorts topic counts from the most messages to the fewest, keeping topics of
/// equal counts in place.
pub fn sort_most_messages_first(v: &mut Vec<TopicMessageCount>)
    ensures
        most_messages_first(final(v)@),
        final(v)@.to_multiset() == old(v)@.to_multiset(),
        forall|c: usize| #[trigger] final(v)@.filter(counting(c)) == old(v)@.filter(counting(c)),
{
    let n = v.len();
    if n == 0 {
        return;
    }
    let mut i: usize = 1;
    while i < n
        invariant
            1 <= i <= n,
            n == v@.len(),
            v@.to_multiset() == old(v)@.to_multiset(),
            forall|c: usize| #[trigger] v@.filter(counting(c)) == old(v)@.filter(counting(c)),
            forall|a: int, b: int| 0 <= a < b < i ==> v@[a].count >= v@[b].count,
        decreases n - i,
    {
        let ghost before = v@;
        let x = v.remove(i);
        let ghost mid = v@;
        let mut j: usize = i;
        while j > 0 && v[j - 1].count < x.count
            invariant
                j <= i,
                i < n,
                v@ == mid,
                mid.len() == n - 1,
                forall|a: int, b: int| 0 <= a < b < i ==> mid[a].count >= mid[b].count,
                forall|k: int| j <= k < i ==> mid[k].count < x.count,
            decreases j,
        {
            j = j - 1;
        }
        v.insert(j, x);
        proof {
            assert(mid == before.remove(i as int));
            let s = v@;
            assert(s == mid.insert(j as int, s[j as int]));
            assert(before =~= mid.insert(i as int, s[j as int]));
            assert forall|c: usize| #[trigger] s.filter(counting(c)) == before.filter(counting(c)) by {
                lemma_move_back_keeps_class(mid, s[j as int], i as int, j as int, counting(c));
            }
            assert forall|a: int, b: int| 0 <= a < b < i + 1 implies s[a].count >= s[b].count by {
                if b < j {
                    assert(s[a] == mid[a] && s[b] == mid[b]);
                } else if b == j {
                    assert(s[a] == mid[a]);
                } else if a < j {
                    assert(s[a] == mid[a] && s[b] == mid[b - 1]);
                } else if a == j {
                    assert(s[b] == mid[b - 1]);
                } else {
                    assert(s[a] == mid[a - 1] && s[b] == mid[b - 1]);
                }
            }
        }
        i = i + 1;
    }
}

/// The statistics page from the users, the topics with their messages, and
/// the board's name and location. Uptime is not tracked and shows as 0.
pub fn system_stats(
    users: &Vec<User>,
    topics: &Vec<(String, Vec<Message>)>,
    bbs_name: &str,
    bbs_location: &str,
) -> (r: SystemStats)
    requires
        message_total(topics@) <= usize::MAX,
        reply_total(topics@) <= usize::MAX,
    ensures
        r.total_users == users@.len(),
        r.users_with_passwords == count_users(users@, |u: User| u.password_hash is Some),
        r.sysops == count_users(users@, |u: User| u.user_level == 10),
        r.admins == count_users(users@, |u: User| 6 <= u.user_level < 10),
        r.moderators == count_users(users@, |u: User| 3 <= u.user_level < 6),
        r.regular_users == count_users(users@, |u: User| u.user_level < 3),
        r.total_topics == topics@.len(),
        r.total_messages == message_total(topics@),
        r.total_replies == reply_total(topics@),
        r.unique_message_authors == authors(topics@).len(),
        most_messages_first(r.messages_per_topic@),
        r.messages_per_topic@.to_multiset() == topics@.map_values(|t: (String, Vec<Message>)| topic_count(t)).to_multiset(),
        forall|c: usize| #[trigger] r.messages_per_topic@.filter(counting(c))
            == topics@.map_values(|t: (String, Vec<Message>)| topic_count(t)).filter(counting(c)),
        r.bbs_name@ == bbs_name@,
        r.bbs_location@ == bbs_location@,
        r.uptime_seconds == 0,
{
    let c = count_user_roles(users);
    let mut total_messages: usize = 0;
    let mut total_replies: usize = 0;
    let mut seen: Vec<String> = Vec::new();
    let mut per_topic: Vec<TopicMessageCount> = Vec::new();
    let n = topics.len();
    let mut i: usize = 0;
    while i < n
        invariant
            i <= n,
            n == topics@.len(),
            message_total(topics@) <= usize::MAX,
            reply_total(topics@) <= usize::MAX,
            total_messages == message_total(topics@.take(i as int)),
            total_replies == reply_total(topics@.take(i as int)),
            string_views(seen@).no_duplicates(),
            forall|a: Seq<char>| #[trigger] string_views(seen@).contains(a) <==> is_author(topics@.take(i as int), a),
            per_topic@ == topics@.take(i as int).map_values(|t: (String, Vec<Message>)| topic_count(t)),
        decreases n - i,
    {
        let ghost done = topics@.take(i as int);
        let ghost next = topics@.take(i + 1);
        let msgs = &topics[i].1;
        proof {
            assert(next.drop_last() =~= done);
            assert(next.last() == topics@[i as int]);
            lemma_message_total_prefix(topics@, i + 1);
            lemma_reply_total_prefix(topics@, i + 1);
        }
        total_messages = total_messages + msgs.len();
        let m = msgs.len();
        let mut j: usize = 0;
        while j < m
            invariant
                j <= m,
                m == msgs@.len(),
                msgs@ == topics@[i as int].1@,
                i < n,
                n == topics@.len(),
                done == topics@.take(i as int),
                next == topics@.take(i + 1),
                next.drop_last() == done,
                next.last() == topics@[i as int],
                reply_total(next) <= usize::MAX,
                total_replies == reply_total(done) + reply_count(msgs@.take(j as int)),
                string_views(seen@).no_duplicates(),
                forall|a: Seq<char>| #[trigger] string_views(seen@).contains(a) <==> (is_author(done, a)
                    || exists|k: int| 0 <= k < j && #[trigger] msgs@[k].author@ == a),
            decreases m - j,
        {
            let msg = &msgs[j];
            proof {
                assert(msgs@.take(j + 1).drop_last() =~= msgs@.take(j as int));
                lemma_reply_count_prefix(msgs@, j + 1);
                assert(reply_total(next) == reply_total(done) + reply_count(msgs@));
            }
            total_replies = total_replies + msg.replies.len();
            let ghost old_seen = string_views(seen@);
            let found = holds_text(&seen, msg.author.as_str());
            proof {
                if found {
                    let w = choose|w: int| 0 <= w < seen@.len() && #[trigger] seen@[w]@ == msg.author@;
                    assert(old_seen[w] == msg.author@);
                } else {
                    assert forall|k: int| 0 <= k < old_seen.len() implies old_seen[k] != msg.author@ by {
                        assert(old_seen[k] == seen@[k]@);
                    }
                }
            }
            if !found {
                seen.push(msg.author.clone());
            }
            proof {
                let sv = string_views(seen@);
                if found {
                    assert(sv =~= old_seen);
                } else {
                    assert(sv =~= old_seen.push(msg.author@));
                }
                assert forall|a: Seq<char>| #[trigger] sv.contains(a) <==> (is_author(done, a)
                    || exists|k: int| 0 <= k < j + 1 && #[trigger] msgs@[k].author@ == a) by {
                    if sv.contains(a) && !old_seen.contains(a) {
                        assert(a == msg.author@);
                        assert(msgs@[j as int].author@ == a);
                    }
                    if exists|k: int| 0 <= k < j + 1 && #[trigger] msgs@[k].author@ == a {
                        let k = choose|k: int| 0 <= k < j + 1 && #[trigger] msgs@[k].author@ == a;
                        if k == j {
                            if !old_seen.contains(a) {
                                assert(sv[sv.len() - 1] == a);
                            }
                        } else {
                            assert(old_seen.contains(a));
                        }
                    }
                    if old_seen.contains(a) {
                        let w = choose|w: int| 0 <= w < old_seen.len() && old_seen[w] == a;
                        assert(sv[w] == a);
                    }
                }
            }
            j = j + 1;
        }
        proof {
            assert(msgs@.take(m as int) =~= msgs@);
            assert forall|a: Seq<char>| is_author(next, a) <==> (is_author(done, a)
                || exists|k: int| 0 <= k < m && #[trigger] msgs@[k].author@ == a) by {
                if is_author(next, a) {
                    let (p, q) = choose|p: int, q: int| 0 <= p < next.len() && 0 <= q < next[p].1@.len()
                        && #[trigger] next[p].1@[q].author@ == a;
                    if p < i {
                        assert(done[p] == next[p]);
                        assert(done[p].1@[q].author@ == a);
                    } else {
                        assert(msgs@[q].author@ == a);
                    }
                }
                if is_author(done, a) {
                    let (p, q) = choose|p: int, q: int| 0 <= p < done.len() && 0 <= q < done[p].1@.len()
                        && #[trigger] done[p].1@[q].author@ == a;
                    assert(next[p] == done[p]);
                    assert(next[p].1@[q].author@ == a);
                }
                if exists|k: int| 0 <= k < m && #[trigger] msgs@[k].author@ == a {
                    let k = choose|k: int| 0 <= k < m && #[trigger] msgs@[k].author@ == a;
                    assert(next[i as int].1@[k].author@ == a);
                }
            }
        }
        let name = topics[i].0.clone();
        per_topic.push(TopicMessageCount { topic: name, count: m });
        proof {
            assert(per_topic@ =~= next.map_values(|t: (String, Vec<Message>)| topic_count(t)));
        }
        i = i + 1;
    }
    proof {
        assert(topics@.take(n as int) =~= topics@);
        let sv = string_views(seen@);
        assert(sv.to_set() =~= authors(topics@));
        sv.unique_seq_to_set();
        assert(seen@.len() == sv.len());
    }
    let unique = seen.len();
    sort_most_messages_first(&mut per_topic);
    SystemStats {
        total_users: c.total_users,
        users_with_passwords: c.users_with_passwords,
        sysops: c.sysops,
        admins: c.admins,
        moderators: c.moderators,
        regular_users: c.regular_users,
        total_topics: n,
        total_messages,
        total_replies,
        unique_message_authors: unique,
        messages_per_topic: per_topic,
        bbs_name: to_owned_string(bbs_name),
        bbs_location: to_owned_string(bbs_location),
        uptime_seconds: 0,
    }
}

/// One topic in the topic list.
#[derive(Debug, Clone)]
pub struct TopicSummary {
    pub name: String,
    pub message_count: usize,
    pub last_message_time: Option<String>,
}

/// One message in a topic's list.
#[derive(Debug, Clone)]
pub struct MessageRecord {
    pub id: String,
    pub topic: String,
    pub author: String,
    pub title: Option<String>,
    pub content: String,
    pub timestamp: String,
    pub reply_count: usize,
    pub pinned: bool,
}

/// Figures of one topic.
#[derive(Debug, Clone)]
pub struct MessageStats {
    pub total_messages: usize,
    pub total_replies: usize,
    pub authors: Vec<String>,
    pub first_message: Option<String>,
    pub last_message: Option<String>,
}

/// The time of a message as the topic figures show it: RFC 3339 text, or
/// nothing for a time outside chrono's range.
pub open spec fn shown_time(millis: i64) -> Option<Seq<char>> {
    if valid_millis(millis as int) { Some(rfc3339_spec(millis as int)) } else { None }
}

/// Whether `a` wrote one of the messages.
pub open spec fn wrote_one(msgs: Seq<Message>, a: Seq<char>) -> bool {
    exists|k: int| 0 <= k < msgs.len() && #[trigger] msgs[k].author@ == a
}

/// The texts of a sorted list with repeats left out.
fn dedup_sorted(v: &Vec<String>) -> (r: Vec<String>)
    requires
        texts_sorted(string_views(v@)),
    ensures
        forall|i: int, j: int| 0 <= i < j < r@.len() ==> text_lt(#[trigger] r@[i]@, #[trigger] r@[j]@),
        forall|a: Seq<char>| #[trigger] string_views(r@).contains(a) <==> string_views(v@).contains(a),
{
    let mut out: Vec<String> = Vec::new();
    let mut i: usize = 0;
    while i < v.len()
        invariant
            i <= v@.len(),
            texts_sorted(string_views(v@)),
            forall|p: int, q: int| 0 <= p < q < out@.len() ==> text_lt(#[trigger] out@[p]@, #[trigger] out@[q]@),
            forall|a: Seq<char>| #[trigger] string_views(out@).contains(a) <==> string_views(v@.take(i as int)).contains(a),
            i > 0 ==> out@.len() > 0 && out@[out@.len() - 1]@ == v@[i - 1]@,
            i == 0 ==> out@.len() == 0,
        decreases v@.len() - i,
    {
        let ghost before = out@;
        let ghost x = v@[i as int]@;
        let fresh = out.len() == 0 || !str_eq(out[out.len() - 1].as_str(), v[i].as_str());
        proof {
            assert(string_views(v@)[i as int] == x);
            if i > 0 {
                assert(string_views(v@)[i - 1] == v@[i - 1]@);
            }
        }
        if fresh {
            out.push(v[i].clone());
            proof {
                if i > 0 {
                    let last = before[before.len() - 1]@;
                    assert(text_le(last, x));
                    assert(text_lt(last, x));
                    assert forall|p: int, q: int| 0 <= p < q < out@.len() implies text_lt(#[trigger] out@[p]@, #[trigger] out@[q]@) by {
                        if q == out@.len() - 1 && p < before.len() - 1 {
                            assert(out@[p] == before[p]);
                            lemma_lt_trans(before[p]@, last, x);
                        } else if q < out@.len() - 1 {
                            assert(out@[p] == before[p] && out@[q] == before[q]);
                        }
                    }
                }
            }
        }
        proof {
            let nv = string_views(v@.take(i + 1));
            let ov = string_views(v@.take(i as int));
            assert(nv =~= ov.push(x));
            let ob = string_views(before);
            if fresh {
                assert(string_views(out@) =~= ob.push(x));
            } else {
                assert(out@ == before);
                assert(ob[ob.len() - 1] == x);
            }
            assert forall|a: Seq<char>| #[trigger] string_views(out@).contains(a) <==> nv.contains(a) by {
                if nv.contains(a) {
                    let k = choose|k: int| 0 <= k < nv.len() && nv[k] == a;
                    if k < ov.len() {
                        assert(ov[k] == a);
                        assert(ov.contains(a));
                        assert(ob.contains(a));
                        let w = choose|w: int| 0 <= w < ob.len() && ob[w] == a;
                        assert(string_views(out@)[w] == a);
                    } else if fresh {
                        assert(string_views(out@)[ob.len() as int] == a);
                    } else {
                        assert(string_views(out@)[ob.len() - 1] == a);
                    }
                }
                if string_views(out@).contains(a) {
                    let k = choose|k: int| 0 <= k < string_views(out@).len() && string_views(out@)[k] == a;
                    if k < ob.len() {
                        assert(ob[k] == a);
                        assert(ob.contains(a));
                        assert(ov.contains(a));
                        let w = choose|w: int| 0 <= w < ov.len() && ov[w] == a;
                        assert(nv[w] == a);
                    } else {
                        assert(nv[ov.len() as int] == a);
                    }
                }
            }
        }
        i = i + 1;
    }
    assert(v@.take(v@.len() as int) =~= v@);
    out
}

/// The figures of one topic: how many messages and replies, the authors in
/// order without repeats, and the times of the first and last message.
pub fn topic_stats(messages: &Vec<Message>) -> (r: MessageStats)
    requires
        reply_count(messages@) <= usize::MAX,
    ensures
        r.total_messages == messages@.len(),
        r.total_replies == reply_count(messages@),
        forall|i: int, j: int| 0 <= i < j < r.authors@.len() ==> text_lt(#[trigger] r.authors@[i]@, #[trigger] r.authors@[j]@),
        forall|a: Seq<char>| #[trigger] string_views(r.authors@).contains(a) <==> wrote_one(messages@, a),
        opt_view(r.first_message) == if messages@.len() == 0 { None } else { shown_time(messages@[0].timestamp) },
        opt_view(r.last_message) == if messages@.len() == 0 { None } else {
            shown_time(messages@[messages@.len() - 1].timestamp)
        },
{
    let n = messages.len();
    let mut replies: usize = 0;
    let mut names: Vec<String> = Vec::new();
    let mut i: usize = 0;
    while i < n
        invariant
            i <= n,
            n == messages@.len(),
            reply_count(messages@) <= usize::MAX,
            replies == reply_count(messages@.take(i as int)),
            names@.len() == i,
            forall|k: int| 0 <= k < i ==> #[trigger] names@[k] == messages@[k].author,
        decreases n - i,
    {
        proof {
            assert(messages@.take(i + 1).drop_last() =~= messages@.take(i as int));
            lemma_reply_count_prefix(messages@, i + 1);
        }
        replies = replies + messages[i].replies.len();
        names.push(messages[i].author.clone());
        i = i + 1;
    }
    assert(messages@.take(n as int) =~= messages@);
    let ghost collected = names@;
    sort_texts(&mut names);
    proof {
        assert forall|a: Seq<char>| #[trigger] string_views(names@).contains(a) <==> wrote_one(messages@, a) by {
            if string_views(names@).contains(a) {
                let k = choose|k: int| 0 <= k < names@.len() && string_views(names@)[k] == a;
                assert(names@.to_multiset().count(names@[k]) > 0);
                assert(collected.to_multiset().count(names@[k]) > 0);
                assert(collected.contains(names@[k]));
                let w = choose|w: int| 0 <= w < collected.len() && collected[w] == names@[k];
                assert(messages@[w].author@ == a);
            }
            if wrote_one(messages@, a) {
                let k = choose|k: int| 0 <= k < messages@.len() && #[trigger] messages@[k].author@ == a;
                assert(collected[k] == messages@[k].author);
                assert(collected.to_multiset().count(collected[k]) > 0);
                assert(names@.to_multiset().count(collected[k]) > 0);
                assert(names@.contains(collected[k]));
                let w = choose|w: int| 0 <= w < names@.len() && names@[w] == collected[k];
                assert(string_views(names@)[w] == a);
            }
        }
    }
    let authors = dedup_sorted(&names);
    let first_message = if n == 0 { None } else { rfc3339_at(messages[0].timestamp) };
    let last_message = if n == 0 { None } else { rfc3339_at(messages[n - 1].timestamp) };
    MessageStats { total_messages: n, total_replies: replies, authors, first_message, last_message }
}

/// The order of optional texts: nothing first, then texts in order.
pub open spec fn opt_text_lt(a: Option<Seq<char>>, b: Option<Seq<char>>) -> bool {
    match (a, b) {
        (None, Some(_)) => true,
        (Some(x), Some(y)) => text_lt(x, y),
        _ => false,
    }
}

/// `opt_text_lt` orders: transitively, and any two either way.
proof fn lemma_opt_text_order(a: Option<Seq<char>>, b: Option<Seq<char>>, c: Option<Seq<char>>)
    ensures
        !opt_text_lt(a, b) && !opt_text_lt(b, c) ==> !opt_text_lt(a, c),
        opt_text_lt(a, b) ==> !opt_text_lt(b, a),
{
    match (a, b, c) {
        (Some(x), Some(y), Some(z)) => {
            lemma_text_order(y, x, x);
            lemma_text_order(z, y, y);
            lemma_text_order(z, y, x);
            lemma_text_order(x, z, z);
            if text_lt(x, z) {
                if text_lt(z, x) {
                    lemma_lt_trans(x, z, x);
                    lemma_lt_irreflexive(x);
                }
                if z == x {
                    lemma_lt_irreflexive(x);
                }
            }
        },
        _ => {},
    }
    match (a, b) {
        (Some(x), Some(y)) => {
            if text_lt(x, y) && text_lt(y, x) {
                lemma_lt_trans(x, y, x);
                lemma_lt_irreflexive(x);
            }
        },
        _ => {},
    }
}

/// Whether `a` comes before `b` (see [`opt_text_lt`]).
fn opt_text_less(a: &Option<String>, b: &Option<String>) -> (r: bool)
    ensures
        r == opt_text_lt(opt_view(*a), opt_view(*b)),
{
    match (a, b) {
        (None, Some(_)) => true,
        (Some(x), Some(y)) => text_less(x.as_str(), y.as_str()),
        _ => false,
    }
}

/// Whether the topics run from the latest last message to the earliest, the
/// topics without messages last.
pub open spec fn latest_first(s: Seq<TopicSummary>) -> bool {
    forall|i: int, j: int| 0 <= i < j < s.len()
        ==> !opt_text_lt(opt_view(s[i].last_message_time), opt_view(s[j].last_message_time))
}

/// The topics whose last message has the time text `t`.
pub open spec fn last_at(t: Option<Seq<char>>) -> spec_fn(TopicSummary) -> bool {
    |x: TopicSummary| opt_view(x.last_message_time) == t
}

/// Sorts topics from the latest last message to the earliest, keeping topics
/// of equal times in place.
pub fn sort_latest_first(v: &mut Vec<TopicSummary>)
    ensures
        latest_first(final(v)@),
        final(v)@.to_multiset() == old(v)@.to_multiset(),
        forall|t: Option<Seq<char>>| #[trigger] final(v)@.filter(last_at(t)) == old(v)@.filter(last_at(t)),
{
    let n = v.len();
    if n == 0 {
        return;
    }
    let mut i: usize = 1;
    while i < n
        invariant
            1 <= i <= n,
            n == v@.len(),
            v@.to_multiset() == old(v)@.to_multiset(),
            forall|t: Option<Seq<char>>| #[trigger] v@.filter(last_at(t)) == old(v)@.filter(last_at(t)),
            forall|a: int, b: int| 0 <= a < b < i ==> !opt_text_lt(
                opt_view(v@[a].last_message_time),
                opt_view(v@[b].last_message_time),
            ),
        decreases n - i,
    {
        let ghost before = v@;
        let x = v.remove(i);
        let ghost mid = v@;
        let ghost xt = opt_view(x.last_message_time);
        let mut j: usize = i;
        while j > 0 && opt_text_less(&v[j - 1].last_message_time, &x.last_message_time)
            invariant
                j <= i,
                i < n,
                v@ == mid,
                mid.len() == n - 1,
                xt == opt_view(x.last_message_time),
                forall|a: int, b: int| 0 <= a < b < i ==> !opt_text_lt(
                    opt_view(mid[a].last_message_time),
                    opt_view(mid[b].last_message_time),
                ),
                forall|k: int| j <= k < i ==> opt_text_lt(opt_view(mid[k].last_message_time), xt),
            decreases j,
        {
            j = j - 1;
        }
        v.insert(j, x);
        proof {
            assert(mid == before.remove(i as int));
            let s = v@;
            assert(s == mid.insert(j as int, s[j as int]));
            assert(before =~= mid.insert(i as int, s[j as int]));
            assert forall|t: Option<Seq<char>>| #[trigger] s.filter(last_at(t)) == before.filter(last_at(t)) by {
                assert forall|k: int| j <= k < i implies opt_view(#[trigger] mid[k].last_message_time) != xt by {
                    lemma_opt_text_order(xt, xt, xt);
                }
                lemma_move_back_keeps_class(mid, s[j as int], i as int, j as int, last_at(t));
            }
            assert forall|a: int, b: int| 0 <= a < b < i + 1 implies !opt_text_lt(
                opt_view(s[a].last_message_time),
                opt_view(s[b].last_message_time),
            ) by {
                if b < j {
                    assert(s[a] == mid[a] && s[b] == mid[b]);
                } else if b == j {
                    assert(s[a] == mid[a]);
                    if a < j - 1 {
                        lemma_opt_text_order(
                            opt_view(mid[a].last_message_time),
                            opt_view(mid[j - 1].last_message_time),
                            xt,
                        );
                    }
                } else if a < j {
                    assert(s[a] == mid[a] && s[b] == mid[b - 1]);
                } else if a == j {
                    assert(s[b] == mid[b - 1]);
                    lemma_opt_text_order(opt_view(mid[b - 1].last_message_time), xt, xt);
                } else {
                    assert(s[a] == mid[a - 1] && s[b] == mid[b - 1]);
                }
            }
        }
        i = i + 1;
    }
}

/// The topic list line of a topic: its name, how many messages it holds, and
/// the time of its last message.
pub open spec fn summary_of_topic(t: (String, Vec<Message>), s: TopicSummary) -> bool {
    &&& s.name == t.0
    &&& s.message_count == t.1@.len()
    &&& opt_view(s.last_message_time) == if t.1@.len() == 0 {
        None
    } else {
        shown_time(t.1@[t.1@.len() - 1].timestamp)
    }
}

/// The topic list: one line per topic, from the latest last message to the
/// earliest.
pub fn topic_summaries(topics: &Vec<(String, Vec<Message>)>) -> (r: Vec<TopicSummary>)
    ensures
        latest_first(r@),
        exists|lines: Seq<TopicSummary>| #![trigger lines.len()]
            lines.len() == topics@.len()
            && (forall|i: int| 0 <= i < lines.len() ==> summary_of_topic(topics@[i], #[trigger] lines[i]))
            && r@.to_multiset() == lines.to_multiset()
            && (forall|t: Option<Seq<char>>| #[trigger] r@.filter(last_at(t)) == lines.filter(last_at(t))),
{
    let mut out: Vec<TopicSummary> = Vec::new();
    let mut i: usize = 0;
    while i < topics.len()
        invariant
            i <= topics@.len(),
            out@.len() == i,
            forall|k: int| 0 <= k < i ==> summary_of_topic(topics@[k], #[trigger] out@[k]),
        decreases topics@.len() - i,
    {
        let msgs = &topics[i].1;
        let m = msgs.len();
        let last = if m == 0 { None } else { rfc3339_at(msgs[m - 1].timestamp) };
        out.push(TopicSummary { name: topics[i].0.clone(), message_count: m, last_message_time: last });
        i = i + 1;
    }
    let ghost lines = out@;
    sort_latest_first(&mut out);
    assert(lines.len() == topics@.len());
    out
}

/// Page of a topic's message list.
#[derive(Debug, Clone, Copy)]
pub struct MessageListQuery {
    pub limit: Option<usize>,
    pub offset: Option<usize>,
}

/// Number of items in each TinyMUSH collection.
#[derive(Debug, Clone, Copy)]
pub struct TinyMushStatusCounts {
    pub npcs: usize,
    pub rooms: usize,
    pub companions: usize,
    pub achievements: usize,
    pub quests: usize,
    pub recipes: usize,
}

/// State of the TinyMUSH database.
#[derive(Debug, Clone)]
pub struct TinyMushStatusResponse {
    pub enabled: bool,
    pub initialized: bool,
    pub db_path: String,
    pub error: Option<String>,
    pub counts: Option<TinyMushStatusCounts>,
    pub updated_at: Option<String>,
}

} // verus!
