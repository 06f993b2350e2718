//! Reading the audit log back: one line into its fields, and the filtered,
//! paged listing the dashboard shows.
use vstd::prelude::*;
use crate::text::{
    to_owned_string, opt_view, push_str, push_char, trim, trim_spec, find, find_spec, substring, split_whitespace,
    string_views, words, str_eq, eq_ignore_ascii_case, eq_ignore_ascii_case_spec, contains, contains_spec,
    char_width, lowercase_spec, no_whitespace, is_whitespace_spec, trim_start_spec, trim_end_spec, spaced,
    lemma_spaced_concat, lemma_words_spaced, find_from_spec, matches_at,
};
use crate::ui::join_spec;
use crate::clock::{rfc3339_char, rfc3339_shaped};
use crate::audit::{AuditEntry, audit_line, action_text, head_text, resource_text, tail_text, reason_text};

verus! {

/// One parsed line of the audit log.
#[derive(Debug, Clone)]
pub struct AuditLogEntry {
    pub timestamp: String,
    pub action: String,
    pub user: String,
    pub resource: Option<String>,
    pub ip_address: String,
    pub session_token: String,
    pub status: String,
    pub reason: Option<String>,
}

/// Filters and page of an audit listing.
#[derive(Debug, Clone)]
pub struct AuditLogQuery {
    /// Only this action (any ASCII case).
    pub action: Option<String>,
    /// Only this user (any ASCII case).
    pub user: Option<String>,
    /// Only this status (any ASCII case).
    pub status: Option<String>,
    /// Only entries whose resource or reason holds this text, in any case.
    pub search: Option<String>,
    /// Page number, from 1.
    pub page: usize,
    /// Page size.
    pub limit: usize,
}

/// One page of an audit listing.
#[derive(Debug)]
pub struct AuditLogResponse {
    pub entries: Vec<AuditLogEntry>,
    pub total: usize,
    pub page: usize,
    pub page_size: usize,
    pub total_pages: usize,
}

/// The page shown when none is asked for.
pub fn default_page() -> (p: usize)
    ensures
        p == 1,
{
    1
}

/// The page size used when none is asked for.
pub fn default_page_size() -> (p: usize)
    ensures
        p == 50,
{
    50
}

/// The fields read from a line so far.
pub struct AuditFields {
    pub action: Seq<char>,
    pub user: Seq<char>,
    pub resource: Option<Seq<char>>,
    pub ip: Seq<char>,
    pub session: Seq<char>,
    pub status: Seq<char>,
    pub reason: Option<Seq<char>>,
}

/// No field read yet.
pub open spec fn no_fields() -> AuditFields {
    AuditFields {
        action: Seq::empty(),
        user: Seq::empty(),
        resource: None,
        ip: Seq::empty(),
        session: Seq::empty(),
        status: Seq::empty(),
        reason: None,
    }
}

/// The fields after reading `key=value`; a later value of a key replaces an
/// earlier one, and unknown keys are ignored.
pub open spec fn assign_field(f: AuditFields, key: Seq<char>, value: Seq<char>) -> AuditFields {
    if key == "ACTION"@ {
        AuditFields { action: value, ..f }
    } else if key == "USER"@ {
        AuditFields { user: value, ..f }
    } else if key == "RESOURCE"@ {
        AuditFields { resource: Some(value), ..f }
    } else if key == "IP"@ {
        AuditFields { ip: value, ..f }
    } else if key == "SESSION"@ {
        AuditFields { session: value, ..f }
    } else if key == "STATUS"@ {
        AuditFields { status: value, ..f }
    } else if key == "REASON"@ {
        AuditFields { reason: Some(value), ..f }
    } else {
        f
    }
}

/// Whether a word ends with a double quote.
pub open spec fn ends_with_quote(w: Seq<char>) -> bool {
    w.len() > 0 && w.last() == '"'
}

/// A quoted value without its closing quote.
pub open spec fn unquote_end(v: Seq<char>) -> Seq<char> {
    if ends_with_quote(v) { v.drop_last() } else { v }
}

/// The fields read from the words `parts[i..]`. A word `KEY=value` sets a
/// field; a value opening with a double quote takes in the following words,
/// one space apart, until a word that ends with a quote has been taken, and
/// loses its quotes. `pending` holds a quoted value being read.
pub open spec fn fields_from(parts: Seq<Seq<char>>, i: int, f: AuditFields, pending: Option<(Seq<char>, Seq<char>)>) -> AuditFields
    decreases parts.len() - i, if pending is Some { 1int } else { 0int },
{
    if i < 0 || i > parts.len() {
        f
    } else {
        match pending {
            Some((key, v)) => if i < parts.len() && i >= 1 && !ends_with_quote(parts[i - 1]) {
                fields_from(parts, i + 1, f, Some((key, v + " "@ + parts[i])))
            } else {
                fields_from(parts, i, assign_field(f, key, unquote_end(v)), None)
            },
            None => if i >= parts.len() {
                f
            } else {
                let part = parts[i];
                let p = find_spec(part, "="@);
                if p == -1 {
                    fields_from(parts, i + 1, f, None)
                } else {
                    let key = part.take(p);
                    let raw = part.skip(p + 1);
                    if raw.len() > 0 && raw[0] == '"' {
                        fields_from(parts, i + 1, f, Some((key, raw.drop_first())))
                    } else {
                        fields_from(parts, i + 1, assign_field(f, key, raw), None)
                    }
                }
            },
        }
    }
}

/// Whether a line can be read: reading cuts the time stamp out from the
/// second byte to the first `]`, which needs that `]` after the first
/// character and that character to be one byte long.
pub open spec fn audit_line_readable(line: Seq<char>) -> bool {
    let k = find_spec(line, "]"@);
    trim_spec(line).len() == 0 || k == -1 || (k >= 1 && char_width(line[0]) == 1)
}

/// The entry a line holds: `None` for a blank line or one without `]`; else
/// the time stamp between the first character and the first `]`, and the
/// fields read from the words after it.
pub open spec fn parsed_line(line: Seq<char>) -> Option<(Seq<char>, AuditFields)> {
    let k = find_spec(line, "]"@);
    if trim_spec(line).len() == 0 || k == -1 {
        None
    } else {
        Some((line.subrange(1, k), fields_from(words(line.skip(k + 1)), 0, no_fields(), None)))
    }
}

/// Whether `e` holds the time stamp `ts` and the fields `f`.
pub open spec fn entry_holds(e: AuditLogEntry, ts: Seq<char>, f: AuditFields) -> bool {
    &&& e.timestamp@ == ts
    &&& e.action@ == f.action
    &&& e.user@ == f.user
    &&& opt_view(e.resource) == f.resource
    &&& e.ip_address@ == f.ip
    &&& e.session_token@ == f.session
    &&& e.status@ == f.status
    &&& opt_view(e.reason) == f.reason
}

/// The exec form of the fields being read.
struct FieldsBuf {
    action: String,
    user: String,
    resource: Option<String>,
    ip: String,
    session: String,
    status: String,
    reason: Option<String>,
}

impl FieldsBuf {
    spec fn view_fields(&self) -> AuditFields {
        AuditFields {
            action: self.action@,
            user: self.user@,
            resource: opt_view(self.resource),
            ip: self.ip@,
            session: self.session@,
            status: self.status@,
            reason: opt_view(self.reason),
        }
    }

    fn assign(&mut self, key: &str, value: String)
        ensures
            final(self).view_fields() == assign_field(old(self).view_fields(), key@, value@),
    {
        if str_eq(key, "ACTION") {
            self.action = value;
        } else if str_eq(key, "USER") {
            self.user = value;
        } else if str_eq(key, "RESOURCE") {
            self.resource = Some(value);
        } else if str_eq(key, "IP") {
            self.ip = value;
        } else if str_eq(key, "SESSION") {
            self.session = value;
        } else if str_eq(key, "STATUS") {
            self.status = value;
        } else if str_eq(key, "REASON") {
            self.reason = Some(value);
        }
    }
}

fn ends_with_quote_exec(w: &str) -> (r: bool)
    ensures
        r == ends_with_quote(w@),
{
    let n = w.unicode_len();
    n > 0 && w.get_char(n - 1) == '"'
}

fn drop_last_char(s: String) -> (r: String)
    requires
        s@.len() > 0,
    ensures
        r@ == s@.drop_last(),
{
    let n = s.as_str().unicode_len();
    to_owned_string(substring(s.as_str(), 0, n - 1))
}

/// Reads one line of the audit log (see [`parsed_line`]).
pub fn parse_audit_line(line: &str) -> (r: Option<AuditLogEntry>)
    requires
        audit_line_readable(line@),
    ensures
        match parsed_line(line@) {
            Some((ts, f)) => r matches Some(e) && entry_holds(e, ts, f),
            None => r is None,
        },
{
    if trim(line).unicode_len() == 0 {
        return None;
    }
    let k = match find(line, "]") {
        Some(k) => k,
        None => return None,
    };
    let n = line.unicode_len();
    proof {
        crate::text::lemma_find_from_bounds(line@, "]"@, 0);
        reveal_strlit("]");
    }
    let timestamp = to_owned_string(substring(line, 1, k));
    let rest = substring(line, k + 1, n);
    proof {
        assert(rest@ =~= line@.skip(k + 1));
    }
    let parts = split_whitespace(rest);
    let ghost ps = string_views(parts@);
    let np = parts.len();
    let mut f = FieldsBuf {
        action: String::new(),
        user: String::new(),
        resource: None,
        ip: String::new(),
        session: String::new(),
        status: String::new(),
        reason: None,
    };
    let mut pending_key: Option<String> = None;
    let mut pending_value = String::new();
    let mut i: usize = 0;
    assert(f.view_fields() == no_fields());
    loop
        invariant
            i <= np,
            np == parts@.len(),
            ps == string_views(parts@),
            ps.len() == np,
            fields_from(ps, 0, no_fields(), None) == fields_from(ps, i as int, f.view_fields(), match pending_key {
                Some(key) => Some((key@, pending_value@)),
                None => None,
            }),
        ensures
            pending_key is None,
            i == np,
            fields_from(ps, 0, no_fields(), None) == fields_from(ps, i as int, f.view_fields(), None),
        decreases np - i, if pending_key is Some { 1int } else { 0int },
    {
        match pending_key {
            Some(key) => {
                if i < np && i >= 1 && !ends_with_quote_exec(parts[i - 1].as_str()) {
                    assert(ps[i - 1] == parts@[i - 1]@);
                    assert(ps[i as int] == parts@[i as int]@);
                    let ghost v0 = pending_value@;
                    push_char(&mut pending_value, ' ');
                    push_str(&mut pending_value, parts[i].as_str());
                    proof {
                        reveal_strlit(" ");
                        assert(pending_value@ =~= v0 + " "@ + ps[i as int]);
                    }
                    pending_key = Some(key);
                    i = i + 1;
                } else {
                    proof {
                        if i < np && i >= 1 {
                            assert(ps[i - 1] == parts@[i - 1]@);
                        }
                    }
                    let v = if ends_with_quote_exec(pending_value.as_str()) {
                        drop_last_char(pending_value)
                    } else {
                        pending_value
                    };
                    f.assign(key.as_str(), v);
                    pending_key = None;
                    pending_value = String::new();
                }
            },
            None => {
                if i >= np {
                    break;
                }
                let part = parts[i].as_str();
                assert(ps[i as int] == part@);
                match find(part, "=") {
                    None => {
                        i = i + 1;
                    },
                    Some(p) => {
                        proof {
                            crate::text::lemma_find_from_bounds(part@, "="@, 0);
                            reveal_strlit("=");
                        }
                        let m = part.unicode_len();
                        let key = substring(part, 0, p);
                        let raw = substring(part, p + 1, m);
                        proof {
                            assert(key@ =~= part@.take(p as int));
                            assert(raw@ =~= part@.skip(p + 1));
                        }
                        let rn = raw.unicode_len();
                        if rn > 0 && raw.get_char(0) == '"' {
                            let v = to_owned_string(substring(raw, 1, rn));
                            assert(v@ =~= raw@.drop_first());
                            pending_key = Some(to_owned_string(key));
                            pending_value = v;
                            i = i + 1;
                        } else {
                            f.assign(key, to_owned_string(raw));
                            i = i + 1;
                        }
                    },
                }
            },
        }
    }
    Some(AuditLogEntry {
        timestamp,
        action: f.action,
        user: f.user,
        resource: f.resource,
        ip_address: f.ip,
        session_token: f.session,
        status: f.status,
        reason: f.reason,
    })
}

/// Whether an optional filter lets `value` through: no filter, or the same
/// text up to ASCII case.
pub open spec fn filter_passes(filter: Option<String>, value: Seq<char>) -> bool {
    match filter {
        Some(f) => eq_ignore_ascii_case_spec(value, f@),
        None => true,
    }
}

/// Whether an optional text holds `needle` once both are lower-cased.
pub open spec fn mentions(text: Option<String>, needle: Seq<char>) -> bool {
    match text {
        Some(t) => contains_spec(lowercase_spec(t@), lowercase_spec(needle)),
        None => false,
    }
}

/// Whether an entry passes the filters of a query.
pub open spec fn entry_matches(e: AuditLogEntry, q: AuditLogQuery) -> bool {
    &&& filter_passes(q.action, e.action@)
    &&& filter_passes(q.user, e.user@)
    &&& filter_passes(q.status, e.status@)
    &&& match q.search {
        Some(s) => mentions(e.resource, s@) || mentions(e.reason, s@),
        None => true,
    }
}

/// The entries of `s` that pass the query, in order.
pub open spec fn matching(s: Seq<AuditLogEntry>, q: AuditLogQuery) -> Seq<AuditLogEntry>
    decreases s.len(),
{
    if s.len() == 0 {
        Seq::empty()
    } else {
        let rest = matching(s.drop_last(), q);
        if entry_matches(s.last(), q) {
            rest.push(s.last())
        } else {
            rest
        }
    }
}

/// Entries `start..start + limit` of `k`, as far as there are any.
pub open spec fn window(k: Seq<AuditLogEntry>, start: nat, limit: nat) -> Seq<AuditLogEntry> {
    let a = if start <= k.len() { start as int } else { k.len() as int };
    let b = if start + limit <= k.len() { (start + limit) as int } else { k.len() as int };
    k.subrange(a, b)
}

/// Where page `page` starts (pages count from 1; page 0 counts as page 1).
pub open spec fn listing_start(page: nat, limit: nat) -> nat {
    (if page >= 1 { (page - 1) as nat } else { 0nat }) * limit
}

/// Whether a listing of `entries` can be computed: a positive page size, and
/// no overflow in the page count or the page start.
pub open spec fn listing_fits(entries: Seq<AuditLogEntry>, q: AuditLogQuery) -> bool {
    &&& q.limit > 0
    &&& matching(entries.reverse(), q).len() + q.limit - 1 <= usize::MAX
    &&& listing_start(q.page as nat, q.limit as nat) <= usize::MAX
}

fn passes(filter: &Option<String>, value: &str) -> (r: bool)
    ensures
        r == filter_passes(*filter, value@),
{
    match filter {
        Some(f) => eq_ignore_ascii_case(value, f.as_str()),
        None => true,
    }
}

fn mentions_exec(text: &Option<String>, needle_lower: &str) -> (r: bool)
    ensures
        forall|n: Seq<char>| needle_lower@ == lowercase_spec(n) ==> r == mentions(*text, n),
{
    match text {
        Some(t) => {
            let lt = crate::text::to_lowercase(t.as_str());
            contains(lt.as_str(), needle_lower)
        },
        None => false,
    }
}

fn entry_matches_exec(e: &AuditLogEntry, q: &AuditLogQuery) -> (r: bool)
    ensures
        r == entry_matches(*e, *q),
{
    if !passes(&q.action, e.action.as_str()) {
        return false;
    }
    if !passes(&q.user, e.user.as_str()) {
        return false;
    }
    if !passes(&q.status, e.status.as_str()) {
        return false;
    }
    match &q.search {
        Some(s) => {
            let sl = crate::text::to_lowercase(s.as_str());
            let in_resource = mentions_exec(&e.resource, sl.as_str());
            let in_reason = mentions_exec(&e.reason, sl.as_str());
            in_resource || in_reason
        },
        None => true,
    }
}

/// The page of the audit log that a query asks for: entries newest first,
/// those passing the filters, the page `page` of `limit` of them, with the
/// number that passed and the number of pages.
pub fn select_audit_entries(entries: Vec<AuditLogEntry>, query: &AuditLogQuery) -> (r: AuditLogResponse)
    requires
        listing_fits(entries@, *query),
    ensures
        r.total == matching(entries@.reverse(), *query).len(),
        r.total_pages == (r.total + query.limit - 1) / (query.limit as int),
        r.page == query.page,
        r.page_size == query.limit,
        r.entries@ == window(matching(entries@.reverse(), *query), listing_start(query.page as nat, query.limit as nat),
            query.limit as nat),
{
    let ghost orig = entries@;
    let ghost newest = orig.reverse();
    let n = entries.len();
    let page_index: usize = if query.page >= 1 { query.page - 1 } else { 0 };
    proof {
        assert(page_index * query.limit == listing_start(query.page as nat, query.limit as nat));
        if n > 0 {
            lemma_matching_prefix_len(newest, *query, n as int);
        }
    }
    let start: usize = page_index * query.limit;
    let limit = query.limit;
    let mut rest = entries;
    let mut out: Vec<AuditLogEntry> = Vec::new();
    let mut total: usize = 0;
    let mut j: usize = 0;
    assert(newest.take(0) =~= Seq::<AuditLogEntry>::empty());
    while j < n
        invariant
            j <= n,
            n == orig.len(),
            newest == orig.reverse(),
            rest@ == orig.take(n - j),
            total == matching(newest.take(j as int), *query).len(),
            matching(newest, *query).len() + limit - 1 <= usize::MAX,
            limit == query.limit,
            limit > 0,
            out@ == window(matching(newest.take(j as int), *query), start as nat, limit as nat),
        decreases n - j,
    {
        let e = rest.pop().unwrap();
        proof {
            assert(e == newest[j as int]);
            assert(newest.take(j + 1).drop_last() =~= newest.take(j as int));
            assert(newest.take(j + 1).last() == e);
            assert(rest@ =~= orig.take(n - (j + 1)));
            lemma_matching_prefix_len(newest, *query, j + 1);
        }
        let ghost k0 = matching(newest.take(j as int), *query);
        if entry_matches_exec(&e, query) {
            let ghost k1 = k0.push(e);
            if total >= start && total - start < limit {
                out.push(e);
                proof {
                    assert(out@ =~= window(k1, start as nat, limit as nat));
                }
            } else {
                proof {
                    assert(window(k0, start as nat, limit as nat) =~= window(k1, start as nat, limit as nat));
                }
            }
            total = total + 1;
        }
        j = j + 1;
    }
    proof {
        assert(newest.take(n as int) =~= newest);
    }
    let total_pages = (total + (limit - 1)) / limit;
    AuditLogResponse { entries: out, total, page: query.page, page_size: query.limit, total_pages }
}

/// A prefix never has more matching entries than the whole.
proof fn lemma_matching_prefix_len(s: Seq<AuditLogEntry>, q: AuditLogQuery, j: int)
    requires
        0 <= j <= s.len(),
    ensures
        matching(s.take(j), q).len() <= matching(s, q).len(),
        matching(s.take(j), q).len() <= j,
    decreases s.len() - j,
{
    lemma_matching_len(s.take(j), q);
    if j < s.len() {
        lemma_matching_prefix_len(s, q, j + 1);
        assert(s.take(j + 1).drop_last() =~= s.take(j));
    } else {
        assert(s.take(j) =~= s);
    }
}

/// Filtering never lengthens a sequence.
proof fn lemma_matching_len(s: Seq<AuditLogEntry>, q: AuditLogQuery)
    ensures
        matching(s, q).len() <= s.len(),
    decreases s.len(),
{
    if s.len() > 0 {
        lemma_matching_len(s.drop_last(), q);
    }
}


proof fn lemma_find_first_from(s: Seq<char>, c: char, i: int, k: int)
    requires
        0 <= i <= k < s.len(),
        s[k] == c,
        forall|j: int| 0 <= j < k ==> s[j] != c,
    ensures
        find_from_spec(s, seq![c], i) == k,
    decreases k - i,
{
    let p = seq![c];
    if i == k {
        assert(s.subrange(k, k + 1) =~= p);
    } else {
        assert(s.subrange(i, i + 1)[0] == s[i]);
        assert(!matches_at(s, p, i));
        lemma_find_first_from(s, c, i + 1, k);
    }
}

/// The first occurrence of a character is where `find` finds it.
proof fn lemma_find_first(s: Seq<char>, c: char, k: int)
    requires
        0 <= k < s.len(),
        s[k] == c,
        forall|j: int| 0 <= j < k ==> s[j] != c,
    ensures
        find_spec(s, seq![c]) == k,
{
    lemma_find_first_from(s, c, 0, k);
}

proof fn lemma_trim_end_nonempty(s: Seq<char>)
    requires
        s.len() > 0,
        !is_whitespace_spec(s[0]),
    ensures
        trim_end_spec(s).len() > 0,
    decreases s.len(),
{
    if s.len() > 1 && is_whitespace_spec(s.last()) {
        assert(s.drop_last()[0] == s[0]);
        lemma_trim_end_nonempty(s.drop_last());
    }
}

/// A value written as one word: no whitespace, and no double quote first.
pub open spec fn plain_value(v: Seq<char>) -> bool {
    no_whitespace(v) && (v.len() == 0 || v[0] != '"')
}

/// Whether `key` holds no `=`.
pub open spec fn no_equals(key: Seq<char>) -> bool {
    forall|j: int| 0 <= j < key.len() ==> key[j] != '='
}

/// A word `key=value` with a plain value sets that field and moves on.
proof fn lemma_plain_part(parts: Seq<Seq<char>>, i: int, f: AuditFields, key: Seq<char>, v: Seq<char>)
    requires
        0 <= i < parts.len(),
        parts[i] == key + seq!['='] + v,
        no_equals(key),
        v.len() == 0 || v[0] != '"',
    ensures
        fields_from(parts, i, f, None) == fields_from(parts, i + 1, assign_field(f, key, v), None),
{
    let part = parts[i];
    reveal_strlit("=");
    assert(forall|j: int| 0 <= j < key.len() ==> part[j] == key[j]);
    assert(part[key.len() as int] == '=');
    lemma_find_first(part, '=', key.len() as int);
    assert("="@ =~= seq!['=']);
    assert(part.take(key.len() as int) =~= key);
    assert(part.skip(key.len() as int + 1) =~= v);
}


/// Words of a reason: each non-empty, without whitespace or double quote.
pub open spec fn plain_words(ws: Seq<Seq<char>>) -> bool {
    forall|i: int| 0 <= i < ws.len() ==> (#[trigger] ws[i]).len() > 0 && no_whitespace(ws[i]) && !ws[i].contains('"')
}

/// The start of the word that opens a quoted reason.
pub open spec fn reason_key() -> Seq<char> {
    "REASON="@ + seq!['"']
}

/// The words of a quoted reason without its closing quote.
pub open spec fn reason_open(ws: Seq<Seq<char>>) -> Seq<Seq<char>>
    decreases ws.len(),
{
    if ws.len() <= 1 {
        seq![reason_key() + ws[0]]
    } else {
        reason_open(ws.drop_last()).push(ws.last())
    }
}

/// The words that `REASON="<ws joined by spaces>"` splits into.
pub open spec fn reason_parts(ws: Seq<Seq<char>>) -> Seq<Seq<char>> {
    if ws.len() == 0 {
        seq![reason_key() + seq!['"']]
    } else {
        let o = reason_open(ws);
        o.update(o.len() - 1, o.last() + seq!['"'])
    }
}

proof fn lemma_reason_open_shape(ws: Seq<Seq<char>>)
    requires
        ws.len() >= 1,
    ensures
        reason_open(ws).len() == ws.len(),
        reason_open(ws)[0] == reason_key() + ws[0],
        forall|k: int| 1 <= k < ws.len() ==> #[trigger] reason_open(ws)[k] == ws[k],
    decreases ws.len(),
{
    if ws.len() > 1 {
        lemma_reason_open_shape(ws.drop_last());
        assert forall|k: int| 1 <= k < ws.len() implies #[trigger] reason_open(ws)[k] == ws[k] by {
            if k < ws.len() - 1 {
                assert(reason_open(ws.drop_last())[k] == ws.drop_last()[k]);
            }
        }
    }
}

/// The shape of the reason words: the first opens with `REASON="`, the last
/// ends with the closing quote.
proof fn lemma_reason_parts_shape(ws: Seq<Seq<char>>)
    requires
        ws.len() >= 1,
    ensures
        reason_parts(ws).len() == ws.len(),
        forall|k: int| 0 <= k < ws.len() ==> #[trigger] reason_parts(ws)[k] == (if k == 0 { reason_key() } else {
            Seq::<char>::empty()
        }) + ws[k] + (if k == ws.len() - 1 { seq!['"'] } else { Seq::<char>::empty() }),
{
    lemma_reason_open_shape(ws);
    let o = reason_open(ws);
    assert forall|k: int| 0 <= k < ws.len() implies #[trigger] reason_parts(ws)[k] == (if k == 0 { reason_key() } else {
        Seq::<char>::empty()
    }) + ws[k] + (if k == ws.len() - 1 { seq!['"'] } else { Seq::<char>::empty() }) by {
        if k == 0 {
            assert(o[0] == reason_key() + ws[0]);
        } else {
            assert(o[k] == ws[k]);
            assert(Seq::<char>::empty() + ws[k] =~= ws[k]);
        }
        if k == ws.len() - 1 {
            assert(o.last() == o[k]);
        } else {
            assert(o[k] + Seq::<char>::empty() =~= o[k]);
        }
    }
}

proof fn lemma_reason_open_spaced(ws: Seq<Seq<char>>)
    requires
        ws.len() >= 1,
    ensures
        spaced(reason_open(ws)) == seq![' '] + reason_key() + join_spec(ws, " "@),
    decreases ws.len(),
{
    reveal_strlit(" ");
    if ws.len() == 1 {
        let o = reason_open(ws);
        assert(o.drop_last() =~= Seq::<Seq<char>>::empty());
        assert(spaced(o.drop_last()) == Seq::<char>::empty());
        assert(o.last() == reason_key() + ws[0]);
        assert(spaced(o) == spaced(o.drop_last()) + seq![' '] + o.last());
        assert(join_spec(ws, " "@) == ws[0]);
        assert(spaced(o) =~= seq![' '] + reason_key() + ws[0]);
    } else {
        lemma_reason_open_spaced(ws.drop_last());
        assert(reason_open(ws).drop_last() =~= reason_open(ws.drop_last()));
        assert(spaced(reason_open(ws)) =~= seq![' '] + reason_key() + join_spec(ws.drop_last(), " "@) + " "@ + ws.last());
    }
}

/// The reason words, each after a space, are the reason as the log line writes it.
proof fn lemma_reason_spaced(ws: Seq<Seq<char>>)
    ensures
        spaced(reason_parts(ws)) == seq![' '] + reason_key() + join_spec(ws, " "@) + seq!['"'],
{
    if ws.len() == 0 {
        let p = reason_parts(ws);
        assert(p.drop_last() =~= Seq::<Seq<char>>::empty());
        assert(spaced(p.drop_last()) == Seq::<char>::empty());
        assert(p.last() == reason_key() + seq!['"']);
        assert(spaced(p) == spaced(p.drop_last()) + seq![' '] + p.last());
        assert(join_spec(ws, " "@) == Seq::<char>::empty());
        assert(spaced(p) =~= seq![' '] + reason_key() + join_spec(ws, " "@) + seq!['"']);
    } else {
        lemma_reason_open_spaced(ws);
        lemma_reason_open_shape(ws);
        let o = reason_open(ws);
        let p = reason_parts(ws);
        assert(p.drop_last() =~= o.drop_last());
        assert(p.last() == o.last() + seq!['"']);
        assert(spaced(p) =~= spaced(o) + seq!['"']);
    }
}

/// Every reason word is non-empty and free of whitespace.
proof fn lemma_reason_parts_plain(ws: Seq<Seq<char>>)
    requires
        plain_words(ws),
    ensures
        forall|k: int| 0 <= k < reason_parts(ws).len() ==> (#[trigger] reason_parts(ws)[k]).len() > 0 && no_whitespace(
            reason_parts(ws)[k],
        ),
{
    reveal_strlit("REASON=");
    if ws.len() == 0 {
        let w = reason_key() + seq!['"'];
        assert(reason_parts(ws)[0] == w);
        assert(no_whitespace(w));
    } else {
        lemma_reason_parts_shape(ws);
        assert forall|k: int| 0 <= k < reason_parts(ws).len() implies (#[trigger] reason_parts(ws)[k]).len() > 0
            && no_whitespace(reason_parts(ws)[k]) by {
            let a = if k == 0 { reason_key() } else { Seq::<char>::empty() };
            let b = if k == ws.len() - 1 { seq!['"'] } else { Seq::<char>::empty() };
            let w = reason_parts(ws)[k];
            assert(w == a + ws[k] + b);
            assert(no_whitespace(ws[k]));
            assert forall|j: int| 0 <= j < w.len() implies !is_whitespace_spec(#[trigger] w[j]) by {
                if j < a.len() {
                    assert(w[j] == a[j]);
                } else if j < a.len() + ws[k].len() {
                    assert(w[j] == ws[k][j - a.len()]);
                } else {
                    assert(w[j] == b[j - a.len() - ws[k].len()]);
                }
            }
        }
    }
}


/// A word `key="value` opens a quoted value.
proof fn lemma_quoted_part(parts: Seq<Seq<char>>, i: int, f: AuditFields, key: Seq<char>, v: Seq<char>)
    requires
        0 <= i < parts.len(),
        parts[i] == key + seq!['='] + (seq!['"'] + v),
        no_equals(key),
    ensures
        fields_from(parts, i, f, None) == fields_from(parts, i + 1, f, Some((key, v))),
{
    let part = parts[i];
    reveal_strlit("=");
    assert(forall|j: int| 0 <= j < key.len() ==> part[j] == key[j]);
    assert(part[key.len() as int] == '=');
    lemma_find_first(part, '=', key.len() as int);
    assert("="@ =~= seq!['=']);
    assert(part.take(key.len() as int) =~= key);
    let raw = part.skip(key.len() as int + 1);
    assert(raw =~= seq!['"'] + v);
    assert(raw.drop_first() =~= v);
}

/// The end of the line: nothing more is read.
proof fn lemma_fields_end(parts: Seq<Seq<char>>, f: AuditFields)
    ensures
        fields_from(parts, parts.len() as int, f, None) == f,
{
}

proof fn lemma_reason_pending(parts: Seq<Seq<char>>, m: int, f: AuditFields, ws: Seq<Seq<char>>, j: int)
    requires
        plain_words(ws),
        ws.len() >= 1,
        0 <= m,
        1 <= j <= ws.len(),
        parts.len() == m + ws.len(),
        forall|k: int| 0 <= k < ws.len() ==> parts[m + k] == #[trigger] reason_parts(ws)[k],
    ensures
        fields_from(parts, m + j, f, Some(("REASON"@, join_spec(ws.take(j), " "@) + if j == ws.len() {
            seq!['"']
        } else {
            Seq::<char>::empty()
        }))) == assign_field(f, "REASON"@, join_spec(ws, " "@)),
    decreases ws.len() - j,
{
    lemma_reason_parts_shape(ws);
    let n = ws.len() as int;
    let v = join_spec(ws.take(j), " "@) + if j == n { seq!['"'] } else { Seq::<char>::empty() };
    if j == n {
        assert(ws.take(j) =~= ws);
        assert(ends_with_quote(v));
        assert(unquote_end(v) =~= join_spec(ws, " "@));
        lemma_fields_end(parts, assign_field(f, "REASON"@, join_spec(ws, " "@)));
    } else {
        let i = m + j;
        let prev = parts[i - 1];
        assert(prev == reason_parts(ws)[j - 1]);
        let a = if j - 1 == 0 { reason_key() } else { Seq::<char>::empty() };
        assert(prev == a + ws[j - 1] + Seq::<char>::empty());
        assert(ws[j - 1].len() > 0);
        assert(prev.last() == ws[j - 1].last());
        assert(!ws[j - 1].contains('"'));
        assert(ws[j - 1][ws[j - 1].len() - 1] == ws[j - 1].last());
        assert(!ends_with_quote(prev));
        let cur = parts[i];
        assert(cur == reason_parts(ws)[j]);
        let b = if j == n - 1 { seq!['"'] } else { Seq::<char>::empty() };
        assert(cur == Seq::<char>::empty() + ws[j] + b);
        reveal_strlit(" ");
        assert(ws.take(j + 1).drop_last() =~= ws.take(j));
        assert(ws.take(j + 1).last() == ws[j]);
        assert(join_spec(ws.take(j + 1), " "@) == join_spec(ws.take(j), " "@) + " "@ + ws[j]);
        assert(v + " "@ + cur =~= join_spec(ws.take(j + 1), " "@) + b);
        lemma_reason_pending(parts, m, f, ws, j + 1);
    }
}

/// The reason words read back as the reason, its words one space apart.
proof fn lemma_reason_fields(parts: Seq<Seq<char>>, m: int, f: AuditFields, ws: Seq<Seq<char>>)
    requires
        plain_words(ws),
        0 <= m,
        parts.len() == m + reason_parts(ws).len(),
        forall|k: int| 0 <= k < reason_parts(ws).len() ==> parts[m + k] == #[trigger] reason_parts(ws)[k],
    ensures
        fields_from(parts, m, f, None) == assign_field(f, "REASON"@, join_spec(ws, " "@)),
{
    reveal_strlit("REASON=");
    reveal_strlit("REASON");
    assert("REASON="@ =~= "REASON"@ + seq!['=']);
    assert(no_equals("REASON"@));
    if ws.len() == 0 {
        assert(parts[m] == reason_parts(ws)[0]);
        assert(parts[m] =~= "REASON"@ + seq!['='] + (seq!['"'] + seq!['"']));
        lemma_quoted_part(parts, m, f, "REASON"@, seq!['"']);
        assert(unquote_end(seq!['"']) =~= Seq::<char>::empty());
        assert(join_spec(ws, " "@) == Seq::<char>::empty());
        lemma_fields_end(parts, assign_field(f, "REASON"@, join_spec(ws, " "@)));
    } else {
        lemma_reason_parts_shape(ws);
        let n = ws.len() as int;
        let b = if 0 == n - 1 { seq!['"'] } else { Seq::<char>::empty() };
        assert(parts[m] == reason_parts(ws)[0]);
        assert(parts[m] =~= "REASON"@ + seq!['='] + (seq!['"'] + (ws[0] + b)));
        lemma_quoted_part(parts, m, f, "REASON"@, ws[0] + b);
        assert(ws.take(1) =~= seq![ws[0]]);
        assert(join_spec(ws.take(1), " "@) == ws[0]);
        lemma_reason_pending(parts, m, f, ws, 1);
    }
}


/// The part of the session token that a log line shows.
pub open spec fn shown_session(e: AuditEntry) -> Seq<char> {
    crate::audit::shown_token(e.session_token@)
}

/// The fields that the log line of `e` records.
pub open spec fn written_fields(e: AuditEntry) -> AuditFields {
    AuditFields {
        action: action_text(e.action),
        user: e.username@,
        resource: opt_view(e.resource),
        ip: e.ip_address@,
        session: shown_session(e),
        status: e.status@,
        reason: opt_view(e.reason),
    }
}

proof fn lemma_action_plain(a: crate::audit::AuditAction)
    ensures
        plain_value(action_text(a)),
{
    reveal_strlit("LOGIN");
    reveal_strlit("LOGOUT");
    reveal_strlit("LOGIN_FAILED");
    reveal_strlit("CREATE");
    reveal_strlit("UPDATE");
    reveal_strlit("DELETE");
    reveal_strlit("VIEW");
    reveal_strlit("EXPORT");
    reveal_strlit("IMPORT");
    reveal_strlit("CONFIG_CHANGE");
    let t = action_text(a);
    assert forall|i: int| 0 <= i < t.len() implies !is_whitespace_spec(#[trigger] t[i]) by {
        assert('A' <= t[i] <= 'Z' || t[i] == '_');
    }
}

/// `key=value` as one word, with a key of letters and a plain value.
proof fn lemma_key_value_word(key: Seq<char>, v: Seq<char>)
    requires
        forall|j: int| 0 <= j < key.len() ==> 'A' <= #[trigger] key[j] <= 'Z',
        plain_value(v),
    ensures
        (key + seq!['='] + v).len() > 0,
        no_whitespace(key + seq!['='] + v),
        no_equals(key),
{
    let w = key + seq!['='] + v;
    assert(w[key.len() as int] == '=');
    assert forall|j: int| 0 <= j < w.len() implies !is_whitespace_spec(#[trigger] w[j]) by {
        if j < key.len() {
            assert(w[j] == key[j]);
        } else if j > key.len() {
            assert(w[j] == v[j - key.len() - 1]);
        }
    }
}

/// The words that the log line of `e` holds after its time stamp, the
/// reason written as `reason_words`.
pub open spec fn line_parts(e: AuditEntry, reason_words: Seq<Seq<char>>) -> Seq<Seq<char>> {
    seq!["ACTION"@ + seq!['='] + action_text(e.action), "USER"@ + seq!['='] + e.username@] + match e.resource {
        Some(r) => seq!["RESOURCE"@ + seq!['='] + r@],
        None => Seq::empty(),
    } + seq!["IP"@ + seq!['='] + e.ip_address@, "SESSION"@ + seq!['='] + shown_session(e), "STATUS"@ + seq!['=']
        + e.status@] + match e.reason {
        Some(_) => reason_parts(reason_words),
        None => Seq::empty(),
    }
}

/// Whether the reason of `e`, if any, is `reason_words` one space apart,
/// none of them holding whitespace or a double quote.
pub open spec fn reason_written_as(e: AuditEntry, reason_words: Seq<Seq<char>>) -> bool {
    e.reason matches Some(r) ==> plain_words(reason_words) && r@ == join_spec(reason_words, " "@)
}

proof fn lemma_spaced_two(x: Seq<char>, y: Seq<char>)
    ensures
        spaced(seq![x, y]) == seq![' '] + x + seq![' '] + y,
{
    let e0 = Seq::<Seq<char>>::empty();
    assert(spaced(e0) == Seq::<char>::empty());
    assert(seq![x].drop_last() =~= e0);
    assert(spaced(seq![x]) == spaced(e0) + seq![' '] + x);
    assert(seq![x, y].drop_last() =~= seq![x]);
    assert(spaced(seq![x, y]) =~= seq![' '] + x + seq![' '] + y);
}

proof fn lemma_spaced_three(x: Seq<char>, y: Seq<char>, z: Seq<char>)
    ensures
        spaced(seq![x, y, z]) == seq![' '] + x + seq![' '] + y + seq![' '] + z,
{
    lemma_spaced_two(x, y);
    assert(seq![x, y, z].drop_last() =~= seq![x, y]);
    assert(spaced(seq![x, y, z]) =~= seq![' '] + x + seq![' '] + y + seq![' '] + z);
}

proof fn lemma_spaced_one(x: Seq<char>)
    ensures
        spaced(seq![x]) == seq![' '] + x,
{
    let e0 = Seq::<Seq<char>>::empty();
    assert(spaced(e0) == Seq::<char>::empty());
    assert(seq![x].drop_last() =~= e0);
    assert(spaced(seq![x]) =~= seq![' '] + x);
}

proof fn lemma_field_labels()
    ensures
        " ACTION="@ == seq![' '] + "ACTION"@ + seq!['='],
        " USER="@ == seq![' '] + "USER"@ + seq!['='],
        " RESOURCE="@ == seq![' '] + "RESOURCE"@ + seq!['='],
        " IP="@ == seq![' '] + "IP"@ + seq!['='],
        " SESSION="@ == seq![' '] + "SESSION"@ + seq!['='],
        " STATUS="@ == seq![' '] + "STATUS"@ + seq!['='],
        " REASON="@ == seq![' '] + "REASON="@,
{
    reveal_strlit(" ACTION=");
    reveal_strlit(" USER=");
    reveal_strlit(" RESOURCE=");
    reveal_strlit(" IP=");
    reveal_strlit(" SESSION=");
    reveal_strlit(" STATUS=");
    reveal_strlit(" REASON=");
    reveal_strlit("ACTION");
    reveal_strlit("USER");
    reveal_strlit("RESOURCE");
    reveal_strlit("IP");
    reveal_strlit("SESSION");
    reveal_strlit("STATUS");
    reveal_strlit("REASON=");
    assert(" ACTION="@ =~= seq![' '] + "ACTION"@ + seq!['=']);
    assert(" USER="@ =~= seq![' '] + "USER"@ + seq!['=']);
    assert(" RESOURCE="@ =~= seq![' '] + "RESOURCE"@ + seq!['=']);
    assert(" IP="@ =~= seq![' '] + "IP"@ + seq!['=']);
    assert(" SESSION="@ =~= seq![' '] + "SESSION"@ + seq!['=']);
    assert(" STATUS="@ =~= seq![' '] + "STATUS"@ + seq!['=']);
    assert(" REASON="@ =~= seq![' '] + "REASON="@);
}

/// The words before the resource.
pub open spec fn head_parts(e: AuditEntry) -> Seq<Seq<char>> {
    seq!["ACTION"@ + seq!['='] + action_text(e.action), "USER"@ + seq!['='] + e.username@]
}

/// The resource word, if any.
pub open spec fn resource_parts(e: AuditEntry) -> Seq<Seq<char>> {
    match e.resource {
        Some(r) => seq!["RESOURCE"@ + seq!['='] + r@],
        None => Seq::empty(),
    }
}

/// The words between the resource and the reason.
pub open spec fn tail_parts(e: AuditEntry) -> Seq<Seq<char>> {
    seq!["IP"@ + seq!['='] + e.ip_address@, "SESSION"@ + seq!['='] + shown_session(e), "STATUS"@ + seq!['=']
        + e.status@]
}

/// The reason words, if any.
pub open spec fn reason_word_parts(e: AuditEntry, reason_words: Seq<Seq<char>>) -> Seq<Seq<char>> {
    match e.reason {
        Some(_) => reason_parts(reason_words),
        None => Seq::empty(),
    }
}

proof fn lemma_line_text(e: AuditEntry, ts: Seq<char>, reason_words: Seq<Seq<char>>)
    requires
        reason_written_as(e, reason_words),
    ensures
        audit_line(e, ts) == "["@ + ts + "]"@ + spaced(line_parts(e, reason_words)),
{
    lemma_field_labels();
    let front = head_parts(e);
    let res = resource_parts(e);
    let back = tail_parts(e);
    let rea = reason_word_parts(e, reason_words);
    assert(line_parts(e, reason_words) == front + res + back + rea);
    lemma_spaced_concat(front + res + back, rea);
    lemma_spaced_concat(front + res, back);
    lemma_spaced_concat(front, res);
    lemma_spaced_two(front[0], front[1]);
    assert(front == seq![front[0], front[1]]);
    assert(spaced(front) =~= head_text(e));
    lemma_spaced_three(back[0], back[1], back[2]);
    assert(back == seq![back[0], back[1], back[2]]);
    assert(spaced(back) =~= tail_text(e));
    assert(spaced(res) =~= resource_text(e)) by {
        match e.resource {
            Some(r) => {
                lemma_spaced_one(res[0]);
                assert(res == seq![res[0]]);
            },
            None => {
                assert(spaced(res) == Seq::<char>::empty());
            },
        }
    }
    assert(spaced(rea) =~= reason_text(e)) by {
        match e.reason {
            Some(r) => {
                lemma_reason_spaced(reason_words);
            },
            None => {
                assert(spaced(rea) == Seq::<char>::empty());
            },
        }
    }
}

proof fn lemma_line_parts_plain(e: AuditEntry, reason_words: Seq<Seq<char>>)
    requires
        plain_value(e.username@),
        plain_value(e.ip_address@),
        plain_value(e.status@),
        plain_value(shown_session(e)),
        e.resource matches Some(r) ==> plain_value(r@),
        reason_written_as(e, reason_words),
    ensures
        forall|i: int| 0 <= i < line_parts(e, reason_words).len() ==> (#[trigger] line_parts(e, reason_words)[i]).len() > 0
            && no_whitespace(line_parts(e, reason_words)[i]),
{
    reveal_strlit("ACTION");
    reveal_strlit("USER");
    reveal_strlit("RESOURCE");
    reveal_strlit("IP");
    reveal_strlit("SESSION");
    reveal_strlit("STATUS");
    lemma_action_plain(e.action);
    lemma_key_value_word("ACTION"@, action_text(e.action));
    lemma_key_value_word("USER"@, e.username@);
    lemma_key_value_word("IP"@, e.ip_address@);
    lemma_key_value_word("SESSION"@, shown_session(e));
    lemma_key_value_word("STATUS"@, e.status@);
    if e.reason is Some {
        lemma_reason_parts_plain(reason_words);
    }
    let res_parts: Seq<Seq<char>> = match e.resource {
        Some(r) => {
            lemma_key_value_word("RESOURCE"@, r@);
            seq!["RESOURCE"@ + seq!['='] + r@]
        },
        None => Seq::empty(),
    };
    let rea_parts: Seq<Seq<char>> = match e.reason {
        Some(_) => reason_parts(reason_words),
        None => Seq::empty(),
    };
    let front = seq!["ACTION"@ + seq!['='] + action_text(e.action), "USER"@ + seq!['='] + e.username@];
    let back = seq!["IP"@ + seq!['='] + e.ip_address@, "SESSION"@ + seq!['='] + shown_session(e), "STATUS"@ + seq!['=']
        + e.status@];
    let parts = line_parts(e, reason_words);
    assert(parts == front + res_parts + back + rea_parts);
    assert forall|i: int| 0 <= i < parts.len() implies (#[trigger] parts[i]).len() > 0 && no_whitespace(parts[i]) by {
        let fr = front.len() + res_parts.len();
        if i < front.len() {
            assert(parts[i] == front[i]);
        } else if i < fr {
            assert(parts[i] == res_parts[i - front.len()]);
        } else if i < fr + back.len() {
            assert(parts[i] == back[i - fr]);
        } else {
            assert(parts[i] == rea_parts[i - fr - back.len()]);
        }
    }
}

proof fn lemma_assign_keys(f: AuditFields, v: Seq<char>)
    ensures
        assign_field(f, "ACTION"@, v) == (AuditFields { action: v, ..f }),
        assign_field(f, "USER"@, v) == (AuditFields { user: v, ..f }),
        assign_field(f, "RESOURCE"@, v) == (AuditFields { resource: Some(v), ..f }),
        assign_field(f, "IP"@, v) == (AuditFields { ip: v, ..f }),
        assign_field(f, "SESSION"@, v) == (AuditFields { session: v, ..f }),
        assign_field(f, "STATUS"@, v) == (AuditFields { status: v, ..f }),
        assign_field(f, "REASON"@, v) == (AuditFields { reason: Some(v), ..f }),
{
    reveal_strlit("ACTION");
    reveal_strlit("USER");
    reveal_strlit("RESOURCE");
    reveal_strlit("IP");
    reveal_strlit("SESSION");
    reveal_strlit("STATUS");
    reveal_strlit("REASON");
    assert("USER"@ != "ACTION"@) by {
        assert("USER"@.len() != "ACTION"@.len());
    }
    assert("RESOURCE"@ != "ACTION"@ && "RESOURCE"@ != "USER"@) by {
        assert("RESOURCE"@.len() != "ACTION"@.len());
        assert("RESOURCE"@.len() != "USER"@.len());
    }
    assert("IP"@ != "ACTION"@ && "IP"@ != "USER"@ && "IP"@ != "RESOURCE"@) by {
        assert("IP"@.len() == 2);
    }
    assert("SESSION"@ != "ACTION"@ && "SESSION"@ != "USER"@ && "SESSION"@ != "RESOURCE"@ && "SESSION"@ != "IP"@) by {
        assert("SESSION"@.len() == 7);
        assert("SESSION"@[0] != "ACTION"@[0]);
    }
    assert("STATUS"@ != "ACTION"@ && "STATUS"@ != "USER"@ && "STATUS"@ != "RESOURCE"@ && "STATUS"@ != "IP"@
        && "STATUS"@ != "SESSION"@) by {
        assert("STATUS"@[0] != "ACTION"@[0]);
        assert("STATUS"@.len() != "SESSION"@.len());
    }
    assert("REASON"@ != "ACTION"@ && "REASON"@ != "USER"@ && "REASON"@ != "RESOURCE"@ && "REASON"@ != "IP"@
        && "REASON"@ != "SESSION"@ && "REASON"@ != "STATUS"@) by {
        assert("REASON"@[0] != "ACTION"@[0]);
        assert("REASON"@[0] != "STATUS"@[0]);
        assert("REASON"@.len() != "SESSION"@.len());
        assert("REASON"@[2] != "RESOURCE"@[2]);
    }
}

#[verifier::rlimit(30)]
proof fn lemma_line_fields(e: AuditEntry, reason_words: Seq<Seq<char>>)
    requires
        plain_value(e.username@),
        plain_value(e.ip_address@),
        plain_value(e.status@),
        plain_value(shown_session(e)),
        e.resource matches Some(r) ==> plain_value(r@),
        reason_written_as(e, reason_words),
    ensures
        fields_from(line_parts(e, reason_words), 0, no_fields(), None) == written_fields(e),
{
    reveal_strlit("ACTION");
    reveal_strlit("USER");
    reveal_strlit("RESOURCE");
    reveal_strlit("IP");
    reveal_strlit("SESSION");
    reveal_strlit("STATUS");
    reveal_strlit("REASON");
    let parts = line_parts(e, reason_words);
    let a = action_text(e.action);
    let u = e.username@;
    let ip = e.ip_address@;
    let se = shown_session(e);
    let st = e.status@;
    lemma_action_plain(e.action);
    lemma_key_value_word("ACTION"@, a);
    lemma_key_value_word("USER"@, u);
    lemma_key_value_word("IP"@, ip);
    lemma_key_value_word("SESSION"@, se);
    lemma_key_value_word("STATUS"@, st);
    let r: int = if e.resource is Some { 1 } else { 0 };
    let f0 = no_fields();
    lemma_plain_part(parts, 0, f0, "ACTION"@, a);
    lemma_assign_keys(f0, a);
    let f1 = assign_field(f0, "ACTION"@, a);
    lemma_plain_part(parts, 1, f1, "USER"@, u);
    lemma_assign_keys(f1, u);
    let f2 = assign_field(f1, "USER"@, u);
    let f3 = match e.resource {
        Some(rr) => {
            lemma_key_value_word("RESOURCE"@, rr@);
            assert(parts[2] == "RESOURCE"@ + seq!['='] + rr@);
            lemma_plain_part(parts, 2, f2, "RESOURCE"@, rr@);
            lemma_assign_keys(f2, rr@);
            assign_field(f2, "RESOURCE"@, rr@)
        },
        None => f2,
    };
    assert(parts[2 + r] == "IP"@ + seq!['='] + ip);
    lemma_plain_part(parts, 2 + r, f3, "IP"@, ip);
    lemma_assign_keys(f3, ip);
    let f4 = assign_field(f3, "IP"@, ip);
    assert(parts[3 + r] == "SESSION"@ + seq!['='] + se);
    lemma_plain_part(parts, 3 + r, f4, "SESSION"@, se);
    lemma_assign_keys(f4, se);
    let f5 = assign_field(f4, "SESSION"@, se);
    assert(parts[4 + r] == "STATUS"@ + seq!['='] + st);
    lemma_plain_part(parts, 4 + r, f5, "STATUS"@, st);
    lemma_assign_keys(f5, st);
    let f6 = assign_field(f5, "STATUS"@, st);
    assert(f6 == AuditFields { reason: None, ..written_fields(e) });
    let m = 5 + r;
    match e.reason {
        Some(rr) => {
            assert forall|q: int| 0 <= q < reason_parts(reason_words).len() implies parts[m + q]
                == #[trigger] reason_parts(reason_words)[q] by {
            }
            lemma_reason_fields(parts, m, f6, reason_words);
            lemma_assign_keys(f6, join_spec(reason_words, " "@));
        },
        None => {
            assert(parts.len() == m);
            lemma_fields_end(parts, f6);
        },
    }
    assert(fields_from(parts, 0, no_fields(), None) =~= written_fields(e));
}

/// A line written to the audit log reads back as what was written: its time
/// stamp (when that holds no `]`), the action, the user, the resource, the
/// address, the shown part of the session token and the status (when each
/// is one word that does not open with a double quote), and the reason
/// (when it is words without whitespace or double quotes, one space apart).
pub proof fn lemma_audit_line_reads_back(e: AuditEntry, ts: Seq<char>, reason_words: Seq<Seq<char>>)
    requires
        !ts.contains(']'),
        plain_value(e.username@),
        plain_value(e.ip_address@),
        plain_value(e.status@),
        plain_value(shown_session(e)),
        e.resource matches Some(r) ==> plain_value(r@),
        reason_written_as(e, reason_words),
    ensures
        audit_line_readable(audit_line(e, ts)),
        parsed_line(audit_line(e, ts)) == Some((ts, written_fields(e))),
{
    reveal_strlit("[");
    reveal_strlit("]");
    let parts = line_parts(e, reason_words);
    let t = spaced(parts);
    lemma_line_text(e, ts, reason_words);
    lemma_line_parts_plain(e, reason_words);
    lemma_words_spaced(parts);
    lemma_line_fields(e, reason_words);
    let line = audit_line(e, ts);
    let k = ts.len() + 1;
    assert(line[0] == '[');
    assert(line[k as int] == ']');
    assert forall|j: int| 0 <= j < k implies line[j] != ']' by {
        if j > 0 {
            assert(line[j] == ts[j - 1]);
            if ts[j - 1] == ']' {
                assert(ts.contains(']'));
            }
        }
    }
    lemma_find_first(line, ']', k as int);
    assert("]"@ =~= seq![']']);
    assert(line.subrange(1, k as int) =~= ts);
    assert(line.skip(k as int + 1) =~= t);
    assert(!is_whitespace_spec('['));
    assert(trim_start_spec(line) == line);
    lemma_trim_end_nonempty(line);
    assert(char_width('[') == 1);
}

/// A line that `AuditEntry::format` writes reads back as the entry: the
/// time stamp comes back as RFC 3339 text, and the fields as written (under
/// the same conditions on the fields as [`lemma_audit_line_reads_back`]).
pub proof fn lemma_formatted_line_reads_back(e: AuditEntry, line: Seq<char>, reason_words: Seq<Seq<char>>)
    requires
        exists|ts: Seq<char>| rfc3339_shaped(ts) && line == #[trigger] audit_line(e, ts),
        plain_value(e.username@),
        plain_value(e.ip_address@),
        plain_value(e.status@),
        plain_value(shown_session(e)),
        e.resource matches Some(r) ==> plain_value(r@),
        reason_written_as(e, reason_words),
    ensures
        audit_line_readable(line),
        parsed_line(line) matches Some((ts, f)) && rfc3339_shaped(ts) && f == written_fields(e),
{
    let ts = choose|ts: Seq<char>| rfc3339_shaped(ts) && line == #[trigger] audit_line(e, ts);
    assert(!ts.contains(']')) by {
        if ts.contains(']') {
            let i = choose|i: int| 0 <= i < ts.len() && ts[i] == ']';
            assert(rfc3339_char(ts[i]));
        }
    }
    lemma_audit_line_reads_back(e, ts, reason_words);
}

} // verus!
