//! The dashboard's activity feed: admin actions read back from audit lines,
//! and posted messages.
use vstd::prelude::*;
use crate::text::{
    to_owned_string, push_str, trim, trim_spec, find, find_spec, substring, str_eq, char_width, alphabetic_spec,
    is_alphabetic, utf8_len, is_byte_boundary,
};
use crate::ui::{utf8_prefix, utf8_fit_count, lemma_fit_at_boundary};

verus! {

/// The kind of an activity.
#[derive(Debug, Clone, Copy, PartialEq, Eq, Structural)]
pub enum ActivityType {
    Message,
    UserChange,
    AdminAction,
}

/// One item of the feed.
#[derive(Debug, Clone)]
pub struct ActivityEntry {
    pub activity_type: ActivityType,
    pub timestamp: String,
    pub actor: String,
    pub description: String,
    pub icon: Option<String>,
    pub link: Option<String>,
}

/// How many items the feed shows.
#[derive(Debug, Clone, Copy)]
pub struct ActivityQuery {
    pub limit: usize,
}

/// The feed.
#[derive(Debug)]
pub struct ActivityResponse {
    pub activities: Vec<ActivityEntry>,
    pub total: usize,
}

/// The number of items shown when none is asked for.
pub fn default_limit() -> (n: usize)
    ensures
        n == 10,
{
    10
}

/// Index of the first alphabetic character of `s` at or after `i`, or -1.
pub open spec fn first_alpha_from(s: Seq<char>, i: int) -> int
    decreases s.len() - i,
{
    if i < 0 || i >= s.len() {
        -1
    } else if alphabetic_spec(s[i]) {
        i
    } else {
        first_alpha_from(s, i + 1)
    }
}

/// Index of the first `c` in `s` at or after `i`, or -1.
pub open spec fn first_char_from(s: Seq<char>, c: char, i: int) -> int
    decreases s.len() - i,
{
    if i < 0 || i >= s.len() {
        -1
    } else if s[i] == c {
        i
    } else {
        first_char_from(s, c, i + 1)
    }
}

/// The fields of an audit line that the feed uses.
pub struct ActivityFields {
    pub action: Option<Seq<char>>,
    pub user: Option<Seq<char>>,
    pub resource: Option<Seq<char>>,
    pub reason: Option<Seq<char>>,
}

/// The fields after reading `key=value`.
pub open spec fn assign_activity(f: ActivityFields, key: Seq<char>, value: Seq<char>) -> ActivityFields {
    if key == "ACTION"@ {
        ActivityFields { action: Some(value), ..f }
    } else if key == "USER"@ {
        ActivityFields { user: Some(value), ..f }
    } else if key == "RESOURCE"@ {
        ActivityFields { resource: Some(value), ..f }
    } else if key == "REASON"@ {
        ActivityFields { reason: Some(value), ..f }
    } else {
        f
    }
}

/// The fields read from `rest[pos..]`: from the next alphabetic character a
/// key runs to `=`; a value in double quotes runs to the next quote, any
/// other to the next space or the end. `None` when a key or its `=` or a
/// closing quote is missing.
pub open spec fn activity_fields(rest: Seq<char>, pos: int, f: ActivityFields) -> Option<ActivityFields>
    decreases rest.len() - pos,
{
    if pos < 0 || pos >= rest.len() {
        Some(f)
    } else {
        let ks = first_alpha_from(rest, pos);
        let ke = first_char_from(rest, '=', ks);
        if ks == -1 || ke == -1 {
            None
        } else {
            proof {
                lemma_first_alpha(rest, pos);
                lemma_first_char(rest, '=', ks);
            }
            let key = rest.subrange(ks, ke);
            let vs = ke + 1;
            if vs < rest.len() && rest[vs] == '"' {
                let qe = first_char_from(rest, '"', vs + 1);
                if qe == -1 {
                    None
                } else {
                    proof {
                        lemma_first_char(rest, '"', vs + 1);
                    }
                    activity_fields(rest, qe + 1, assign_activity(f, key, rest.subrange(vs + 1, qe)))
                }
            } else {
                let sp = first_char_from(rest, ' ', vs);
                let ve = if sp == -1 { rest.len() as int } else { sp };
                proof {
                    lemma_first_char(rest, ' ', vs);
                }
                activity_fields(rest, ve, assign_activity(f, key, rest.subrange(vs, ve)))
            }
        }
    }
}

/// Facts about [`first_alpha_from`].
pub proof fn lemma_first_alpha(s: Seq<char>, i: int)
    requires
        0 <= i,
    ensures
        first_alpha_from(s, i) == -1 || (i <= first_alpha_from(s, i) < s.len() && alphabetic_spec(s[first_alpha_from(s, i)])),
        forall|k: int| i <= k < s.len() && (first_alpha_from(s, i) == -1 || k < first_alpha_from(s, i)) ==> !alphabetic_spec(#[trigger] s[k]),
    decreases s.len() - i,
{
    if i < s.len() && !alphabetic_spec(s[i]) {
        lemma_first_alpha(s, i + 1);
    }
}

/// Facts about [`first_char_from`].
pub proof fn lemma_first_char(s: Seq<char>, c: char, i: int)
    requires
        0 <= i,
    ensures
        first_char_from(s, c, i) == -1 || (i <= first_char_from(s, c, i) < s.len() && s[first_char_from(s, c, i)] == c),
        forall|k: int| i <= k < s.len() && (first_char_from(s, c, i) == -1 || k < first_char_from(s, c, i)) ==> #[trigger] s[k] != c,
    decreases s.len() - i,
{
    if i < s.len() && s[i] != c {
        lemma_first_char(s, c, i + 1);
    }
}

fn first_alpha_exec(s: &str, i: usize) -> (r: Option<usize>)
    requires
        i <= s@.len(),
    ensures
        match r {
            Some(k) => k as int == first_alpha_from(s@, i as int),
            None => first_alpha_from(s@, i as int) == -1,
        },
{
    let n = s.unicode_len();
    let mut k: usize = i;
    while k < n
        invariant
            i <= k <= n,
            n == s@.len(),
            first_alpha_from(s@, i as int) == first_alpha_from(s@, k as int),
        decreases n - k,
    {
        if is_alphabetic(s.get_char(k)) {
            return Some(k);
        }
        k = k + 1;
    }
    None
}

fn first_char_exec(s: &str, c: char, i: usize) -> (r: Option<usize>)
    requires
        i <= s@.len(),
    ensures
        match r {
            Some(k) => k as int == first_char_from(s@, c, i as int),
            None => first_char_from(s@, c, i as int) == -1,
        },
{
    let n = s.unicode_len();
    let mut k: usize = i;
    while k < n
        invariant
            i <= k <= n,
            n == s@.len(),
            first_char_from(s@, c, i as int) == first_char_from(s@, c, k as int),
        decreases n - k,
    {
        if s.get_char(k) == c {
            return Some(k);
        }
        k = k + 1;
    }
    None
}

/// Whether a line can be read: the time stamp is cut from the second byte to
/// the first `]`, which needs that `]` after the first character and that
/// character to be one byte long.
pub open spec fn activity_line_readable(line: Seq<char>) -> bool {
    let k = find_spec(line, "]"@);
    k == -1 || (k >= 1 && char_width(line[0]) == 1)
}

/// The description and icon of an admin action, or `None` for a view,
/// update or delete that names no resource.
pub open spec fn action_summary(f: ActivityFields, action: Seq<char>) -> Option<(Seq<char>, Option<Seq<char>>)> {
    if action == "LOGIN"@ {
        Some(("logged in"@, Some("\u{1F510}"@)))
    } else if action == "LOGOUT"@ {
        Some(("logged out"@, Some("\u{1F6AA}"@)))
    } else if action == "VIEW"@ {
        match f.resource {
            Some(r) => Some(("viewed "@ + r, Some("\u{1F441}\u{FE0F}"@))),
            None => None,
        }
    } else if action == "UPDATE"@ {
        match f.resource {
            Some(r) => Some(("updated "@ + r + " ("@ + match f.reason {
                Some(x) => x,
                None => Seq::<char>::empty(),
            } + ")"@, Some("\u{270F}\u{FE0F}"@))),
            None => None,
        }
    } else if action == "DELETE"@ {
        match f.resource {
            Some(r) => Some(("deleted "@ + r, Some("\u{1F5D1}\u{FE0F}"@))),
            None => None,
        }
    } else {
        Some(("performed "@ + action, None))
    }
}

/// The feed item of an audit line: time stamp (trimmed), actor and a
/// description of the action; `None` when the line has no `]`, cannot be
/// read, lacks an action or user, or names no resource where one is needed.
pub open spec fn activity_of_line(line: Seq<char>) -> Option<(Seq<char>, Seq<char>, Seq<char>, Option<Seq<char>>)> {
    let k = find_spec(line, "]"@);
    if k == -1 {
        None
    } else {
        match activity_fields(line.skip(k + 1), 0, ActivityFields { action: None, user: None, resource: None, reason: None }) {
            None => None,
            Some(f) => match (f.action, f.user) {
                (Some(a), Some(u)) => match action_summary(f, a) {
                    Some((d, icon)) => Some((trim_spec(line.subrange(1, k)), u, d, icon)),
                    None => None,
                },
                _ => None,
            },
        }
    }
}

fn opt_str(o: &Option<String>) -> (r: Option<&str>)
    ensures
        match *o {
            Some(s) => r matches Some(t) && t@ == s@,
            None => r is None,
        },
{
    match o {
        Some(s) => Some(s.as_str()),
        None => None,
    }
}

/// Reads an audit line into a feed item (see [`activity_of_line`]).
pub fn parse_audit_activity(line: &str) -> (r: Option<ActivityEntry>)
    requires
        activity_line_readable(line@),
    ensures
        match activity_of_line(line@) {
            Some((ts, actor, d, icon)) => r matches Some(e) && e.activity_type == ActivityType::AdminAction && e.timestamp@
                == ts && e.actor@ == actor && e.description@ == d && (match e.icon {
                Some(i) => Some(i@),
                None => None,
            }) == icon && e.link is None,
            None => r is None,
        },
{
    let k = match find(line, "]") {
        Some(k) => k,
        None => return None,
    };
    let n = line.unicode_len();
    proof {
        crate::text::lemma_find_from_bounds(line@, "]"@, 0);
        reveal_strlit("]");
    }
    let timestamp = trim(substring(line, 1, k));
    let rest = substring(line, k + 1, n);
    proof {
        assert(rest@ =~= line@.skip(k + 1));
    }
    let rn = rest.unicode_len();
    let mut action: Option<String> = None;
    let mut user: Option<String> = None;
    let mut resource: Option<String> = None;
    let mut reason: Option<String> = None;
    let ghost start = ActivityFields { action: None, user: None, resource: None, reason: None };
    let mut pos: usize = 0;
    while pos < rn
        invariant
            pos <= rn,
            rn == rest@.len(),
            rest@ == line@.skip(k + 1),
            k as int == find_spec(line@, "]"@),
            start == (ActivityFields { action: None, user: None, resource: None, reason: None }),
            activity_fields(rest@, 0, start) == activity_fields(rest@, pos as int, ActivityFields {
                action: match action { Some(s) => Some(s@), None => None },
                user: match user { Some(s) => Some(s@), None => None },
                resource: match resource { Some(s) => Some(s@), None => None },
                reason: match reason { Some(s) => Some(s@), None => None },
            }),
        decreases rn - pos,
    {
        proof {
            lemma_first_alpha(rest@, pos as int);
        }
        let ks = match first_alpha_exec(rest, pos) {
            Some(x) => x,
            None => return None,
        };
        proof {
            lemma_first_char(rest@, '=', ks as int);
        }
        let ke = match first_char_exec(rest, '=', ks) {
            Some(x) => x,
            None => return None,
        };
        let key = substring(rest, ks, ke);
        let vs = ke + 1;
        let value: &str;
        let next: usize;
        if vs < rn && rest.get_char(vs) == '"' {
            proof {
                lemma_first_char(rest@, '"', vs + 1);
            }
            let qe = match first_char_exec(rest, '"', vs + 1) {
                Some(x) => x,
                None => return None,
            };
            value = substring(rest, vs + 1, qe);
            next = qe + 1;
        } else {
            proof {
                lemma_first_char(rest@, ' ', vs as int);
            }
            let ve = match first_char_exec(rest, ' ', vs) {
                Some(x) => x,
                None => rn,
            };
            value = substring(rest, vs, ve);
            next = ve;
        }
        if str_eq(key, "ACTION") {
            action = Some(to_owned_string(value));
        } else if str_eq(key, "USER") {
            user = Some(to_owned_string(value));
        } else if str_eq(key, "RESOURCE") {
            resource = Some(to_owned_string(value));
        } else if str_eq(key, "REASON") {
            reason = Some(to_owned_string(value));
        }
        pos = next;
    }
    let (a, u) = match (action, user) {
        (Some(a), Some(u)) => (a, u),
        _ => return None,
    };
    let act = a.as_str();
    let (description, icon): (String, Option<String>) = if str_eq(act, "LOGIN") {
        (to_owned_string("logged in"), Some(to_owned_string("\u{1F510}")))
    } else if str_eq(act, "LOGOUT") {
        (to_owned_string("logged out"), Some(to_owned_string("\u{1F6AA}")))
    } else if str_eq(act, "VIEW") {
        match opt_str(&resource) {
            Some(res) => {
                let mut d = to_owned_string("viewed ");
                push_str(&mut d, res);
                (d, Some(to_owned_string("\u{1F441}\u{FE0F}")))
            },
            None => return None,
        }
    } else if str_eq(act, "UPDATE") {
        match opt_str(&resource) {
            Some(res) => {
                let mut d = to_owned_string("updated ");
                push_str(&mut d, res);
                push_str(&mut d, " (");
                match opt_str(&reason) {
                    Some(x) => push_str(&mut d, x),
                    None => {},
                }
                push_str(&mut d, ")");
                proof {
                    let detail = match reason { Some(x) => x@, None => Seq::<char>::empty() };
                    assert(d@ =~= "updated "@ + res@ + " ("@ + detail + ")"@);
                }
                (d, Some(to_owned_string("\u{270F}\u{FE0F}")))
            },
            None => return None,
        }
    } else if str_eq(act, "DELETE") {
        match opt_str(&resource) {
            Some(res) => {
                let mut d = to_owned_string("deleted ");
                push_str(&mut d, res);
                (d, Some(to_owned_string("\u{1F5D1}\u{FE0F}")))
            },
            None => return None,
        }
    } else {
        let mut d = to_owned_string("performed ");
        push_str(&mut d, act);
        (d, None)
    };
    Some(ActivityEntry {
        activity_type: ActivityType::AdminAction,
        timestamp: to_owned_string(timestamp),
        actor: u,
        description,
        icon,
        link: None,
    })
}

} // verus!
