//! A user's session on the BBS: who is logged in from which node, where they
//! are in the menus, and the prompt they are shown.
//!
//! Times are milliseconds since the Unix epoch.
use vstd::prelude::*;
use crate::text::{to_owned_string, push_str, push_char, write_decimal, decimal_spec, parse_u32, substring, str_eq,
    string_views};
use crate::mesh::{short_hex_label, short_hex_label_spec};
use crate::text::parse_u32_spec;
use crate::clock::{now_millis, valid_millis};

verus! {

/// Where a session is in the menus.
#[derive(Debug, Clone, Copy, PartialEq, Eq, Structural)]
pub enum SessionState {
    Connected,
    LoggingIn,
    MainMenu,
    MessageAreas,
    ReadingMessages,
    PostingMessage,
    UserMenu,
    Disconnected,
}

/// A user session.
#[derive(Debug)]
pub struct Session {
    pub id: String,
    pub node_id: String,
    pub short_label: Option<String>,
    pub long_label: Option<String>,
    pub username: Option<String>,
    pub user_level: u8,
    pub current_area: Option<String>,
    /// Whether the short HELP was shown already in this session.
    pub help_seen: bool,
    pub login_time: i64,
    pub last_activity: i64,
    pub state: SessionState,
}

/// Longest timeout, in minutes, that a time span can express.
pub const MAX_TIMEOUT_MINUTES: i64 = 153_722_867_280_912;

/// The name shown for a session: the username, or "Guest".
pub open spec fn display_name_spec(s: Session) -> Seq<char> {
    match s.username {
        Some(u) => u@,
        None => "Guest"@,
    }
}

/// Short label of a node: the given one, else `0x` and six hex digits of a
/// numeric node id, else the node id itself.
pub open spec fn node_short_spec(s: Session) -> Seq<char> {
    match s.short_label {
        Some(l) => l@,
        None => match parse_u32_spec(s.node_id@) {
            Some(n) => short_hex_label_spec(n),
            None => s.node_id@,
        },
    }
}

/// An area name as the prompt shows it: at most 20 characters, else its
/// first 19 characters and `…`.
pub open spec fn area_label(a: Seq<char>) -> Seq<char> {
    if a.len() <= 20 {
        a
    } else {
        a.take(19).push('…')
    }
}

/// `<user> (lvl<level>)>`.
pub open spec fn level_prompt(s: Session) -> Seq<char> {
    display_name_spec(s) + " (lvl"@ + decimal_spec(s.user_level as nat) + ")>"@
}

/// The prompt of a session: "unauth>" before login; "post@<area>>" (or
/// "post>") while posting; "<user>@<area>>" in an area; "" once disconnected;
/// "<user> (lvl<level>)>" otherwise.
pub open spec fn prompt_spec(s: Session) -> Seq<char> {
    if s.username is None {
        "unauth>"@
    } else {
        match s.state {
            SessionState::PostingMessage => match s.current_area {
                Some(a) => "post@"@ + area_label(a@) + ">"@,
                None => "post>"@,
            },
            SessionState::ReadingMessages | SessionState::MessageAreas => match s.current_area {
                Some(a) => display_name_spec(s) + "@"@ + area_label(a@) + ">"@,
                None => level_prompt(s),
            },
            SessionState::Disconnected => Seq::<char>::empty(),
            _ => level_prompt(s),
        }
    }
}

/// Whether more than `timeout_minutes` passed between the last activity of
/// `s` and `now` (ms).
pub open spec fn idle_longer_than(s: Session, timeout_minutes: i64, now: i64) -> bool {
    now - s.last_activity > timeout_minutes * 60000
}

impl Session {
    /// A fresh guest session on `node_id`, opened at `now`.
    pub fn new_at(id: String, node_id: String, now: i64) -> (s: Self)
        ensures
            s.id == id,
            s.node_id == node_id,
            s.short_label is None,
            s.long_label is None,
            s.username is None,
            s.user_level == 0,
            s.current_area is None,
            !s.help_seen,
            s.login_time == now,
            s.last_activity == now,
            s.state == SessionState::Connected,
    {
        Session {
            id,
            node_id,
            short_label: None,
            long_label: None,
            username: None,
            user_level: 0,
            current_area: None,
            help_seen: false,
            login_time: now,
            last_activity: now,
            state: SessionState::Connected,
        }
    }

    /// A fresh guest session on `node_id`, opened now.
    pub fn new(id: String, node_id: String) -> (s: Self)
        ensures
            s.id == id,
            s.node_id == node_id,
            s.username is None,
            s.user_level == 0,
            s.current_area is None,
            s.login_time == s.last_activity,
            s.state == SessionState::Connected,
    {
        Session::new_at(id, node_id, now_millis())
    }

    /// Records activity at `now`.
    pub fn update_activity_at(&mut self, now: i64)
        ensures
            *final(self) == (Session { last_activity: now, ..*old(self) }),
    {
        self.last_activity = now;
    }

    /// Records activity now: the last activity becomes the clock's reading,
    /// a time in the range of `chrono::DateTime<Utc>`.
    pub fn update_activity(&mut self)
        ensures
            *final(self) == (Session { last_activity: final(self).last_activity, ..*old(self) }),
            valid_millis(final(self).last_activity as int),
    {
        self.last_activity = now_millis();
    }

    /// Logs `username` in at `user_level` and opens the main menu.
    pub fn login(&mut self, username: String, user_level: u8)
        ensures
            *final(self) == (Session {
                username: Some(username),
                user_level,
                state: SessionState::MainMenu,
                ..*old(self)
            }),
    {
        self.username = Some(username);
        self.user_level = user_level;
        self.state = SessionState::MainMenu;
    }

    /// Logs the user out and ends the session.
    pub fn logout(&mut self)
        ensures
            *final(self) == (Session {
                username: None,
                user_level: 0,
                current_area: None,
                state: SessionState::Disconnected,
                ..*old(self)
            }),
    {
        self.username = None;
        self.user_level = 0;
        self.current_area = None;
        self.state = SessionState::Disconnected;
    }

    /// Whether a user is logged in.
    pub fn is_logged_in(&self) -> (r: bool)
        ensures
            r == self.username is Some,
    {
        self.username.is_some()
    }

    /// The username, or "Guest".
    pub fn display_name(&self) -> (r: String)
        ensures
            r@ == display_name_spec(*self),
    {
        match &self.username {
            Some(u) => u.clone(),
            None => to_owned_string("Guest"),
        }
    }

    /// The short label of the node (see [`node_short_spec`]).
    pub fn display_node_short(&self) -> (r: String)
        ensures
            r@ == node_short_spec(*self),
    {
        match &self.short_label {
            Some(l) => l.clone(),
            None => match parse_u32(self.node_id.as_str()) {
                Some(n) => short_hex_label(n),
                None => self.node_id.clone(),
            },
        }
    }

    /// The long label of the node, else its short label.
    pub fn display_node_long(&self) -> (r: String)
        ensures
            r@ == match self.long_label {
                Some(l) => l@,
                None => node_short_spec(*self),
            },
    {
        match &self.long_label {
            Some(l) => l.clone(),
            None => self.display_node_short(),
        }
    }

    /// Takes the labels that are given and not empty; the others stay.
    pub fn update_labels(&mut self, short: Option<String>, long: Option<String>)
        ensures
            final(self).short_label == (match short {
                Some(s) => if s@.len() > 0 { Some(s) } else { old(self).short_label },
                None => old(self).short_label,
            }),
            final(self).long_label == (match long {
                Some(l) => if l@.len() > 0 { Some(l) } else { old(self).long_label },
                None => old(self).long_label,
            }),
            *final(self) == (Session { short_label: final(self).short_label, long_label: final(self).long_label, ..*old(self) }),
    {
        if let Some(s) = short {
            if s.as_str().unicode_len() > 0 {
                self.short_label = Some(s);
            }
        }
        if let Some(l) = long {
            if l.as_str().unicode_len() > 0 {
                self.long_label = Some(l);
            }
        }
    }

    /// Whether the user's level reaches `required_level`.
    pub fn has_access(&self, required_level: u8) -> (r: bool)
        ensures
            r == (self.user_level >= required_level),
    {
        self.user_level >= required_level
    }

    /// Time from login to the last activity (ms).
    pub fn session_duration(&self) -> (d: i64)
        requires
            valid_millis(self.login_time as int),
            valid_millis(self.last_activity as int),
        ensures
            d == self.last_activity - self.login_time,
    {
        self.last_activity - self.login_time
    }

    /// Whether more than `timeout_minutes` passed between the last activity and `now`.
    pub fn is_inactive_at(&self, timeout_minutes: i64, now: i64) -> (r: bool)
        requires
            -MAX_TIMEOUT_MINUTES <= timeout_minutes <= MAX_TIMEOUT_MINUTES,
            valid_millis(now as int),
            valid_millis(self.last_activity as int),
        ensures
            r == (now - self.last_activity > timeout_minutes * 60000),
    {
        let idle = (now - self.last_activity) as i128;
        idle > (timeout_minutes as i128) * 60000
    }

    /// Whether more than `timeout_minutes` passed since the last activity.
    pub fn is_inactive(&self, timeout_minutes: i64) -> (r: bool)
        requires
            -MAX_TIMEOUT_MINUTES <= timeout_minutes <= MAX_TIMEOUT_MINUTES,
            valid_millis(self.last_activity as int),
        ensures
            exists|now: i64| valid_millis(now as int) && r == #[trigger] idle_longer_than(*self, timeout_minutes, now),
    {
        let now = now_millis();
        let r = self.is_inactive_at(timeout_minutes, now);
        proof {
            assert(r == idle_longer_than(*self, timeout_minutes, now));
        }
        r
    }

    /// The prompt for the session (see [`prompt_spec`]).
    pub fn build_prompt(&self) -> (r: String)
        ensures
            r@ == prompt_spec(*self),
    {
        if !self.is_logged_in() {
            return to_owned_string("unauth>");
        }
        match self.state {
            SessionState::PostingMessage => match &self.current_area {
                Some(area) => {
                    let mut s = to_owned_string("post@");
                    let label = Self::truncate_area(area.as_str());
                    push_str(&mut s, label.as_str());
                    push_str(&mut s, ">");
                    s
                },
                None => to_owned_string("post>"),
            },
            SessionState::ReadingMessages | SessionState::MessageAreas => match &self.current_area {
                Some(area) => {
                    let mut s = self.display_name();
                    push_str(&mut s, "@");
                    let label = Self::truncate_area(area.as_str());
                    push_str(&mut s, label.as_str());
                    push_str(&mut s, ">");
                    s
                },
                None => self.level_prompt(),
            },
            SessionState::Disconnected => String::new(),
            _ => self.level_prompt(),
        }
    }

    fn level_prompt(&self) -> (r: String)
        ensures
            r@ == level_prompt(*self),
    {
        let mut s = self.display_name();
        push_str(&mut s, " (lvl");
        write_decimal(&mut s, self.user_level as u64);
        push_str(&mut s, ")>");
        s
    }

    /// An area name cut to 20 characters for the prompt.
    fn truncate_area(area: &str) -> (r: String)
        ensures
            r@ == area_label(area@),
    {
        let n = area.unicode_len();
        if n <= 20 {
            return to_owned_string(area);
        }
        let mut s = to_owned_string(substring(area, 0, 19));
        push_char(&mut s, '…');
        s
    }
}

/// The node ids of the sessions that satisfy `p`, in order.
pub open spec fn nodes_where(s: Seq<Session>, p: spec_fn(Session) -> bool) -> Seq<Seq<char>>
    decreases s.len(),
{
    if s.len() == 0 {
        Seq::empty()
    } else if p(s.last()) {
        nodes_where(s.drop_last(), p).push(s.last().node_id@)
    } else {
        nodes_where(s.drop_last(), p)
    }
}

/// The number of sessions that satisfy `p`.
pub open spec fn count_where(s: Seq<Session>, p: spec_fn(Session) -> bool) -> nat
    decreases s.len(),
{
    if s.len() == 0 {
        0
    } else {
        count_where(s.drop_last(), p) + if p(s.last()) { 1nat } else { 0nat }
    }
}

/// Whether a user is logged in on the session.
pub open spec fn logged_in(s: Session) -> bool {
    s.username is Some
}

/// Whether the session's user has been idle for more than `timeout_minutes`
/// at `now`.
pub open spec fn idle_user(s: Session, timeout_minutes: i64, now: i64) -> bool {
    s.username is Some && now - s.last_activity > timeout_minutes * 60000
}

proof fn lemma_count_where_le(s: Seq<Session>, p: spec_fn(Session) -> bool)
    ensures
        count_where(s, p) <= s.len(),
    decreases s.len(),
{
    if s.len() > 0 {
        lemma_count_where_le(s.drop_last(), p);
    }
}

/// How many sessions have a user logged in.
pub fn logged_in_session_count(sessions: &Vec<Session>) -> (r: usize)
    ensures
        r == count_where(sessions@, |s: Session| logged_in(s)),
{
    let mut n: usize = 0;
    let mut i: usize = 0;
    while i < sessions.len()
        invariant
            i <= sessions@.len(),
            n == count_where(sessions@.take(i as int), |s: Session| logged_in(s)),
        decreases sessions@.len() - i,
    {
        proof {
            assert(sessions@.take(i + 1).drop_last() =~= sessions@.take(i as int));
            lemma_count_where_le(sessions@.take(i as int), |s: Session| logged_in(s));
        }
        if sessions[i].is_logged_in() {
            n = n + 1;
        }
        i = i + 1;
    }
    assert(sessions@.take(sessions@.len() as int) =~= sessions@);
    n
}

/// The nodes of the sessions whose user has been idle for more than
/// `timeout_minutes` at `now`, to be logged out; none when the timeout is 0.
pub fn idle_sessions(sessions: &Vec<Session>, timeout_minutes: i64, now: i64) -> (r: Vec<String>)
    requires
        0 <= timeout_minutes <= MAX_TIMEOUT_MINUTES,
        valid_millis(now as int),
        forall|i: int| 0 <= i < sessions@.len() ==> valid_millis(#[trigger] sessions@[i].last_activity as int),
    ensures
        string_views(r@) == if timeout_minutes == 0 {
            Seq::<Seq<char>>::empty()
        } else {
            nodes_where(sessions@, |s: Session| idle_user(s, timeout_minutes, now))
        },
{
    let mut out: Vec<String> = Vec::new();
    if timeout_minutes == 0 {
        assert(string_views(out@) =~= Seq::<Seq<char>>::empty());
        return out;
    }
    let mut i: usize = 0;
    while i < sessions.len()
        invariant
            i <= sessions@.len(),
            0 < timeout_minutes <= MAX_TIMEOUT_MINUTES,
            valid_millis(now as int),
            forall|i: int| 0 <= i < sessions@.len() ==> valid_millis(#[trigger] sessions@[i].last_activity as int),
            string_views(out@) == nodes_where(sessions@.take(i as int), |s: Session| idle_user(s, timeout_minutes, now)),
        decreases sessions@.len() - i,
    {
        let s = &sessions[i];
        proof {
            assert(sessions@.take(i + 1).drop_last() =~= sessions@.take(i as int));
            assert(valid_millis(sessions@[i as int].last_activity as int));
        }
        if s.is_logged_in() && s.is_inactive_at(timeout_minutes, now) {
            let ghost before = out@;
            out.push(s.node_id.clone());
            assert(string_views(out@) =~= string_views(before).push(s.node_id@));
        }
        i = i + 1;
    }
    assert(sessions@.take(sessions@.len() as int) =~= sessions@);
    out
}

/// The nodes of the sessions with a user logged in, which a broadcast goes to.
pub fn broadcast_targets(sessions: &Vec<Session>) -> (r: Vec<String>)
    ensures
        string_views(r@) == nodes_where(sessions@, |s: Session| logged_in(s)),
{
    let mut out: Vec<String> = Vec::new();
    let mut i: usize = 0;
    while i < sessions.len()
        invariant
            i <= sessions@.len(),
            string_views(out@) == nodes_where(sessions@.take(i as int), |s: Session| logged_in(s)),
        decreases sessions@.len() - i,
    {
        let s = &sessions[i];
        proof {
            assert(sessions@.take(i + 1).drop_last() =~= sessions@.take(i as int));
        }
        if s.is_logged_in() {
            let ghost before = out@;
            out.push(s.node_id.clone());
            assert(string_views(out@) =~= string_views(before).push(s.node_id@));
        }
        i = i + 1;
    }
    assert(sessions@.take(sessions@.len() as int) =~= sessions@);
    out
}

/// The text a broadcast from `sender` is sent as.
pub fn broadcast_text(message: &str, sender: &str) -> (r: String)
    ensures
        r@ == "*** SYSTEM MESSAGE from "@ + sender@ + ": "@ + message@ + " ***"@,
{
    let mut out = to_owned_string("*** SYSTEM MESSAGE from ");
    push_str(&mut out, sender);
    push_str(&mut out, ": ");
    push_str(&mut out, message);
    push_str(&mut out, " ***");
    out
}

/// Whether `username` is logged in on the session.
pub open spec fn logged_in_as(s: Session, username: Seq<char>) -> bool {
    s.username matches Some(u) && u@ == username
}

/// The session that a KICK of `username` logs out: the first one on which
/// that user is logged in.
pub fn kick_target(sessions: &Vec<Session>, username: &str) -> (r: Option<usize>)
    ensures
        match r {
            Some(i) => i < sessions@.len() && logged_in_as(sessions@[i as int], username@)
                && forall|j: int| 0 <= j < i ==> !logged_in_as(#[trigger] sessions@[j], username@),
            None => forall|j: int| 0 <= j < sessions@.len() ==> !logged_in_as(#[trigger] sessions@[j], username@),
        },
{
    let mut i: usize = 0;
    while i < sessions.len()
        invariant
            i <= sessions@.len(),
            forall|j: int| 0 <= j < i ==> !logged_in_as(#[trigger] sessions@[j], username@),
        decreases sessions@.len() - i,
    {
        let hit = match &sessions[i].username {
            Some(u) => str_eq(u.as_str(), username),
            None => false,
        };
        if hit {
            return Some(i);
        }
        i = i + 1;
    }
    None
}

} // verus!
