//! The menu command processor's fixed texts.
use vstd::prelude::*;
use crate::text::{to_owned_string, push_str, push_char, utf8_len, is_byte_boundary, str_eq, starts_with, trim,
    trim_spec, substring, find, find_spec, split_whitespace, words, string_views, to_lowercase, lowercase_spec,
    to_uppercase, uppercase_spec, write_decimal, decimal_spec, contains, contains_spec, has_prefix};
use crate::ui::{utf8_prefix, utf8_fit_count};
use crate::roles::{role_name, role_name_spec};
use crate::storage::User;
use crate::session::{Session, SessionState};
use crate::clock::{utc_minute_text, utc_minute_text_spec, valid_millis};

verus! {

/// Processes BBS commands from users.
#[derive(Debug, Clone, Copy)]
pub struct CommandProcessor;

/// The compact help before it is cut to one frame: the login commands for a
/// guest; otherwise the account and message commands, the moderator commands
/// from level 5, the sysop commands from level 10, and the navigation line.
pub open spec fn compact_help_full(logged_in: bool, level: u8) -> Seq<char> {
    if !logged_in {
        "AUTH: REGISTER <u> <p> | LOGIN <u> <p>\n"@
    } else {
        "ACCT: SETPASS <new> | CHPASS <old> <new> | LOGOUT\n"@
            + "MSG: M=menu; digits pick; +/- nav; F filter; READ <t>; POST <t> <txt>; TOPICS\n"@
            + (if level >= 5 { "MOD: DELETE <a> <id> LOCK/UNLOCK <a> DELLOG [p]\n"@ } else { Seq::<char>::empty() })
            + (if level >= 10 { "ADM: PROMOTE <u> DEMOTE <u> SYSLOG <lvl> <msg>\n"@ } else { Seq::<char>::empty() })
            + "OTHER: WHERE/W breadcrumb | U=User | Q=Quit\n"@
    }
}

/// The compact help as sent: a guest's line as is; a user's text cut to 230 bytes.
pub open spec fn compact_help_spec(logged_in: bool, level: u8) -> Seq<char> {
    let full = compact_help_full(logged_in, level);
    if logged_in && utf8_len(full) > 230 { full.take(utf8_fit_count(full, 230) as int) } else { full }
}

impl CommandProcessor {
    pub fn new() -> (p: Self) {
        CommandProcessor
    }

    /// The first answer to a new connection; the session moves to the main menu.
    pub fn handle_initial_connection(&self, session: &mut Session, bbs_name: &str) -> (r: String)
        ensures
            *final(session) == (Session { state: SessionState::MainMenu, ..*old(session) }),
            r@ == "["@ + bbs_name@ + "]\nNode: "@ + old(session).node_id@
                + "\nAuth: REGISTER <user> <pass> or LOGIN <user> [pass]\nType HELP for commands\nMain Menu:\n[M]essages [U]ser [Q]uit\n"@,
    {
        session.state = SessionState::MainMenu;
        let mut out = to_owned_string("[");
        push_str(&mut out, bbs_name);
        push_str(&mut out, "]\nNode: ");
        push_str(&mut out, session.node_id.as_str());
        push_str(&mut out, "\nAuth: REGISTER <user> <pass> or LOGIN <user> [pass]\nType HELP for commands\nMain Menu:\n[M]essages [U]ser [Q]uit\n");
        out
    }

    /// What a command typed at the main menu asks for (see [`main_menu_spec`]).
    /// `command` is the upper-cased, trimmed input.
    pub fn handle_main_menu(&self, command: &str, logged_in: bool, level: u8) -> (r: MainMenuAction)
        requires
            echo_defined(command@),
        ensures
            r@ == main_menu_spec(command@, logged_in, level),
    {
        main_menu_action(self, command, logged_in, level)
    }

    /// The message commands understood in any menu (see [`inline_spec`]):
    /// `raw` is the trimmed input, `upper` its upper-cased form.
    pub fn try_inline_message_command(&self, raw: &str, upper: &str, current_topic: Option<&str>) -> (r: Option<InlineCommand>)
        ensures
            inline_view(r) == inline_spec(raw@, upper@, match current_topic {
                Some(t) => Some(t@),
                None => None,
            }),
    {
        inline_command(raw, upper, current_topic)
    }

    /// The compact help for a session (see [`compact_help_spec`]).
    pub fn compact_help(&self, logged_in: bool, level: u8) -> (r: String)
        ensures
            r@ == compact_help_spec(logged_in, level),
    {
        if !logged_in {
            return to_owned_string("AUTH: REGISTER <u> <p> | LOGIN <u> <p>\n");
        }
        let mut out = to_owned_string("ACCT: SETPASS <new> | CHPASS <old> <new> | LOGOUT\n");
        push_str(&mut out, "MSG: M=menu; digits pick; +/- nav; F filter; READ <t>; POST <t> <txt>; TOPICS\n");
        let ghost a = out@;
        if level >= 5 {
            push_str(&mut out, "MOD: DELETE <a> <id> LOCK/UNLOCK <a> DELLOG [p]\n");
        }
        let ghost b = out@;
        if level >= 10 {
            push_str(&mut out, "ADM: PROMOTE <u> DEMOTE <u> SYSLOG <lvl> <msg>\n");
        }
        let ghost c = out@;
        push_str(&mut out, "OTHER: WHERE/W breadcrumb | U=User | Q=Quit\n");
        proof {
            let m = if level >= 5 { "MOD: DELETE <a> <id> LOCK/UNLOCK <a> DELLOG [p]\n"@ } else { Seq::<char>::empty() };
            let d = if level >= 10 { "ADM: PROMOTE <u> DEMOTE <u> SYSLOG <lvl> <msg>\n"@ } else { Seq::<char>::empty() };
            assert(b =~= a + m);
            assert(c =~= b + d);
            assert(out@ =~= compact_help_full(logged_in, level));
        }
        if out.as_str().as_bytes().len() > 230 {
            utf8_prefix(out.as_str(), 230)
        } else {
            out
        }
    }
}

/// The level of a sysop log line.
#[derive(Debug, Clone, Copy, PartialEq, Eq, Structural)]
pub enum SyslogLevel {
    Info,
    Warn,
    Error,
}

/// What a main menu command asks for.
#[derive(Debug, Clone)]
pub enum MainMenuAction {
    /// Open the topic list at its first page.
    Topics,
    /// Open the user menu.
    UserMenu,
    /// Log out and say goodbye.
    Quit,
    /// Answer with this text and change nothing.
    Reply(String),
    /// Write `message` to the system log at `level`; the answer is
    /// [`syslog_reply`].
    Syslog { level: SyslogLevel, message: String },
    /// List the users, only those whose lower-cased name contains `pattern`
    /// where one is given.
    ListUsers { pattern: Option<String> },
    /// Show the account `username` (still to be validated).
    UserInfo { username: String },
    /// Drop the user `username` (still to be validated).
    Kick { username: String },
    /// Send `message` to everyone (still to be checked).
    Broadcast { message: String },
    /// Show the counts of the administration dashboard.
    Dashboard,
}

/// A main menu action as plain values.
pub enum MenuOutcome {
    Topics,
    UserMenu,
    Quit,
    Reply(Seq<char>),
    Syslog { level: SyslogLevel, message: Seq<char> },
    ListUsers { pattern: Option<Seq<char>> },
    UserInfo { username: Seq<char> },
    Kick { username: Seq<char> },
    Broadcast { message: Seq<char> },
    Dashboard,
}

impl View for MainMenuAction {
    type V = MenuOutcome;

    open spec fn view(&self) -> MenuOutcome {
        match self {
            MainMenuAction::Topics => MenuOutcome::Topics,
            MainMenuAction::UserMenu => MenuOutcome::UserMenu,
            MainMenuAction::Quit => MenuOutcome::Quit,
            MainMenuAction::Reply(t) => MenuOutcome::Reply(t@),
            MainMenuAction::Syslog { level, message } => MenuOutcome::Syslog { level: *level, message: message@ },
            MainMenuAction::ListUsers { pattern } => MenuOutcome::ListUsers {
                pattern: match pattern {
                    Some(p) => Some(p@),
                    None => None,
                },
            },
            MainMenuAction::UserInfo { username } => MenuOutcome::UserInfo { username: username@ },
            MainMenuAction::Kick { username } => MenuOutcome::Kick { username: username@ },
            MainMenuAction::Broadcast { message } => MenuOutcome::Broadcast { message: message@ },
            MainMenuAction::Dashboard => MenuOutcome::Dashboard,
        }
    }
}

/// Whether a command is one that the main menu knows.
pub open spec fn is_menu_command(c: Seq<char>) -> bool {
    ||| c == "M"@ || c == "MESSAGES"@ || c == "U"@ || c == "USER"@
    ||| c == "Q"@ || c == "QUIT"@ || c == "GOODBYE"@ || c == "BYE"@
    ||| c == "H"@ || c == "HELP"@ || c == "?"@
    ||| has_prefix(c, "SYSLOG"@) || has_prefix(c, "USERS"@) || c == "WHO"@ || has_prefix(c, "USERINFO"@)
    ||| c == "SESSIONS"@ || has_prefix(c, "KICK"@) || has_prefix(c, "BROADCAST"@)
    ||| c == "ADMIN"@ || c == "DASHBOARD"@
}

/// Longest command, in bytes, echoed whole in the unknown-command answer:
/// 230 bytes less the 19 of its frame.
pub const ECHO_BUDGET: usize = 211;

/// Whether the answer to an unknown command can be built: the command is
/// known, short enough to echo whole, or its first 210 bytes end on a
/// character boundary (the echo cuts it there).
pub open spec fn echo_defined(c: Seq<char>) -> bool {
    is_menu_command(c) || utf8_len(c) <= ECHO_BUDGET || is_byte_boundary(c, (ECHO_BUDGET - 1) as nat)
}

/// How an unknown command is quoted: whole when it fits the budget, else its
/// first 210 bytes and `…`.
pub open spec fn echo_snippet(c: Seq<char>) -> Seq<char> {
    if utf8_len(c) <= ECHO_BUDGET {
        c
    } else {
        c.take(utf8_fit_count(c, (ECHO_BUDGET - 1) as nat) as int).push('…')
    }
}

/// The answer to a command the user's level does not allow.
pub open spec fn denied() -> Seq<char> {
    "Permission denied.\n"@
}

/// The usage line of SYSLOG.
pub open spec fn syslog_usage() -> Seq<char> {
    "Usage: SYSLOG <INFO|WARN|ERROR> <message>\n"@
}

/// What `SYSLOG <level> <message>` asks for, once allowed: the text after
/// the word, trimmed, is split at its first space into a level and a
/// message; a missing message or an unknown level gets the usage line.
pub open spec fn syslog_outcome(c: Seq<char>) -> MenuOutcome {
    let rest = trim_spec(c.skip(6));
    let k = find_spec(rest, " "@);
    let first = if k < 0 { rest } else { rest.take(k) };
    let message = if k < 0 { Seq::<char>::empty() } else { trim_spec(rest.skip(k + 1)) };
    let lvl = uppercase_spec(first);
    if rest.len() == 0 || message.len() == 0 {
        MenuOutcome::Reply(syslog_usage())
    } else if lvl == "INFO"@ {
        MenuOutcome::Syslog { level: SyslogLevel::Info, message }
    } else if lvl == "WARN"@ {
        MenuOutcome::Syslog { level: SyslogLevel::Warn, message }
    } else if lvl == "ERROR"@ {
        MenuOutcome::Syslog { level: SyslogLevel::Error, message }
    } else {
        MenuOutcome::Reply(syslog_usage())
    }
}

/// What a main menu command asks for, in the order the menu tries them:
/// the messages, the user menu, quitting, the compact help; then, from
/// level 10, SYSLOG; from level 5, USERS [pattern], WHO, USERINFO <user>,
/// SESSIONS, KICK <user>, BROADCAST <message>, ADMIN/DASHBOARD; anything
/// else is quoted back as an invalid command.
pub open spec fn main_menu_spec(c: Seq<char>, logged_in: bool, level: u8) -> MenuOutcome {
    let w = words(c);
    if c == "M"@ || c == "MESSAGES"@ {
        MenuOutcome::Topics
    } else if c == "U"@ || c == "USER"@ {
        MenuOutcome::UserMenu
    } else if c == "Q"@ || c == "QUIT"@ || c == "GOODBYE"@ || c == "BYE"@ {
        MenuOutcome::Quit
    } else if c == "H"@ || c == "HELP"@ || c == "?"@ {
        MenuOutcome::Reply(compact_help_spec(logged_in, level))
    } else if has_prefix(c, "SYSLOG"@) {
        if level < 10 { MenuOutcome::Reply(denied()) } else { syslog_outcome(c) }
    } else if has_prefix(c, "USERS"@) {
        if level < 5 {
            MenuOutcome::Reply(denied())
        } else {
            MenuOutcome::ListUsers { pattern: if w.len() >= 2 { Some(lowercase_spec(w[1])) } else { None } }
        }
    } else if c == "WHO"@ {
        if level < 5 {
            MenuOutcome::Reply(denied())
        } else {
            MenuOutcome::Reply("Logged In Users:\nNone (session info not available in this context)\n"@)
        }
    } else if has_prefix(c, "USERINFO"@) {
        if level < 5 {
            MenuOutcome::Reply(denied())
        } else if w.len() < 2 {
            MenuOutcome::Reply("Usage: USERINFO <username>\n"@)
        } else {
            MenuOutcome::UserInfo { username: w[1] }
        }
    } else if c == "SESSIONS"@ {
        if level < 5 {
            MenuOutcome::Reply(denied())
        } else {
            MenuOutcome::Reply("Active Sessions:\nNone (session info not available in this context)\n"@)
        }
    } else if has_prefix(c, "KICK"@) {
        if level < 5 {
            MenuOutcome::Reply(denied())
        } else if w.len() < 2 {
            MenuOutcome::Reply("Usage: KICK <username>\n"@)
        } else {
            MenuOutcome::Kick { username: w[1] }
        }
    } else if has_prefix(c, "BROADCAST"@) {
        if level < 5 {
            MenuOutcome::Reply(denied())
        } else if trim_spec(c.skip(9)).len() == 0 {
            MenuOutcome::Reply("Usage: BROADCAST <message>\n"@)
        } else {
            MenuOutcome::Broadcast { message: trim_spec(c.skip(9)) }
        }
    } else if c == "ADMIN"@ || c == "DASHBOARD"@ {
        if level < 5 { MenuOutcome::Reply(denied()) } else { MenuOutcome::Dashboard }
    } else {
        MenuOutcome::Reply("Invalid command \""@ + echo_snippet(c) + "\"\n"@)
    }
}

/// At the main menu, Q, QUIT, GOODBYE and BYE end the session for every
/// user and level, and nothing else does; only U and USER open the user
/// menu, and only M and MESSAGES the message topics.
pub proof fn lemma_main_menu_quit_and_user(c: Seq<char>, logged_in: bool, level: u8)
    ensures
        (c == "Q"@ || c == "QUIT"@ || c == "GOODBYE"@ || c == "BYE"@) ==> main_menu_spec(c, logged_in, level)
            == MenuOutcome::Quit,
        main_menu_spec(c, logged_in, level) == MenuOutcome::UserMenu <==> (c == "U"@ || c == "USER"@),
        main_menu_spec(c, logged_in, level) == MenuOutcome::Quit <==> (c == "Q"@ || c == "QUIT"@ || c == "GOODBYE"@
            || c == "BYE"@),
        main_menu_spec(c, logged_in, level) == MenuOutcome::Topics <==> (c == "M"@ || c == "MESSAGES"@),
{
    reveal_strlit("M");
    reveal_strlit("MESSAGES");
    reveal_strlit("U");
    reveal_strlit("USER");
    reveal_strlit("Q");
    reveal_strlit("QUIT");
    reveal_strlit("GOODBYE");
    reveal_strlit("BYE");
    if c == "Q"@ || c == "QUIT"@ || c == "GOODBYE"@ || c == "BYE"@ {
        assert(c != "M"@ && c != "MESSAGES"@ && c != "U"@ && c != "USER"@) by {
            if c == "Q"@ {
                assert(c[0] == 'Q');
            } else if c == "QUIT"@ {
                assert(c[0] == 'Q');
            } else if c == "GOODBYE"@ {
                assert(c[0] == 'G');
            } else {
                assert(c[0] == 'B');
            }
        }
    }
    if c == "U"@ || c == "USER"@ {
        assert(c != "M"@ && c != "MESSAGES"@) by {
            assert(c[0] == 'U');
        }
    }
}

fn reply(t: &str) -> (a: MainMenuAction)
    ensures
        a@ == MenuOutcome::Reply(t@),
{
    MainMenuAction::Reply(to_owned_string(t))
}

fn syslog_action(c: &str) -> (a: MainMenuAction)
    requires
        has_prefix(c@, "SYSLOG"@),
    ensures
        a@ == syslog_outcome(c@),
{
    let n = c.unicode_len();
    proof {
        reveal_strlit("SYSLOG");
    }
    let rest = trim(substring(c, 6, n));
    proof {
        assert(c@.subrange(6, n as int) =~= c@.skip(6));
    }
    let m = rest.unicode_len();
    if m == 0 {
        return reply("Usage: SYSLOG <INFO|WARN|ERROR> <message>\n");
    }
    let (first, message) = match find(rest, " ") {
        Some(k) => {
            proof {
                reveal_strlit(" ");
                crate::text::lemma_find_from_bounds(rest@, " "@, 0);
            }
            let f = substring(rest, 0, k);
            let msg = trim(substring(rest, k + 1, m));
            proof {
                assert(rest@.subrange(0, k as int) =~= rest@.take(k as int));
                assert(rest@.subrange(k + 1, m as int) =~= rest@.skip(k + 1));
            }
            (f, msg)
        },
        None => (rest, ""),
    };
    proof {
        reveal_strlit("");
    }
    if message.unicode_len() == 0 {
        return reply("Usage: SYSLOG <INFO|WARN|ERROR> <message>\n");
    }
    let lvl = to_uppercase(first);
    if str_eq(lvl.as_str(), "INFO") {
        MainMenuAction::Syslog { level: SyslogLevel::Info, message: to_owned_string(message) }
    } else if str_eq(lvl.as_str(), "WARN") {
        MainMenuAction::Syslog { level: SyslogLevel::Warn, message: to_owned_string(message) }
    } else if str_eq(lvl.as_str(), "ERROR") {
        MainMenuAction::Syslog { level: SyslogLevel::Error, message: to_owned_string(message) }
    } else {
        reply("Usage: SYSLOG <INFO|WARN|ERROR> <message>\n")
    }
}

fn invalid_command(c: &str) -> (a: MainMenuAction)
    requires
        utf8_len(c@) <= ECHO_BUDGET || is_byte_boundary(c@, (ECHO_BUDGET - 1) as nat),
    ensures
        a@ == MenuOutcome::Reply("Invalid command \""@ + echo_snippet(c@) + "\"\n"@),
{
    let mut out = to_owned_string("Invalid command \"");
    if c.as_bytes().len() <= ECHO_BUDGET {
        push_str(&mut out, c);
    } else {
        let cut = utf8_prefix(c, ECHO_BUDGET - 1);
        push_str(&mut out, cut.as_str());
        push_char(&mut out, '…');
        proof {
            assert(out@ =~= "Invalid command \""@ + echo_snippet(c@));
        }
    }
    push_str(&mut out, "\"\n");
    MainMenuAction::Reply(out)
}

fn main_menu_action(p: &CommandProcessor, c: &str, logged_in: bool, level: u8) -> (a: MainMenuAction)
    requires
        echo_defined(c@),
    ensures
        a@ == main_menu_spec(c@, logged_in, level),
{
    if str_eq(c, "M") || str_eq(c, "MESSAGES") {
        return MainMenuAction::Topics;
    }
    if str_eq(c, "U") || str_eq(c, "USER") {
        return MainMenuAction::UserMenu;
    }
    if str_eq(c, "Q") || str_eq(c, "QUIT") || str_eq(c, "GOODBYE") || str_eq(c, "BYE") {
        return MainMenuAction::Quit;
    }
    if str_eq(c, "H") || str_eq(c, "HELP") || str_eq(c, "?") {
        return MainMenuAction::Reply(p.compact_help(logged_in, level));
    }
    if starts_with(c, "SYSLOG") {
        if level < 10 {
            return reply("Permission denied.\n");
        }
        return syslog_action(c);
    }
    if starts_with(c, "USERS") {
        if level < 5 {
            return reply("Permission denied.\n");
        }
        let parts = split_whitespace(c);
        if parts.len() >= 2 {
            let pattern = to_lowercase(parts[1].as_str());
            return MainMenuAction::ListUsers { pattern: Some(pattern) };
        }
        return MainMenuAction::ListUsers { pattern: None };
    }
    if str_eq(c, "WHO") {
        if level < 5 {
            return reply("Permission denied.\n");
        }
        return reply("Logged In Users:\nNone (session info not available in this context)\n");
    }
    if starts_with(c, "USERINFO") {
        if level < 5 {
            return reply("Permission denied.\n");
        }
        let parts = split_whitespace(c);
        if parts.len() < 2 {
            return reply("Usage: USERINFO <username>\n");
        }
        return MainMenuAction::UserInfo { username: to_owned_string(parts[1].as_str()) };
    }
    if str_eq(c, "SESSIONS") {
        if level < 5 {
            return reply("Permission denied.\n");
        }
        return reply("Active Sessions:\nNone (session info not available in this context)\n");
    }
    if starts_with(c, "KICK") {
        if level < 5 {
            return reply("Permission denied.\n");
        }
        let parts = split_whitespace(c);
        if parts.len() < 2 {
            return reply("Usage: KICK <username>\n");
        }
        return MainMenuAction::Kick { username: to_owned_string(parts[1].as_str()) };
    }
    if starts_with(c, "BROADCAST") {
        if level < 5 {
            return reply("Permission denied.\n");
        }
        let n = c.unicode_len();
        proof {
            reveal_strlit("BROADCAST");
        }
        let message = trim(substring(c, 9, n));
        proof {
            assert(c@.subrange(9, n as int) =~= c@.skip(9));
        }
        if message.unicode_len() == 0 {
            return reply("Usage: BROADCAST <message>\n");
        }
        return MainMenuAction::Broadcast { message: to_owned_string(message) };
    }
    if str_eq(c, "ADMIN") || str_eq(c, "DASHBOARD") {
        if level < 5 {
            return reply("Permission denied.\n");
        }
        return MainMenuAction::Dashboard;
    }
    invalid_command(c)
}

/// The answer after a SYSLOG line was written.
pub fn syslog_reply(level: SyslogLevel) -> (r: String)
    ensures
        r@ == match level {
            SyslogLevel::Info => "Logged INFO.\n"@,
            SyslogLevel::Warn => "Logged WARN.\n"@,
            SyslogLevel::Error => "Logged ERROR.\n"@,
        },
{
    match level {
        SyslogLevel::Info => to_owned_string("Logged INFO.\n"),
        SyslogLevel::Warn => to_owned_string("Logged WARN.\n"),
        SyslogLevel::Error => to_owned_string("Logged ERROR.\n"),
    }
}

/// The answer to KICK once the name was checked: `valid` tells whether it
/// is an acceptable user name.
pub fn kick_reply(username: &str, valid: bool) -> (r: String)
    ensures
        r@ == if valid { username@ + " has been kicked (action deferred)\n"@ } else { "Invalid username specified.\n"@ },
{
    if valid {
        let mut out = to_owned_string(username);
        push_str(&mut out, " has been kicked (action deferred)\n");
        out
    } else {
        to_owned_string("Invalid username specified.\n")
    }
}

/// The user menu as opened from the main menu.
pub open spec fn user_menu_spec(name: Seq<char>, level: u8, login_time: Seq<char>) -> Seq<char> {
    "User Menu:\nUsername: "@ + name + "\nLevel: "@ + decimal_spec(level as nat) + "\nLogin time: "@ + login_time
        + "\n[I]nfo [S]tats [B]ack\n"@
}

/// The user menu for a user `name` of `level` who logged in at `login_time`
/// (ms since the epoch, written as `2024-01-31 12:00 UTC`).
pub fn user_menu_text(name: &str, level: u8, login_time: i64) -> (r: String)
    requires
        valid_millis(login_time as int),
    ensures
        r@ == user_menu_spec(name@, level, utc_minute_text_spec(login_time as int)),
{
    let when = match utc_minute_text(login_time) {
        Some(t) => t,
        None => String::new(),
    };
    let mut out = to_owned_string("User Menu:\nUsername: ");
    push_str(&mut out, name);
    push_str(&mut out, "\nLevel: ");
    write_decimal(&mut out, level as u64);
    push_str(&mut out, "\nLogin time: ");
    push_str(&mut out, when.as_str());
    push_str(&mut out, "\n[I]nfo [S]tats [B]ack\n");
    out
}

/// The users that a USERS listing shows: all, or those whose lower-cased
/// name contains `pattern`.
pub open spec fn listed_users(users: Seq<User>, pattern: Option<Seq<char>>) -> Seq<User>
    decreases users.len(),
{
    if users.len() == 0 {
        Seq::empty()
    } else {
        let rest = listed_users(users.drop_last(), pattern);
        let keep = match pattern {
            Some(p) => contains_spec(lowercase_spec(users.last().username@), p),
            None => true,
        };
        if keep { rest.push(users.last()) } else { rest }
    }
}

/// One line of a USERS listing.
pub open spec fn user_line(u: User) -> Seq<char> {
    "  "@ + u.username@ + " ("@ + role_name_spec(u.user_level) + ", Level "@ + decimal_spec(u.user_level as nat) + ")\n"@
}

/// The lines of a USERS listing.
pub open spec fn user_lines(users: Seq<User>) -> Seq<char>
    decreases users.len(),
{
    if users.len() == 0 {
        Seq::empty()
    } else {
        user_lines(users.drop_last()) + user_line(users.last())
    }
}

/// The heading of a USERS listing of `n` users.
pub open spec fn users_heading(pattern: Option<Seq<char>>, n: nat) -> Seq<char> {
    match pattern {
        Some(p) => "Users matching '"@ + p + "' ("@ + decimal_spec(n) + " found):\n"@,
        None => "Registered Users ("@ + decimal_spec(n) + "):\n"@,
    }
}

/// The answer to USERS: a heading with the count, then one line per user shown.
pub fn user_list_reply(pattern: Option<&str>, users: &Vec<User>) -> (r: String)
    ensures
        ({
            let p = match pattern {
                Some(t) => Some(t@),
                None => None,
            };
            let shown = listed_users(users@, p);
            r@ == users_heading(p, shown.len()) + user_lines(shown)
        }),
{
    let ghost p = match pattern {
        Some(t) => Some(t@),
        None => None,
    };
    let mut shown: Vec<&User> = Vec::new();
    let n = users.len();
    let mut i: usize = 0;
    while i < n
        invariant
            i <= n,
            n == users@.len(),
            p == match pattern {
                Some(t) => Some(t@),
                None => None::<Seq<char>>,
            },
            shown@.map_values(|u: &User| *u) == listed_users(users@.take(i as int), p),
        decreases n - i,
    {
        let u = &users[i];
        let keep = match pattern {
            Some(t) => {
                let low = to_lowercase(u.username.as_str());
                contains(low.as_str(), t)
            },
            None => true,
        };
        let ghost before = shown@;
        if keep {
            shown.push(u);
        }
        proof {
            let t = users@.take(i + 1);
            assert(t.drop_last() =~= users@.take(i as int));
            assert(t.last() == users@[i as int]);
            if keep {
                assert(shown@.map_values(|u: &User| *u) =~= before.map_values(|u: &User| *u).push(users@[i as int]));
            } else {
                assert(shown@.map_values(|u: &User| *u) =~= before.map_values(|u: &User| *u));
            }
        }
        i = i + 1;
    }
    proof {
        assert(users@.take(n as int) =~= users@);
    }
    let ghost all = shown@.map_values(|u: &User| *u);
    let count = shown.len();
    let mut out = match pattern {
        Some(t) => {
            let mut h = to_owned_string("Users matching '");
            push_str(&mut h, t);
            push_str(&mut h, "' (");
            write_decimal(&mut h, count as u64);
            push_str(&mut h, " found):\n");
            h
        },
        None => {
            let mut h = to_owned_string("Registered Users (");
            write_decimal(&mut h, count as u64);
            push_str(&mut h, "):\n");
            h
        },
    };
    let ghost head = out@;
    let mut j: usize = 0;
    while j < count
        invariant
            j <= count,
            count == shown@.len(),
            all == shown@.map_values(|u: &User| *u),
            out@ == head + user_lines(all.take(j as int)),
        decreases count - j,
    {
        let u = shown[j];
        push_str(&mut out, "  ");
        push_str(&mut out, u.username.as_str());
        push_str(&mut out, " (");
        push_str(&mut out, role_name(u.user_level));
        push_str(&mut out, ", Level ");
        write_decimal(&mut out, u.user_level as u64);
        push_str(&mut out, ")\n");
        proof {
            assert(all.take(j + 1).drop_last() =~= all.take(j as int));
            assert(all.take(j + 1).last() == *u);
            assert(out@ =~= head + user_lines(all.take(j + 1)));
        }
        j = j + 1;
    }
    proof {
        assert(all.take(count as int) =~= all);
    }
    out
}

/// A message command that works from any menu.
#[derive(Debug, Clone)]
pub enum InlineCommand {
    /// Show where the session is (WHERE or W).
    Where,
    /// Read topic `topic` (still to be validated); "general" when none was named.
    Read { topic: String },
    /// Post `text` to topic `topic` (still to be validated).
    Post { topic: String, text: String },
    /// POST without text: answer with the usage line.
    PostUsage,
    /// List the topics (TOPICS or LIST).
    Topics,
}

/// An inline command as plain values.
pub enum InlineOutcome {
    Where,
    Read { topic: Seq<char> },
    Post { topic: Seq<char>, text: Seq<char> },
    PostUsage,
    Topics,
}

/// The view of an optional inline command.
pub open spec fn inline_view(c: Option<InlineCommand>) -> Option<InlineOutcome> {
    match c {
        Some(InlineCommand::Where) => Some(InlineOutcome::Where),
        Some(InlineCommand::Read { topic }) => Some(InlineOutcome::Read { topic: topic@ }),
        Some(InlineCommand::Post { topic, text }) => Some(InlineOutcome::Post { topic: topic@, text: text@ }),
        Some(InlineCommand::PostUsage) => Some(InlineOutcome::PostUsage),
        Some(InlineCommand::Topics) => Some(InlineOutcome::Topics),
        None => None,
    }
}

/// `s` split at its first space, if it has one (`splitn(2, ' ')`).
pub open spec fn split_at_space(s: Seq<char>) -> Option<(Seq<char>, Seq<char>)> {
    let k = find_spec(s, " "@);
    if k < 0 { None } else { Some((s.take(k), s.skip(k + 1))) }
}

/// What POST asks for: the words after POST are split at the first two
/// spaces; with a topic and text both given, those; with one word only, that
/// word is the text for the current topic (or "general"); with none, no text.
pub open spec fn post_spec(raw: Seq<char>, current: Option<Seq<char>>) -> InlineOutcome {
    let here = match current {
        Some(t) => t,
        None => "general"@,
    };
    let (topic, text) = match split_at_space(raw) {
        None => (here, Seq::<char>::empty()),
        Some((_, after)) => match split_at_space(after) {
            Some((second, rest)) => (second, rest),
            None => (here, after),
        },
    };
    if text.len() == 0 { InlineOutcome::PostUsage } else { InlineOutcome::Post { topic, text } }
}

/// A text without a space does not split.
proof fn lemma_no_space_no_split(a: Seq<char>)
    requires
        !a.contains(' '),
    ensures
        split_at_space(a) is None,
{
    reveal_strlit(" ");
    crate::text::lemma_find_from_bounds(a, " "@, 0);
    let k = find_spec(a, " "@);
    if k >= 0 {
        assert(a.subrange(k, k + 1) == " "@);
        assert(a[k] == a.subrange(k, k + 1)[0]);
        assert(a.contains(' '));
    }
}

/// A text splits at its first space: the word before it and all after it.
proof fn lemma_split_at_first_space(a: Seq<char>, b: Seq<char>)
    requires
        !a.contains(' '),
    ensures
        split_at_space(a + " "@ + b) == Some((a, b)),
{
    reveal_strlit(" ");
    let s = a + " "@ + b;
    let n = a.len() as int;
    crate::text::lemma_find_from_bounds(s, " "@, 0);
    assert(s.subrange(n, n + 1) =~= " "@);
    assert(crate::text::matches_at(s, " "@, n));
    let k = find_spec(s, " "@);
    assert(k != -1);
    if k < n {
        assert(s.subrange(k, k + 1) == " "@);
        assert(s[k] == s.subrange(k, k + 1)[0]);
        assert(a[k] == s[k]);
        assert(a.contains(' '));
    }
    assert(k == n);
    assert(s.take(n) =~= a);
    assert(s.skip(n + 1) =~= b);
}

/// POST with a topic word and some text posts that text to that topic,
/// whatever topic the session is in; POST with one word only posts it to
/// the session's topic, or to "general" outside any topic.
pub proof fn lemma_post_topic_choice(
    raw: Seq<char>,
    upper: Seq<char>,
    cmd: Seq<char>,
    word: Seq<char>,
    text: Seq<char>,
    current: Option<Seq<char>>,
)
    requires
        has_prefix(upper, "POST "@),
        !cmd.contains(' '),
        !word.contains(' '),
        word.len() > 0,
    ensures
        text.len() > 0 ==> inline_spec(cmd + " "@ + word + " "@ + text, upper, current) == Some(
            InlineOutcome::Post { topic: word, text },
        ),
        inline_spec(cmd + " "@ + word, upper, current) == Some(
            InlineOutcome::Post {
                topic: match current {
                    Some(t) => t,
                    None => "general"@,
                },
                text: word,
            },
        ),
{
    reveal_strlit("POST ");
    reveal_strlit("WHERE");
    reveal_strlit("W");
    reveal_strlit("READ");
    assert(upper.take(5) == "POST "@);
    assert(upper.take(5)[0] == 'P');
    assert(upper[0] == upper.take(5)[0]);
    assert(upper != "WHERE"@ && upper != "W"@);
    assert(!has_prefix(upper, "READ"@)) by {
        if has_prefix(upper, "READ"@) {
            assert(upper.take(4)[0] == upper[0]);
        }
    }
    lemma_split_at_first_space(cmd, word + " "@ + text);
    assert(cmd + " "@ + word + " "@ + text =~= cmd + " "@ + (word + " "@ + text));
    lemma_split_at_first_space(word, text);
    lemma_split_at_first_space(cmd, word);
    lemma_no_space_no_split(word);
}

/// The message commands understood in any menu.
pub open spec fn inline_spec(raw: Seq<char>, upper: Seq<char>, current: Option<Seq<char>>) -> Option<InlineOutcome> {
    if upper == "WHERE"@ || upper == "W"@ {
        Some(InlineOutcome::Where)
    } else if has_prefix(upper, "READ"@) {
        Some(InlineOutcome::Read { topic: if words(raw).len() >= 2 { words(raw)[1] } else { "general"@ } })
    } else if has_prefix(upper, "POST "@) {
        Some(post_spec(raw, current))
    } else if upper == "TOPICS"@ || upper == "LIST"@ {
        Some(InlineOutcome::Topics)
    } else {
        None
    }
}

fn split_space(s: &str) -> (r: Option<(&str, &str)>)
    ensures
        match r {
            Some((a, b)) => split_at_space(s@) == Some((a@, b@)),
            None => split_at_space(s@) is None,
        },
{
    match find(s, " ") {
        Some(k) => {
            proof {
                reveal_strlit(" ");
                crate::text::lemma_find_from_bounds(s@, " "@, 0);
            }
            let n = s.unicode_len();
            let a = substring(s, 0, k);
            let b = substring(s, k + 1, n);
            proof {
                assert(s@.subrange(0, k as int) =~= s@.take(k as int));
                assert(s@.subrange(k + 1, n as int) =~= s@.skip(k + 1));
            }
            Some((a, b))
        },
        None => None,
    }
}

fn inline_command(raw: &str, upper: &str, current_topic: Option<&str>) -> (r: Option<InlineCommand>)
    ensures
        inline_view(r) == inline_spec(raw@, upper@, match current_topic {
            Some(t) => Some(t@),
            None => None,
        }),
{
    if str_eq(upper, "WHERE") || str_eq(upper, "W") {
        return Some(InlineCommand::Where);
    }
    if starts_with(upper, "READ") {
        let parts = split_whitespace(raw);
        let topic = if parts.len() >= 2 { to_owned_string(parts[1].as_str()) } else { to_owned_string("general") };
        return Some(InlineCommand::Read { topic });
    }
    if starts_with(upper, "POST ") {
        let here = match current_topic {
            Some(t) => t,
            None => "general",
        };
        let (topic, text) = match split_space(raw) {
            None => (here, ""),
            Some((_, after)) => match split_space(after) {
                Some((second, rest)) => (second, rest),
                None => (here, after),
            },
        };
        proof {
            reveal_strlit("");
        }
        if text.unicode_len() == 0 {
            return Some(InlineCommand::PostUsage);
        }
        return Some(InlineCommand::Post { topic: to_owned_string(topic), text: to_owned_string(text) });
    }
    if str_eq(upper, "TOPICS") || str_eq(upper, "LIST") {
        return Some(InlineCommand::Topics);
    }
    None
}

} // verus!
