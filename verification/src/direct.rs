//! Commands that reach the board by direct message: what each one asks for,
//! checked against the sender's session, and the replies that need no stored
//! data. Commands that need the user records or other sessions become
//! actions for the server to carry out.
use vstd::prelude::*;
use crate::text::{
    begins_with, byte_len, has_prefix, lowercase_spec, parse_usize, parse_usize_spec, split_whitespace, str_eq,
    string_views, substring, to_lowercase, to_owned_string, to_uppercase, trim, trim_spec, uppercase_spec, utf8_len,
    words, push_str,
};
use crate::session::{Session, display_name_spec};
use crate::roles::{LEVEL_MODERATOR, LEVEL_USER};
use crate::storage::User;
use crate::replies::{format_unread_line, unread_line_spec};
use crate::text::{decimal_spec, write_decimal};

verus! {

/// What a direct-message command asks for, as values.
pub enum DmOutcome {
    VerboseHelp,
    Reply(Seq<char>),
    Register { username: Seq<char>, password: Seq<char> },
    Login { username: Seq<char>, password: Option<Seq<char>> },
    ChangePassword { old: Seq<char>, new: Seq<char> },
    SetPassword { new: Seq<char> },
    Promote { target: Seq<char> },
    Demote { target: Seq<char> },
    Delete { area: Seq<char>, id: Seq<char>, actor: Seq<char> },
    Lock { area: Seq<char>, actor: Seq<char> },
    Unlock { area: Seq<char>, actor: Seq<char> },
    DeletionLog { page: usize },
    AdminLog { page: usize },
    ListUsers { pattern: Option<Seq<char>> },
    Who,
    UserInfo { target: Seq<char> },
    Sessions,
    Kick { target: Seq<char>, actor: Seq<char> },
    Broadcast { message: Seq<char>, sender: Seq<char> },
    Dashboard,
    Logout { name: Seq<char> },
    Help,
    Process(Seq<char>),
}

/// What a direct-message command asks the server to do.
#[derive(Debug)]
pub enum DmAction {
    /// Send the long help, in parts.
    VerboseHelp,
    /// Answer with this text.
    Reply(String),
    /// Create the account and log the session in.
    Register { username: String, password: String },
    /// Log in as `username` (see [`login_step`]).
    Login { username: String, password: Option<String> },
    /// Change the session user's password, checking the old one.
    ChangePassword { old: String, new: String },
    /// Set a first password for the session user.
    SetPassword { new: String },
    /// Raise `target` to moderator (see [`level_change_step`]).
    Promote { target: String },
    /// Lower `target` to an ordinary user.
    Demote { target: String },
    /// Delete message `id` of `area`.
    Delete { area: String, id: String, actor: String },
    /// Lock `area` against posting.
    Lock { area: String, actor: String },
    /// Unlock `area`.
    Unlock { area: String, actor: String },
    /// Show a page of the deletion log.
    DeletionLog { page: usize },
    /// Show a page of the administration log.
    AdminLog { page: usize },
    /// List the users, those whose lower-cased name holds `pattern` if given.
    ListUsers { pattern: Option<String> },
    /// List the logged-in users.
    Who,
    /// Show what is known of `target`.
    UserInfo { target: String },
    /// List all sessions.
    Sessions,
    /// Log `target` out.
    Kick { target: String, actor: String },
    /// Send `message` to every logged-in user.
    Broadcast { message: String, sender: String },
    /// Show the administrative dashboard.
    Dashboard,
    /// Log the session out; `name` is the user it was logged in as.
    Logout { name: String },
    /// Show the short help.
    Help,
    /// Hand the (trimmed) text to the session's menu processor.
    Process(String),
}

impl View for DmAction {
    type V = DmOutcome;

    open spec fn view(&self) -> DmOutcome {
        match self {
            DmAction::VerboseHelp => DmOutcome::VerboseHelp,
            DmAction::Reply(t) => DmOutcome::Reply(t@),
            DmAction::Register { username, password } => DmOutcome::Register { username: username@, password: password@ },
            DmAction::Login { username, password } => DmOutcome::Login {
                username: username@,
                password: match password {
                    Some(p) => Some(p@),
                    None => None,
                },
            },
            DmAction::ChangePassword { old, new } => DmOutcome::ChangePassword { old: old@, new: new@ },
            DmAction::SetPassword { new } => DmOutcome::SetPassword { new: new@ },
            DmAction::Promote { target } => DmOutcome::Promote { target: target@ },
            DmAction::Demote { target } => DmOutcome::Demote { target: target@ },
            DmAction::Delete { area, id, actor } => DmOutcome::Delete { area: area@, id: id@, actor: actor@ },
            DmAction::Lock { area, actor } => DmOutcome::Lock { area: area@, actor: actor@ },
            DmAction::Unlock { area, actor } => DmOutcome::Unlock { area: area@, actor: actor@ },
            DmAction::DeletionLog { page } => DmOutcome::DeletionLog { page: *page },
            DmAction::AdminLog { page } => DmOutcome::AdminLog { page: *page },
            DmAction::ListUsers { pattern } => DmOutcome::ListUsers {
                pattern: match pattern {
                    Some(p) => Some(p@),
                    None => None,
                },
            },
            DmAction::Who => DmOutcome::Who,
            DmAction::UserInfo { target } => DmOutcome::UserInfo { target: target@ },
            DmAction::Sessions => DmOutcome::Sessions,
            DmAction::Kick { target, actor } => DmOutcome::Kick { target: target@, actor: actor@ },
            DmAction::Broadcast { message, sender } => DmOutcome::Broadcast { message: message@, sender: sender@ },
            DmAction::Dashboard => DmOutcome::Dashboard,
            DmAction::Logout { name } => DmOutcome::Logout { name: name@ },
            DmAction::Help => DmOutcome::Help,
            DmAction::Process(t) => DmOutcome::Process(t@),
        }
    }
}

/// The answer to a command that the session's level does not allow.
pub open spec fn denied() -> DmOutcome {
    DmOutcome::Reply("Permission denied.\n"@)
}

/// The page a log command asks for: its first argument as a number, else 1.
pub open spec fn page_arg(parts: Seq<Seq<char>>) -> usize {
    if parts.len() >= 2 {
        match parse_usize_spec(parts[1]) {
            Some(p) => p,
            None => 1,
        }
    } else {
        1
    }
}

/// The name of the session's user, or `none` when nobody is logged in.
pub open spec fn user_or(s: Session, none: Seq<char>) -> Seq<char> {
    match s.username {
        Some(u) => u@,
        None => none,
    }
}

/// Whether the session's user is the sysop `sysop`.
pub open spec fn is_sysop(s: Session, sysop: Seq<char>) -> bool {
    s.username matches Some(u) && u@ == sysop
}

/// The account commands: REGISTER, LOGIN, CHPASS and SETPASS (see
/// [`dm_spec`]); `None` for other commands.
pub open spec fn account_spec(
    t: Seq<char>,
    s: Session,
    sysop: Seq<char>,
    logged_in_count: usize,
    max_users: u32,
) -> Option<DmOutcome> {
    let up = uppercase_spec(t);
    let parts = words(t);
    let logged = s.username is Some;
    if has_prefix(up, "REGISTER "@) {
        Some(if parts.len() < 3 {
            DmOutcome::Reply("Usage: REGISTER <username> <password>\n"@)
        } else if utf8_len(parts[2]) < 8 {
            DmOutcome::Reply("Password too short (minimum 8 characters).\n"@)
        } else {
            DmOutcome::Register { username: parts[1], password: parts[2] }
        })
    } else if has_prefix(up, "LOGIN "@) {
        Some(if !logged && (logged_in_count as u32) >= max_users {
            DmOutcome::Reply("All available sessions are in use, please wait and try again later.\n"@)
        } else if logged {
            DmOutcome::Reply("Already logged in as "@ + display_name_spec(s) + ".\n"@)
        } else if parts.len() < 2 {
            DmOutcome::Reply("Usage: LOGIN <username> [password]\n"@)
        } else {
            DmOutcome::Login { username: parts[1], password: if parts.len() >= 3 { Some(parts[2]) } else { None } }
        })
    } else if has_prefix(up, "CHPASS "@) {
        Some(if is_sysop(s, sysop) {
            DmOutcome::Reply("Sysop password managed externally. Use sysop-passwd CLI.\n"@)
        } else if !logged {
            DmOutcome::Reply("Not logged in.\n"@)
        } else if parts.len() < 3 {
            DmOutcome::Reply("Usage: CHPASS <old> <new>\n"@)
        } else if utf8_len(parts[2]) < 8 {
            DmOutcome::Reply("New password too short (min 8).\n"@)
        } else if utf8_len(parts[2]) > 128 {
            DmOutcome::Reply("New password too long.\n"@)
        } else {
            DmOutcome::ChangePassword { old: parts[1], new: parts[2] }
        })
    } else if has_prefix(up, "SETPASS "@) {
        Some(if is_sysop(s, sysop) {
            DmOutcome::Reply("Sysop password managed externally. Use sysop-passwd CLI.\n"@)
        } else if !logged {
            DmOutcome::Reply("Not logged in.\n"@)
        } else if parts.len() < 2 {
            DmOutcome::Reply("Usage: SETPASS <new>\n"@)
        } else if utf8_len(parts[1]) < 8 {
            DmOutcome::Reply("New password too short (min 8).\n"@)
        } else if utf8_len(parts[1]) > 128 {
            DmOutcome::Reply("New password too long.\n"@)
        } else {
            DmOutcome::SetPassword { new: parts[1] }
        })
    } else {
        None
    }
}

/// The moderation commands: PROMOTE, DEMOTE, DELETE, LOCK, UNLOCK, DELLOG and
/// ADMINLOG (see [`dm_spec`]); `None` for other commands.
pub open spec fn moderation_spec(t: Seq<char>, s: Session, sysop: Seq<char>) -> Option<DmOutcome> {
    let up = uppercase_spec(t);
    let parts = words(t);
    let moderator = s.user_level >= LEVEL_MODERATOR;
    let actor = user_or(s, "?"@);
    if has_prefix(up, "PROMOTE "@) {
        Some(if !is_sysop(s, sysop) {
            denied()
        } else if parts.len() < 2 {
            DmOutcome::Reply("Usage: PROMOTE <user>\n"@)
        } else {
            DmOutcome::Promote { target: parts[1] }
        })
    } else if has_prefix(up, "DEMOTE "@) {
        Some(if !is_sysop(s, sysop) {
            denied()
        } else if parts.len() < 2 {
            DmOutcome::Reply("Usage: DEMOTE <user>\n"@)
        } else {
            DmOutcome::Demote { target: parts[1] }
        })
    } else if has_prefix(up, "DELETE "@) {
        Some(if !moderator {
            denied()
        } else if parts.len() < 3 {
            DmOutcome::Reply("Usage: DELETE <area> <id>\n"@)
        } else {
            DmOutcome::Delete { area: lowercase_spec(parts[1]), id: parts[2], actor }
        })
    } else if has_prefix(up, "LOCK "@) {
        Some(if !moderator {
            denied()
        } else if parts.len() < 2 {
            DmOutcome::Reply("Usage: LOCK <area>\n"@)
        } else {
            DmOutcome::Lock { area: lowercase_spec(parts[1]), actor }
        })
    } else if has_prefix(up, "UNLOCK "@) {
        Some(if !moderator {
            denied()
        } else if parts.len() < 2 {
            DmOutcome::Reply("Usage: UNLOCK <area>\n"@)
        } else {
            DmOutcome::Unlock { area: lowercase_spec(parts[1]), actor }
        })
    } else if has_prefix(up, "DELLOG"@) {
        Some(if !moderator { denied() } else { DmOutcome::DeletionLog { page: page_arg(parts) } })
    } else if has_prefix(up, "ADMINLOG"@) {
        Some(if !moderator { denied() } else { DmOutcome::AdminLog { page: page_arg(parts) } })
    } else {
        None
    }
}

/// The administration commands: USERS, WHO, USERINFO, SESSIONS, KICK,
/// BROADCAST, ADMIN and DASHBOARD (see [`dm_spec`]); `None` for other commands.
pub open spec fn admin_spec(t: Seq<char>, s: Session, sysop: Seq<char>) -> Option<DmOutcome> {
    let up = uppercase_spec(t);
    let parts = words(t);
    let moderator = s.user_level >= LEVEL_MODERATOR;
    if has_prefix(up, "USERS"@) {
        Some(if !moderator {
            denied()
        } else {
            DmOutcome::ListUsers { pattern: if parts.len() >= 2 { Some(lowercase_spec(parts[1])) } else { None } }
        })
    } else if up == "WHO"@ {
        Some(if !moderator { denied() } else { DmOutcome::Who })
    } else if has_prefix(up, "USERINFO "@) {
        Some(if !moderator {
            denied()
        } else if parts.len() < 2 {
            DmOutcome::Reply("Usage: USERINFO <user>\n"@)
        } else {
            DmOutcome::UserInfo { target: parts[1] }
        })
    } else if up == "SESSIONS"@ {
        Some(if !moderator { denied() } else { DmOutcome::Sessions })
    } else if has_prefix(up, "KICK "@) {
        let actor = user_or(s, "unknown"@);
        Some(if !moderator {
            denied()
        } else if parts.len() < 2 {
            DmOutcome::Reply("Usage: KICK <user>\n"@)
        } else if parts[1] == actor {
            DmOutcome::Reply("Cannot kick yourself.\n"@)
        } else if parts[1] == sysop {
            DmOutcome::Reply("Cannot kick sysop.\n"@)
        } else {
            DmOutcome::Kick { target: parts[1], actor }
        })
    } else if has_prefix(up, "BROADCAST "@) {
        let message = trim_spec(if has_prefix(t, "BROADCAST "@) { t.skip(10) } else { Seq::empty() });
        Some(if !moderator {
            denied()
        } else if message.len() == 0 {
            DmOutcome::Reply("Usage: BROADCAST <message>\n"@)
        } else {
            DmOutcome::Broadcast { message, sender: user_or(s, "System"@) }
        })
    } else if up == "ADMIN"@ || up == "DASHBOARD"@ {
        Some(if !moderator { denied() } else { DmOutcome::Dashboard })
    } else {
        None
    }
}

/// What the direct message `raw` asks for, from session `s`, with `sysop` the
/// sysop's name, `logged_in_count` sessions logged in and room for
/// `max_users`. Commands are recognised by their upper-cased text and read
/// word by word; a command that none of them is goes to the menu processor.
pub open spec fn dm_spec(raw: Seq<char>, s: Session, sysop: Seq<char>, logged_in_count: usize, max_users: u32) -> DmOutcome {
    let t = trim_spec(raw);
    let up = uppercase_spec(t);
    if up == "HELP+"@ || up == "HELP V"@ || up == "HELP  V"@ || up == "HELP  +"@ {
        DmOutcome::VerboseHelp
    } else if account_spec(t, s, sysop, logged_in_count, max_users) is Some {
        account_spec(t, s, sysop, logged_in_count, max_users)->0
    } else if moderation_spec(t, s, sysop) is Some {
        moderation_spec(t, s, sysop)->0
    } else if admin_spec(t, s, sysop) is Some {
        admin_spec(t, s, sysop)->0
    } else if up == "LOGOUT"@ {
        if s.username is Some { DmOutcome::Logout { name: display_name_spec(s) } } else { DmOutcome::Reply("Not logged in.\n"@) }
    } else if up == "HELP"@ || up == "?"@ || up == "H"@ {
        DmOutcome::Help
    } else {
        DmOutcome::Process(t)
    }
}

/// REGISTER <user> <password>: only the password's length is checked. A
/// password of at least 8 bytes registers that user with it, whatever the
/// user name; the too-short answer comes exactly when the password has
/// fewer than 8 bytes.
pub proof fn lemma_register_checks_password_length(
    raw: Seq<char>,
    s: Session,
    sysop: Seq<char>,
    logged_in_count: usize,
    max_users: u32,
)
    requires
        has_prefix(uppercase_spec(trim_spec(raw)), "REGISTER "@),
        words(trim_spec(raw)).len() >= 3,
    ensures
        ({
            let w = words(trim_spec(raw));
            let r = dm_spec(raw, s, sysop, logged_in_count, max_users);
            &&& utf8_len(w[2]) >= 8 ==> r == DmOutcome::Register { username: w[1], password: w[2] }
            &&& (r == DmOutcome::Reply("Password too short (minimum 8 characters).\n"@)) <==> utf8_len(w[2]) < 8
        }),
{
    reveal_strlit("REGISTER ");
    reveal_strlit("HELP+");
    reveal_strlit("HELP V");
    reveal_strlit("HELP  V");
    reveal_strlit("HELP  +");
    let up = uppercase_spec(trim_spec(raw));
    assert(up.len() >= 9);
}

/// LOGIN <user> [password] from a guest while a session is free: a login
/// attempt as that user, with the password when one is given.
pub proof fn lemma_login_command(raw: Seq<char>, s: Session, sysop: Seq<char>, logged_in_count: usize, max_users: u32)
    requires
        has_prefix(uppercase_spec(trim_spec(raw)), "LOGIN "@),
        words(trim_spec(raw)).len() >= 2,
        s.username is None,
        (logged_in_count as u32) < max_users,
    ensures
        ({
            let w = words(trim_spec(raw));
            dm_spec(raw, s, sysop, logged_in_count, max_users) == DmOutcome::Login {
                username: w[1],
                password: if w.len() >= 3 { Some(w[2]) } else { None },
            }
        }),
{
    reveal_strlit("LOGIN ");
    reveal_strlit("REGISTER ");
    reveal_strlit("HELP+");
    reveal_strlit("HELP V");
    reveal_strlit("HELP  V");
    reveal_strlit("HELP  +");
    let up = uppercase_spec(trim_spec(raw));
    assert(up.take(6)[0] == 'L');
    assert(up[0] == 'L');
    assert(!has_prefix(up, "REGISTER "@)) by {
        if has_prefix(up, "REGISTER "@) {
            assert(up.take(9)[0] == up[0]);
        }
    }
    assert(up != "HELP+"@ && up != "HELP V"@ && up != "HELP  V"@ && up != "HELP  +"@) by {
        if up == "HELP+"@ || up == "HELP V"@ || up == "HELP  V"@ || up == "HELP  +"@ {
            assert(up[0] == 'H');
        }
    }
}

fn reply(t: &str) -> (a: DmAction)
    ensures
        a@ == DmOutcome::Reply(t@),
{
    DmAction::Reply(to_owned_string(t))
}

fn denial() -> (a: DmAction)
    ensures
        a@ == denied(),
{
    reply("Permission denied.\n")
}

fn user_name_or(s: &Session, none: &str) -> (r: String)
    ensures
        r@ == user_or(*s, none@),
{
    match &s.username {
        Some(u) => u.clone(),
        None => to_owned_string(none),
    }
}

fn session_is_sysop(s: &Session, sysop: &str) -> (r: bool)
    ensures
        r == is_sysop(*s, sysop@),
{
    match &s.username {
        Some(u) => str_eq(u.as_str(), sysop),
        None => false,
    }
}

fn page_of(parts: &Vec<String>) -> (r: usize)
    ensures
        r == page_arg(string_views(parts@)),
{
    if parts.len() >= 2 {
        assert(string_views(parts@)[1] == parts@[1]@);
        match parse_usize(parts[1].as_str()) {
            Some(p) => p,
            None => 1,
        }
    } else {
        1
    }
}

fn account_action(t: &str, up: &str, parts: &Vec<String>, s: &Session, sysop: &str, logged_in_count: usize, max_users: u32)
    -> (r: Option<DmAction>)
    requires
        up@ == uppercase_spec(t@),
        string_views(parts@) == words(t@),
    ensures
        match account_spec(t@, *s, sysop@, logged_in_count, max_users) {
            Some(o) => r matches Some(a) && a@ == o,
            None => r is None,
        },
{
    let ghost ps = string_views(parts@);
    let logged = s.username.is_some();
    if begins_with(up, "REGISTER ") {
        if parts.len() < 3 {
            return Some(reply("Usage: REGISTER <username> <password>\n"));
        }
        assert(ps[1] == parts@[1]@ && ps[2] == parts@[2]@);
        if byte_len(parts[2].as_str()) < 8 {
            return Some(reply("Password too short (minimum 8 characters).\n"));
        }
        return Some(DmAction::Register { username: parts[1].clone(), password: parts[2].clone() });
    }
    if begins_with(up, "LOGIN ") {
        if !logged && (logged_in_count as u32) >= max_users {
            return Some(reply("All available sessions are in use, please wait and try again later.\n"));
        }
        if logged {
            let mut m = to_owned_string("Already logged in as ");
            let name = s.display_name();
            push_str(&mut m, name.as_str());
            push_str(&mut m, ".\n");
            return Some(DmAction::Reply(m));
        }
        if parts.len() < 2 {
            return Some(reply("Usage: LOGIN <username> [password]\n"));
        }
        assert(ps[1] == parts@[1]@);
        let password = if parts.len() >= 3 {
            assert(ps[2] == parts@[2]@);
            Some(parts[2].clone())
        } else {
            None
        };
        return Some(DmAction::Login { username: parts[1].clone(), password });
    }
    let chpass = begins_with(up, "CHPASS ");
    let setpass = !chpass && begins_with(up, "SETPASS ");
    if chpass || setpass {
        if session_is_sysop(s, sysop) {
            return Some(reply("Sysop password managed externally. Use sysop-passwd CLI.\n"));
        }
        if !logged {
            return Some(reply("Not logged in.\n"));
        }
        let need: usize = if chpass { 3 } else { 2 };
        if parts.len() < need {
            if chpass {
                return Some(reply("Usage: CHPASS <old> <new>\n"));
            }
            return Some(reply("Usage: SETPASS <new>\n"));
        }
        let k: usize = need - 1;
        assert(ps[k as int] == parts@[k as int]@);
        let n = byte_len(parts[k].as_str());
        if n < 8 {
            return Some(reply("New password too short (min 8).\n"));
        }
        if n > 128 {
            return Some(reply("New password too long.\n"));
        }
        if chpass {
            assert(ps[1] == parts@[1]@);
            return Some(DmAction::ChangePassword { old: parts[1].clone(), new: parts[2].clone() });
        }
        return Some(DmAction::SetPassword { new: parts[1].clone() });
    }
    None
}

fn moderation_action(t: &str, up: &str, parts: &Vec<String>, s: &Session, sysop: &str) -> (r: Option<DmAction>)
    requires
        up@ == uppercase_spec(t@),
        string_views(parts@) == words(t@),
    ensures
        match moderation_spec(t@, *s, sysop@) {
            Some(o) => r matches Some(a) && a@ == o,
            None => r is None,
        },
{
    let ghost ps = string_views(parts@);
    let moderator = s.user_level >= LEVEL_MODERATOR;
    let promote = begins_with(up, "PROMOTE ");
    let demote = !promote && begins_with(up, "DEMOTE ");
    if promote || demote {
        if !session_is_sysop(s, sysop) {
            return Some(denial());
        }
        if parts.len() < 2 {
            if promote {
                return Some(reply("Usage: PROMOTE <user>\n"));
            }
            return Some(reply("Usage: DEMOTE <user>\n"));
        }
        assert(ps[1] == parts@[1]@);
        let target = parts[1].clone();
        if promote {
            return Some(DmAction::Promote { target });
        }
        return Some(DmAction::Demote { target });
    }
    if begins_with(up, "DELETE ") {
        if !moderator {
            return Some(denial());
        }
        if parts.len() < 3 {
            return Some(reply("Usage: DELETE <area> <id>\n"));
        }
        assert(ps[1] == parts@[1]@ && ps[2] == parts@[2]@);
        return Some(DmAction::Delete {
            area: to_lowercase(parts[1].as_str()),
            id: parts[2].clone(),
            actor: user_name_or(s, "?"),
        });
    }
    let lock = begins_with(up, "LOCK ");
    let unlock = !lock && begins_with(up, "UNLOCK ");
    if lock || unlock {
        if !moderator {
            return Some(denial());
        }
        if parts.len() < 2 {
            if lock {
                return Some(reply("Usage: LOCK <area>\n"));
            }
            return Some(reply("Usage: UNLOCK <area>\n"));
        }
        assert(ps[1] == parts@[1]@);
        let area = to_lowercase(parts[1].as_str());
        let actor = user_name_or(s, "?");
        if lock {
            return Some(DmAction::Lock { area, actor });
        }
        return Some(DmAction::Unlock { area, actor });
    }
    if begins_with(up, "DELLOG") {
        if !moderator {
            return Some(denial());
        }
        return Some(DmAction::DeletionLog { page: page_of(parts) });
    }
    if begins_with(up, "ADMINLOG") {
        if !moderator {
            return Some(denial());
        }
        return Some(DmAction::AdminLog { page: page_of(parts) });
    }
    None
}

fn admin_action(t: &str, up: &str, parts: &Vec<String>, s: &Session, sysop: &str) -> (r: Option<DmAction>)
    requires
        up@ == uppercase_spec(t@),
        string_views(parts@) == words(t@),
    ensures
        match admin_spec(t@, *s, sysop@) {
            Some(o) => r matches Some(a) && a@ == o,
            None => r is None,
        },
{
    let ghost ps = string_views(parts@);
    let moderator = s.user_level >= LEVEL_MODERATOR;
    if begins_with(up, "USERS") {
        if !moderator {
            return Some(denial());
        }
        let pattern = if parts.len() >= 2 {
            assert(ps[1] == parts@[1]@);
            Some(to_lowercase(parts[1].as_str()))
        } else {
            None
        };
        return Some(DmAction::ListUsers { pattern });
    }
    if str_eq(up, "WHO") {
        if !moderator {
            return Some(denial());
        }
        return Some(DmAction::Who);
    }
    if begins_with(up, "USERINFO ") {
        if !moderator {
            return Some(denial());
        }
        if parts.len() < 2 {
            return Some(reply("Usage: USERINFO <user>\n"));
        }
        assert(ps[1] == parts@[1]@);
        return Some(DmAction::UserInfo { target: parts[1].clone() });
    }
    if str_eq(up, "SESSIONS") {
        if !moderator {
            return Some(denial());
        }
        return Some(DmAction::Sessions);
    }
    if begins_with(up, "KICK ") {
        if !moderator {
            return Some(denial());
        }
        if parts.len() < 2 {
            return Some(reply("Usage: KICK <user>\n"));
        }
        assert(ps[1] == parts@[1]@);
        let actor = user_name_or(s, "unknown");
        if str_eq(parts[1].as_str(), actor.as_str()) {
            return Some(reply("Cannot kick yourself.\n"));
        }
        if str_eq(parts[1].as_str(), sysop) {
            return Some(reply("Cannot kick sysop.\n"));
        }
        return Some(DmAction::Kick { target: parts[1].clone(), actor });
    }
    if begins_with(up, "BROADCAST ") {
        proof {
            reveal_strlit("BROADCAST ");
        }
        let rest = if begins_with(t, "BROADCAST ") {
            substring(t, 10, t.unicode_len())
        } else {
            ""
        };
        proof {
            reveal_strlit("");
        }
        let message = trim(rest);
        if !moderator {
            return Some(denial());
        }
        if message.unicode_len() == 0 {
            return Some(reply("Usage: BROADCAST <message>\n"));
        }
        return Some(DmAction::Broadcast { message: to_owned_string(message), sender: user_name_or(s, "System") });
    }
    if str_eq(up, "ADMIN") || str_eq(up, "DASHBOARD") {
        if !moderator {
            return Some(denial());
        }
        return Some(DmAction::Dashboard);
    }
    None
}

/// What the direct message `raw` from session `s` asks for (see [`dm_spec`]).
pub fn route_direct_message(raw: &str, s: &Session, sysop: &str, logged_in_count: usize, max_users: u32) -> (r: DmAction)
    ensures
        r@ == dm_spec(raw@, *s, sysop@, logged_in_count, max_users),
{
    let t = trim(raw);
    let up_owned = to_uppercase(t);
    let up = up_owned.as_str();
    let parts = split_whitespace(t);
    if str_eq(up, "HELP+") || str_eq(up, "HELP V") || str_eq(up, "HELP  V") || str_eq(up, "HELP  +") {
        return DmAction::VerboseHelp;
    }
    match account_action(t, up, &parts, s, sysop, logged_in_count, max_users) {
        Some(a) => return a,
        None => {},
    }
    match moderation_action(t, up, &parts, s, sysop) {
        Some(a) => return a,
        None => {},
    }
    match admin_action(t, up, &parts, s, sysop) {
        Some(a) => return a,
        None => {},
    }
    if str_eq(up, "LOGOUT") {
        if s.username.is_some() {
            return DmAction::Logout { name: s.display_name() };
        }
        return reply("Not logged in.\n");
    }
    if str_eq(up, "HELP") || str_eq(up, "?") || str_eq(up, "H") {
        return DmAction::Help;
    }
    DmAction::Process(to_owned_string(t))
}

/// How a LOGIN goes on once the account was looked up.
#[derive(Debug)]
pub enum LoginStep {
    /// Answer with this text; nobody is logged in.
    Reply(String),
    /// Store the given password as the account's first one, bind the account
    /// to the sending node when `bind`, then log in.
    SetPassword { bind: bool },
    /// Check the given password; when it matches, bind the account to the
    /// sending node when `bind`, then log in. A mismatch is answered
    /// "Invalid password.".
    Verify { bind: bool },
}

/// Whether the account is bound to node `node`.
pub open spec fn bound_to(u: User, node: Seq<char>) -> bool {
    u.node_id matches Some(n) && n@ == node
}

/// How a LOGIN goes on, as values.
pub enum LoginOutcome {
    Reply(Seq<char>),
    SetPassword { bind: bool },
    Verify { bind: bool },
}

impl View for LoginStep {
    type V = LoginOutcome;

    open spec fn view(&self) -> LoginOutcome {
        match self {
            LoginStep::Reply(t) => LoginOutcome::Reply(t@),
            LoginStep::SetPassword { bind } => LoginOutcome::SetPassword { bind: *bind },
            LoginStep::Verify { bind } => LoginOutcome::Verify { bind: *bind },
        }
    }
}

/// How a LOGIN from `node` with `password` goes on for the account `user`
/// (`None` when there is no such account): an account without a password
/// takes the given one as its first, if it is long enough; one with a
/// password needs it.
pub open spec fn login_step_spec(user: Option<User>, node: Seq<char>, password: Option<Seq<char>>) -> LoginOutcome {
    match user {
        None => LoginOutcome::Reply("No such user. Use REGISTER <u> <p>.\n"@),
        Some(u) => if u.password_hash is None {
            match password {
                Some(p) => if utf8_len(p) < 8 {
                    LoginOutcome::Reply("Password too short (minimum 8 characters).\n"@)
                } else {
                    LoginOutcome::SetPassword { bind: !bound_to(u, node) }
                },
                None => LoginOutcome::Reply("Password not set. LOGIN <user> <newpass> to set your password.\n"@),
            }
        } else {
            match password {
                Some(_) => LoginOutcome::Verify { bind: !bound_to(u, node) },
                None => LoginOutcome::Reply("Password required: LOGIN <user> <pass>\n"@),
            }
        },
    }
}

/// An account without a password takes a given password of at least 8
/// bytes as its first one (it is never checked against a hash), and a given
/// password is checked only for an account that has one.
pub proof fn lemma_login_first_password(user: Option<User>, node: Seq<char>, password: Option<Seq<char>>)
    ensures
        (user matches Some(u) && u.password_hash is None) && (password matches Some(p) && utf8_len(p) >= 8)
            ==> login_step_spec(user, node, password) is SetPassword,
        login_step_spec(user, node, password) is Verify ==> (user matches Some(u) && u.password_hash is Some
            && password is Some),
        login_step_spec(user, node, password) is SetPassword ==> ((user matches Some(u) && u.password_hash is None)
            && (password matches Some(p) && utf8_len(p) >= 8)),
        login_step_spec(user, node, password) matches LoginOutcome::SetPassword { bind } ==> bind == !bound_to(
            user->0,
            node,
        ),
        login_step_spec(user, node, password) matches LoginOutcome::Verify { bind } ==> bind == !bound_to(
            user->0,
            node,
        ),
{
}

/// How a LOGIN from `node` with `password` goes on for the account `user`.
pub fn login_step(user: Option<&User>, node: &str, password: Option<&str>) -> (r: LoginStep)
    ensures
        r@ == login_step_spec(
            match user { Some(u) => Some(*u), None => None },
            node@,
            match password { Some(p) => Some(p@), None => None },
        ),
{
    match user {
        None => LoginStep::Reply(to_owned_string("No such user. Use REGISTER <u> <p>.\n")),
        Some(u) => {
            let bound = match &u.node_id {
                Some(n) => str_eq(n.as_str(), node),
                None => false,
            };
            match &u.password_hash {
                None => match password {
                    Some(p) => {
                        if byte_len(p) < 8 {
                            LoginStep::Reply(to_owned_string("Password too short (minimum 8 characters).\n"))
                        } else {
                            LoginStep::SetPassword { bind: !bound }
                        }
                    },
                    None => LoginStep::Reply(
                        to_owned_string("Password not set. LOGIN <user> <newpass> to set your password.\n"),
                    ),
                },
                Some(_) => match password {
                    Some(_) => LoginStep::Verify { bind: !bound },
                    None => LoginStep::Reply(to_owned_string("Password required: LOGIN <user> <pass>\n")),
                },
            }
        },
    }
}

/// The answer to a completed login: a welcome and the unread count.
pub fn login_welcome(username: &str, unread: u32) -> (r: String)
    ensures
        r@ == "Welcome, "@ + username@ + " you are now logged in.\n"@ + unread_line_spec(unread),
{
    let mut out = to_owned_string("Welcome, ");
    push_str(&mut out, username);
    push_str(&mut out, " you are now logged in.\n");
    let line = format_unread_line(unread);
    push_str(&mut out, line.as_str());
    out
}

/// The answer to a login that set the account's first password.
pub fn password_set_welcome(username: &str) -> (r: String)
    ensures
        r@ == "Password set. Welcome, "@ + username@ + " you are now logged in.\n"@ + unread_line_spec(0),
{
    let mut out = to_owned_string("Password set. Welcome, ");
    push_str(&mut out, username);
    push_str(&mut out, " you are now logged in.\n");
    let line = format_unread_line(0);
    push_str(&mut out, line.as_str());
    out
}

/// The quick-start guide shown after a registration.
pub open spec fn register_guide(username: Seq<char>) -> Seq<char> {
    "\n🎉 Welcome to MeshBBS, "@ + username + "! Here's a quick start guide:\n\n• Type 'HELP' to see all available commands\n• Type 'LIST' to browse message boards\n• Type 'POST <board_number> <subject>' to create a new post\n• Type 'READ <board_number>' to read messages\n• Type 'WHO' to see who else is online\n\nEnjoy exploring the mesh network BBS!\n"@
}

/// The answer to REGISTER once the account store answered: the new user is
/// logged in and greeted, or the store's refusal is shown.
pub fn register_reply(username: &str, result: &Result<(), String>) -> (r: String)
    ensures
        r@ == match result {
            Ok(()) => "Registered and logged in as "@ + username@ + ".\nWelcome, "@ + username@
                + " you are now logged in.\n"@ + unread_line_spec(0) + register_guide(username@),
            Err(e) => "Register failed: "@ + e@ + "\n"@,
        },
{
    match result {
        Ok(()) => {
            let mut out = to_owned_string("Registered and logged in as ");
            push_str(&mut out, username);
            push_str(&mut out, ".\nWelcome, ");
            push_str(&mut out, username);
            push_str(&mut out, " you are now logged in.\n");
            let line = format_unread_line(0);
            push_str(&mut out, line.as_str());
            push_str(&mut out, "\n🎉 Welcome to MeshBBS, ");
            push_str(&mut out, username);
            push_str(&mut out, "! Here's a quick start guide:\n\n• Type 'HELP' to see all available commands\n• Type 'LIST' to browse message boards\n• Type 'POST <board_number> <subject>' to create a new post\n• Type 'READ <board_number>' to read messages\n• Type 'WHO' to see who else is online\n\nEnjoy exploring the mesh network BBS!\n");
            out
        },
        Err(e) => {
            let mut out = to_owned_string("Register failed: ");
            push_str(&mut out, e.as_str());
            push_str(&mut out, "\n");
            out
        },
    }
}

/// Why a password change by the session's user (`setting` a first password,
/// or changing one) cannot go on, given the stored account; `None` when it
/// can (a change then checks the old password, see [`password_check_reply`]).
pub open spec fn password_refusal(user: Option<User>, setting: bool) -> Option<Seq<char>> {
    match user {
        None => Some("Session user missing.\n"@),
        Some(u) => if setting {
            if u.password_hash is Some { Some("Password already set. Use CHPASS <old> <new>.\n"@) } else { None }
        } else {
            if u.password_hash is None { Some("No existing password. Use SETPASS <new>.\n"@) } else { None }
        },
    }
}

/// Checks a password change against the stored account (see
/// [`password_refusal`]); a first password, once stored, is answered
/// "Password set.".
pub fn password_change_check(user: Option<&User>, setting: bool) -> (r: Option<String>)
    ensures
        match password_refusal(match user { Some(u) => Some(*u), None => None }, setting) {
            Some(m) => r matches Some(x) && x@ == m,
            None => r is None,
        },
{
    match user {
        None => Some(to_owned_string("Session user missing.\n")),
        Some(u) => {
            if setting {
                if u.password_hash.is_some() {
                    return Some(to_owned_string("Password already set. Use CHPASS <old> <new>.\n"));
                }
                None
            } else {
                if u.password_hash.is_none() {
                    return Some(to_owned_string("No existing password. Use SETPASS <new>.\n"));
                }
                None
            }
        },
    }
}

/// Why a password change stops once the old password was checked: it did not
/// match, or the new one is the same; `None` when the new password is to be
/// stored, which is answered "Password changed.".
pub fn password_check_reply(verified: bool, old: &str, new: &str) -> (r: Option<String>)
    ensures
        match r {
            Some(m) => if !verified { m@ == "Invalid password.\n"@ } else { old@ == new@ && m@ == "New password must differ.\n"@ },
            None => verified && old@ != new@,
        },
{
    if !verified {
        return Some(to_owned_string("Invalid password.\n"));
    }
    if str_eq(old, new) {
        return Some(to_owned_string("New password must differ.\n"));
    }
    None
}

/// How a PROMOTE or DEMOTE goes on once the target account was looked up.
#[derive(Debug)]
pub enum LevelStep {
    /// Answer with this text; nothing changes.
    Reply(String),
    /// Set the account's level (see [`level_changed_reply`]).
    Update { username: String, level: u8 },
}

/// Promotes a user to moderator, or demotes one to an ordinary user: not the
/// sysop, and not one already there.
pub fn level_change_step(target: Option<&User>, sysop: &str, promote: bool) -> (r: LevelStep)
    ensures
        match target {
            None => r matches LevelStep::Reply(m) && m@ == "User not found.\n"@,
            Some(u) => if u.username@ == sysop@ {
                r matches LevelStep::Reply(m) && m@ == "Cannot modify sysop.\n"@
            } else if promote && u.user_level >= LEVEL_MODERATOR {
                r matches LevelStep::Reply(m) && m@ == "Already moderator or higher.\n"@
            } else if !promote && u.user_level <= LEVEL_USER {
                r matches LevelStep::Reply(m) && m@ == "Already at base level.\n"@
            } else {
                r matches LevelStep::Update { username, level } && username@ == u.username@
                    && level == if promote { LEVEL_MODERATOR } else { LEVEL_USER }
            },
        },
{
    match target {
        None => LevelStep::Reply(to_owned_string("User not found.\n")),
        Some(u) => {
            if str_eq(u.username.as_str(), sysop) {
                LevelStep::Reply(to_owned_string("Cannot modify sysop.\n"))
            } else if promote && u.user_level >= LEVEL_MODERATOR {
                LevelStep::Reply(to_owned_string("Already moderator or higher.\n"))
            } else if !promote && u.user_level <= LEVEL_USER {
                LevelStep::Reply(to_owned_string("Already at base level.\n"))
            } else {
                LevelStep::Update {
                    username: u.username.clone(),
                    level: if promote { LEVEL_MODERATOR } else { LEVEL_USER },
                }
            }
        },
    }
}

/// The answer once a level was changed.
pub fn level_changed_reply(username: &str, promote: bool) -> (r: String)
    ensures
        r@ == username@ + if promote { " promoted to Moderator.\n"@ } else { " demoted to User.\n"@ },
{
    let mut out = to_owned_string(username);
    if promote {
        push_str(&mut out, " promoted to Moderator.\n");
    } else {
        push_str(&mut out, " demoted to User.\n");
    }
    out
}

/// The answer to DELETE once the store answered: deleted, not found, or its
/// error.
pub fn delete_reply(result: &Result<bool, String>, area: &str, id: &str) -> (r: String)
    ensures
        r@ == match result {
            Ok(true) => "Deleted message "@ + id@ + " in "@ + area@ + ".\n"@,
            Ok(false) => "Not found.\n"@,
            Err(e) => "Delete failed: "@ + e@ + "\n"@,
        },
{
    match result {
        Ok(true) => {
            let mut out = to_owned_string("Deleted message ");
            push_str(&mut out, id);
            push_str(&mut out, " in ");
            push_str(&mut out, area);
            push_str(&mut out, ".\n");
            out
        },
        Ok(false) => to_owned_string("Not found.\n"),
        Err(e) => {
            let mut out = to_owned_string("Delete failed: ");
            push_str(&mut out, e.as_str());
            push_str(&mut out, "\n");
            out
        },
    }
}

/// The answer to LOCK (`lock`) or UNLOCK, which is given whether or not the
/// lock file could be written.
pub fn area_lock_reply(area: &str, lock: bool) -> (r: String)
    ensures
        r@ == "Area "@ + area@ + if lock { " locked.\n"@ } else { " unlocked.\n"@ },
{
    let mut out = to_owned_string("Area ");
    push_str(&mut out, area);
    if lock {
        push_str(&mut out, " locked.\n");
    } else {
        push_str(&mut out, " unlocked.\n");
    }
    out
}

/// The answer to BROADCAST once it was sent to `result` users, or failed.
pub fn broadcast_reply(result: &Result<usize, String>) -> (r: String)
    ensures
        r@ == match result {
            Ok(n) => if *n == 0 {
                "No users online to receive broadcast.\n"@
            } else {
                "Broadcast sent to "@ + decimal_spec(*n as nat) + " users.\n"@
            },
            Err(e) => "Broadcast failed: "@ + e@ + "\n"@,
        },
{
    match result {
        Ok(n) => {
            if *n == 0 {
                to_owned_string("No users online to receive broadcast.\n")
            } else {
                let mut out = to_owned_string("Broadcast sent to ");
                write_decimal(&mut out, *n as u64);
                push_str(&mut out, " users.\n");
                out
            }
        },
        Err(e) => {
            let mut out = to_owned_string("Broadcast failed: ");
            push_str(&mut out, e.as_str());
            push_str(&mut out, "\n");
            out
        },
    }
}

/// The answer to KICK once the user's session was looked for.
pub fn kicked_reply(target: &str, found: bool) -> (r: String)
    ensures
        r@ == if found { "User "@ + target@ + " has been kicked.\n"@ } else { "User not found or not logged in.\n"@ },
{
    if found {
        let mut out = to_owned_string("User ");
        push_str(&mut out, target);
        push_str(&mut out, " has been kicked.\n");
        out
    } else {
        to_owned_string("User not found or not logged in.\n")
    }
}

/// The answer to LOGOUT for the user `name`.
pub fn logout_reply(name: &str) -> (r: String)
    ensures
        r@ == "User "@ + name@ + " logged out.\n"@,
{
    let mut out = to_owned_string("User ");
    push_str(&mut out, name);
    push_str(&mut out, " logged out.\n");
    out
}

/// The short help as sent in a session: the first time, a line of shortcuts
/// follows, and the session remembers that it saw them.
pub fn help_with_shortcuts(session: &mut Session, help: String) -> (r: String)
    ensures
        r@ == help@ + if old(session).help_seen { Seq::<char>::empty() } else { "Shortcuts: M=areas U=user Q=quit\n"@ },
        *final(session) == (Session { help_seen: true, ..*old(session) }),
{
    let mut out = help;
    if !session.help_seen {
        session.help_seen = true;
        push_str(&mut out, "Shortcuts: M=areas U=user Q=quit\n");
    }
    proof {
        if old(session).help_seen {
            assert(out@ =~= help@ + Seq::<char>::empty());
        }
    }
    out
}

/// Whether the first direct message of a node is answered with the banner:
/// unless it is itself a LOGIN or REGISTER.
pub fn first_contact_banner(content: &str) -> (r: bool)
    ensures
        r == !(has_prefix(uppercase_spec(trim_spec(content@)), "LOGIN "@)
            || has_prefix(uppercase_spec(trim_spec(content@)), "REGISTER "@)),
{
    let up = to_uppercase(trim(content));
    !(begins_with(up.as_str(), "LOGIN ") || begins_with(up.as_str(), "REGISTER "))
}

/// The first answer to a node: the banner, then how to get an account.
pub fn first_contact_text(banner: &str) -> (r: String)
    ensures
        r@ == banner@ + "Use REGISTER <name> <pass> to create an account or LOGIN <name> <pass>. Type HELP for basics.\n"@,
{
    let mut out = to_owned_string(banner);
    push_str(&mut out, "Use REGISTER <name> <pass> to create an account or LOGIN <name> <pass>. Type HELP for basics.\n");
    out
}

/// The public answer to `LOGIN <name>` on the public channel.
pub fn public_login_reply(username: &str) -> (r: String)
    ensures
        r@ == "Login pending for '"@ + username@
            + "'. Open a direct message to this node and say HI or LOGIN <name> again to complete."@,
{
    let mut out = to_owned_string("Login pending for '");
    push_str(&mut out, username);
    push_str(&mut out, "'. Open a direct message to this node and say HI or LOGIN <name> again to complete.");
    out
}

/// The answer to a malformed public command.
pub fn public_invalid_reply(reason: &str) -> (r: String)
    ensures
        r@ == "Invalid: "@ + reason@,
{
    let mut out = to_owned_string("Invalid: ");
    push_str(&mut out, reason);
    out
}

/// The public notice that answers HELP on the public channel, naming the
/// asker by `label`.
pub fn public_help_notice(label: &str, bbs_name: &str) -> (r: String)
    ensures
        r@ == "["@ + label@ + "] - please check your DM's for "@ + bbs_name@ + " help"@,
{
    let mut out = to_owned_string("[");
    push_str(&mut out, label);
    push_str(&mut out, "] - please check your DM's for ");
    push_str(&mut out, bbs_name);
    push_str(&mut out, " help");
    out
}

} // verus!
