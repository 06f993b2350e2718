//! Entries of the admin dashboard's audit log and their one-line format:
//! `[TIME] ACTION=.. USER=.. RESOURCE=.. IP=.. SESSION=.. STATUS=.. REASON=".."`.
use vstd::prelude::*;
use crate::text::{to_owned_string, push_str, push_char, substring, join_path, join_path_spec};
use crate::config::AdminDashboardConfig;
use crate::clock::{now_rfc3339, rfc3339_shaped};

verus! {

/// What an admin did.
#[derive(Debug, Clone, Copy, PartialEq, Eq, Structural)]
pub enum AuditAction {
    Login,
    Logout,
    LoginFailed,
    Create,
    Update,
    Delete,
    View,
    Export,
    Import,
    ConfigChange,
}

/// The name of an action in the log.
pub open spec fn action_text(a: AuditAction) -> Seq<char> {
    match a {
        AuditAction::Login => "LOGIN"@,
        AuditAction::Logout => "LOGOUT"@,
        AuditAction::LoginFailed => "LOGIN_FAILED"@,
        AuditAction::Create => "CREATE"@,
        AuditAction::Update => "UPDATE"@,
        AuditAction::Delete => "DELETE"@,
        AuditAction::View => "VIEW"@,
        AuditAction::Export => "EXPORT"@,
        AuditAction::Import => "IMPORT"@,
        AuditAction::ConfigChange => "CONFIG_CHANGE"@,
    }
}

impl AuditAction {
    /// The name of the action in the log.
    pub fn as_str(&self) -> (r: &'static str)
        ensures
            r@ == action_text(*self),
    {
        match self {
            AuditAction::Login => "LOGIN",
            AuditAction::Logout => "LOGOUT",
            AuditAction::LoginFailed => "LOGIN_FAILED",
            AuditAction::Create => "CREATE",
            AuditAction::Update => "UPDATE",
            AuditAction::Delete => "DELETE",
            AuditAction::View => "VIEW",
            AuditAction::Export => "EXPORT",
            AuditAction::Import => "IMPORT",
            AuditAction::ConfigChange => "CONFIG_CHANGE",
        }
    }
}

/// One admin action to record.
#[derive(Debug, Clone)]
pub struct AuditEntry {
    pub action: AuditAction,
    pub username: String,
    pub resource: Option<String>,
    pub ip_address: String,
    pub session_token: String,
    pub status: String,
    pub reason: Option<String>,
}

/// The part of a session token a log line shows: its first 8 characters, or
/// the whole of a shorter token.
pub open spec fn shown_token(tok: Seq<char>) -> Seq<char> {
    if tok.len() <= 8 { tok } else { tok.take(8) }
}

/// The action and user of a log line.
pub open spec fn head_text(e: AuditEntry) -> Seq<char> {
    " ACTION="@ + action_text(e.action) + " USER="@ + e.username@
}

/// The resource of a log line, if the entry names one.
pub open spec fn resource_text(e: AuditEntry) -> Seq<char> {
    match e.resource {
        Some(r) => " RESOURCE="@ + r@,
        None => Seq::<char>::empty(),
    }
}

/// The address, session and status of a log line; the session shows the
/// first 8 characters of its token (see [`shown_token`]).
pub open spec fn tail_text(e: AuditEntry) -> Seq<char> {
    " IP="@ + e.ip_address@ + " SESSION="@ + shown_token(e.session_token@) + " STATUS="@ + e.status@
}

/// The quoted reason of a log line, if the entry gives one.
pub open spec fn reason_text(e: AuditEntry) -> Seq<char> {
    match e.reason {
        Some(r) => " REASON="@ + seq!['"'] + r@ + seq!['"'],
        None => Seq::<char>::empty(),
    }
}

/// The log line of an entry at time `ts`.
pub open spec fn audit_line(e: AuditEntry, ts: Seq<char>) -> Seq<char> {
    "["@ + ts + "]"@ + head_text(e) + resource_text(e) + tail_text(e) + reason_text(e)
}

/// The part of a session token a log line shows (see [`shown_token`]).
fn shown_token_of(tok: &str) -> (r: &str)
    ensures
        r@ == shown_token(tok@),
{
    let n = tok.unicode_len();
    if n <= 8 { tok } else { substring(tok, 0, 8) }
}

impl AuditEntry {
    /// The log line of the entry at time `timestamp`.
    pub fn format_at(&self, timestamp: &str) -> (r: String)
        ensures
            r@ == audit_line(*self, timestamp@),
    {
        let mut s = to_owned_string("[");
        push_str(&mut s, timestamp);
        push_str(&mut s, "]");
        push_str(&mut s, " ACTION=");
        push_str(&mut s, self.action.as_str());
        push_str(&mut s, " USER=");
        push_str(&mut s, self.username.as_str());
        let ghost head = s@;
        match &self.resource {
            Some(r) => {
                push_str(&mut s, " RESOURCE=");
                push_str(&mut s, r.as_str());
            },
            None => {},
        }
        let ghost with_resource = s@;
        push_str(&mut s, " IP=");
        push_str(&mut s, self.ip_address.as_str());
        push_str(&mut s, " SESSION=");
        let tok = shown_token_of(self.session_token.as_str());
        push_str(&mut s, tok);
        push_str(&mut s, " STATUS=");
        push_str(&mut s, self.status.as_str());
        let ghost before_reason = s@;
        assert(before_reason =~= with_resource + tail_text(*self));
        match &self.reason {
            Some(r) => {
                push_str(&mut s, " REASON=");
                push_char(&mut s, '"');
                push_str(&mut s, r.as_str());
                push_char(&mut s, '"');
            },
            None => {},
        }
        proof {
            let tk = self.session_token@;
            let res = match &self.resource {
                Some(r) => " RESOURCE="@ + r@,
                None => Seq::<char>::empty(),
            };
            let rea = match &self.reason {
                Some(r) => " REASON="@ + seq!['"'] + r@ + seq!['"'],
                None => Seq::<char>::empty(),
            };
            assert(head =~= "["@ + timestamp@ + "]"@ + head_text(*self));
            assert(with_resource =~= head + res);
            assert(res == resource_text(*self));
            assert(rea == reason_text(*self));
            assert(s@ =~= before_reason + rea);
            assert(s@ =~= audit_line(*self, timestamp@));
        }
        s
    }

    /// The log line of the entry stamped with the current time, written as
    /// RFC 3339 text.
    pub fn format(&self) -> (r: String)
        ensures
            exists|ts: Seq<char>| rfc3339_shaped(ts) && r@ == #[trigger] audit_line(*self, ts),
    {
        let ts = now_rfc3339();
        let r = self.format_at(ts.as_str());
        assert(rfc3339_shaped(ts@) && r@ == audit_line(*self, ts@));
        r
    }
}


/// The entry recording a successful login of `username` from `ip` with the
/// new session `session_token`.
pub fn login_entry(username: &str, ip: &str, session_token: &str) -> (e: AuditEntry)
    ensures
        e.action == AuditAction::Login,
        e.username@ == username@,
        e.resource is None,
        e.ip_address@ == ip@,
        e.session_token@ == session_token@,
        e.status@ == "success"@,
        e.reason is None,
{
    AuditEntry {
        action: AuditAction::Login,
        username: to_owned_string(username),
        resource: None,
        ip_address: to_owned_string(ip),
        session_token: to_owned_string(session_token),
        status: to_owned_string("success"),
        reason: None,
    }
}

/// The entry recording a refused login of `username` from `ip`, and why; it
/// has no session, written "none".
pub fn login_failed_entry(username: &str, ip: &str, reason: &str) -> (e: AuditEntry)
    ensures
        e.action == AuditAction::LoginFailed,
        e.username@ == username@,
        e.resource is None,
        e.ip_address@ == ip@,
        e.session_token@ == "none"@,
        e.status@ == "failed"@,
        e.reason matches Some(r) && r@ == reason@,
{
    AuditEntry {
        action: AuditAction::LoginFailed,
        username: to_owned_string(username),
        resource: None,
        ip_address: to_owned_string(ip),
        session_token: to_owned_string("none"),
        status: to_owned_string("failed"),
        reason: Some(to_owned_string(reason)),
    }
}

/// The entry recording the logout of `username` from `ip` ending `session_token`.
pub fn logout_entry(username: &str, ip: &str, session_token: &str) -> (e: AuditEntry)
    ensures
        e.action == AuditAction::Logout,
        e.username@ == username@,
        e.resource is None,
        e.ip_address@ == ip@,
        e.session_token@ == session_token@,
        e.status@ == "success"@,
        e.reason is None,
{
    AuditEntry {
        action: AuditAction::Logout,
        username: to_owned_string(username),
        resource: None,
        ip_address: to_owned_string(ip),
        session_token: to_owned_string(session_token),
        status: to_owned_string("success"),
        reason: None,
    }
}

/// Where the audit log is written: the configured file in the configured
/// directory, or in the data directory when none is configured.
pub fn audit_log_path(config: &AdminDashboardConfig, data_dir: &str) -> (p: String)
    ensures
        p@ == join_path_spec(match config.audit_log_directory {
            Some(d) => d@,
            None => data_dir@,
        }, config.audit_log_file@),
{
    match &config.audit_log_directory {
        Some(d) => join_path(d.as_str(), config.audit_log_file.as_str()),
        None => join_path(data_dir, config.audit_log_file.as_str()),
    }
}

} // verus!
