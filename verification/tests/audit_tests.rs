use meshbbs::activity::{default_limit, parse_audit_activity, ActivityType};
use meshbbs::audit::{AuditAction, AuditEntry};
use meshbbs::auditlog::{default_page, default_page_size, parse_audit_line, select_audit_entries, AuditLogEntry, AuditLogQuery};

fn update_entry() -> AuditEntry {
    AuditEntry {
        action: AuditAction::Update,
        username: "sysop".to_string(),
        resource: Some("users/bob".to_string()),
        ip_address: "10.0.0.1".to_string(),
        session_token: "abcdefghijkl".to_string(),
        status: "success".to_string(),
        reason: Some("level change".to_string()),
    }
}

const LINE: &str = "[2024-01-01T00:00:00Z] ACTION=UPDATE USER=sysop RESOURCE=users/bob IP=10.0.0.1 SESSION=abcdefgh STATUS=success REASON=\"level change\"";

#[test]
fn action_names() {
    assert_eq!(AuditAction::LoginFailed.as_str(), "LOGIN_FAILED");
    assert_eq!(AuditAction::ConfigChange.as_str(), "CONFIG_CHANGE");
    assert_eq!(AuditAction::View.as_str(), "VIEW");
}

#[test]
fn entry_line_format() {
    assert_eq!(update_entry().format_at("2024-01-01T00:00:00Z"), LINE);
    let mut e = update_entry();
    e.resource = None;
    e.reason = None;
    e.action = AuditAction::Login;
    assert_eq!(
        e.format_at("T"),
        "[T] ACTION=LOGIN USER=sysop IP=10.0.0.1 SESSION=abcdefgh STATUS=success"
    );
    let stamped = update_entry().format();
    assert!(stamped.starts_with('['));
    assert!(stamped.contains("] ACTION=UPDATE USER=sysop"));
}

#[test]
fn written_line_reads_back() {
    let e = parse_audit_line(LINE).unwrap();
    assert_eq!(e.timestamp, "2024-01-01T00:00:00Z");
    assert_eq!(e.action, "UPDATE");
    assert_eq!(e.user, "sysop");
    assert_eq!(e.resource.as_deref(), Some("users/bob"));
    assert_eq!(e.ip_address, "10.0.0.1");
    assert_eq!(e.session_token, "abcdefgh");
    assert_eq!(e.status, "success");
    assert_eq!(e.reason.as_deref(), Some("level change"));
    assert!(parse_audit_line("   ").is_none());
    assert!(parse_audit_line("no bracket here").is_none());
}

fn entry(action: &str, user: &str, resource: Option<&str>) -> AuditLogEntry {
    AuditLogEntry {
        timestamp: "t".to_string(),
        action: action.to_string(),
        user: user.to_string(),
        resource: resource.map(|r| r.to_string()),
        ip_address: "ip".to_string(),
        session_token: "s".to_string(),
        status: "success".to_string(),
        reason: None,
    }
}

fn query() -> AuditLogQuery {
    AuditLogQuery { action: None, user: None, status: None, search: None, page: 1, limit: 2 }
}

#[test]
fn listing_pages_newest_first() {
    assert_eq!(default_page(), 1);
    assert_eq!(default_page_size(), 50);
    let entries = vec![entry("LOGIN", "a", None), entry("VIEW", "b", Some("Users")), entry("UPDATE", "a", Some("topics/x"))];
    let r = select_audit_entries(entries.clone(), &query());
    assert_eq!(r.total, 3);
    assert_eq!(r.total_pages, 2);
    let actions: Vec<&str> = r.entries.iter().map(|e| e.action.as_str()).collect();
    assert_eq!(actions, vec!["UPDATE", "VIEW"]);
    let mut q = query();
    q.page = 2;
    let r = select_audit_entries(entries.clone(), &q);
    assert_eq!(r.entries.len(), 1);
    assert_eq!(r.entries[0].action, "LOGIN");
    let mut q = query();
    q.user = Some("A".to_string());
    let r = select_audit_entries(entries.clone(), &q);
    assert_eq!(r.total, 2);
    let mut q = query();
    q.search = Some("USERS".to_string());
    let r = select_audit_entries(entries, &q);
    assert_eq!(r.total, 1);
    assert_eq!(r.entries[0].action, "VIEW");
}

#[test]
fn activity_items_from_lines() {
    assert_eq!(default_limit(), 10);
    let a = parse_audit_activity(LINE).unwrap();
    assert_eq!(a.activity_type, ActivityType::AdminAction);
    assert_eq!(a.timestamp, "2024-01-01T00:00:00Z");
    assert_eq!(a.actor, "sysop");
    assert_eq!(a.description, "updated users/bob (level change)");
    assert_eq!(a.icon.as_deref(), Some("✏️"));
    let l = parse_audit_activity("[t] ACTION=LOGIN USER=alice IP=x").unwrap();
    assert_eq!(l.description, "logged in");
    assert_eq!(l.icon.as_deref(), Some("🔐"));
    let o = parse_audit_activity("[t] ACTION=EXPORT USER=alice").unwrap();
    assert_eq!(o.description, "performed EXPORT");
    assert_eq!(o.icon, None);
    assert!(parse_audit_activity("[t] ACTION=VIEW USER=alice").is_none());
    assert!(parse_audit_activity("[t] USER=alice").is_none());
    assert!(parse_audit_activity("no bracket").is_none());
}

#[test]
fn login_entries_and_log_path() {
    let e = meshbbs::audit::login_entry("sysop", "10.0.0.2", "tok123456789");
    assert_eq!(e.action, AuditAction::Login);
    assert_eq!(e.format_at("T"), "[T] ACTION=LOGIN USER=sysop IP=10.0.0.2 SESSION=tok12345 STATUS=success");
    let f = meshbbs::audit::login_failed_entry("eve", "unknown", "invalid_password");
    assert_eq!((f.session_token.as_str(), f.status.as_str(), f.reason.as_deref()), ("none", "failed", Some("invalid_password")));
    let o = meshbbs::audit::logout_entry("sysop", "ip", "tok");
    assert_eq!(o.action, AuditAction::Logout);
    let mut cfg = meshbbs::config::AdminDashboardConfig::default();
    assert_eq!(meshbbs::audit::audit_log_path(&cfg, "data"), "data/admin_dashboard.log");
    cfg.audit_log_directory = Some("/var/log/meshbbs/".to_string());
    assert_eq!(meshbbs::audit::audit_log_path(&cfg, "data"), "/var/log/meshbbs/admin_dashboard.log");
    cfg.audit_log_file = "/abs/audit.log".to_string();
    assert_eq!(meshbbs::audit::audit_log_path(&cfg, "data"), "/abs/audit.log");
}

#[test]
fn short_session_tokens_are_shown_whole() {
    let e = AuditEntry {
        action: AuditAction::Login,
        username: "admin".to_string(),
        resource: None,
        ip_address: "192.168.1.100".to_string(),
        session_token: "abc123".to_string(),
        status: "success".to_string(),
        reason: None,
    };
    assert_eq!(
        e.format_at("2025-10-17T14:32:10Z"),
        "[2025-10-17T14:32:10Z] ACTION=LOGIN USER=admin IP=192.168.1.100 SESSION=abc123 STATUS=success"
    );
    let mut long = e.clone();
    long.session_token = "ééééééééééé".to_string();
    assert_eq!(long.format_at("T"), "[T] ACTION=LOGIN USER=admin IP=192.168.1.100 SESSION=éééééééé STATUS=success");
}

#[test]
fn formatted_line_reads_back_with_an_rfc3339_stamp() {
    let e = update_entry();
    let line = e.format();
    let p = parse_audit_line(&line).unwrap();
    assert!(!p.timestamp.is_empty());
    assert!(p.timestamp.chars().all(|c| c.is_ascii_digit() || "-+T:.".contains(c)));
    assert_eq!(p.action, e.action.as_str());
    assert_eq!(p.user, e.username);
    assert_eq!(p.resource, e.resource);
    assert_eq!(p.ip_address, e.ip_address);
    assert_eq!(p.session_token, "abcdefgh");
    assert_eq!(p.status, e.status);
    assert_eq!(p.reason, e.reason);
}
