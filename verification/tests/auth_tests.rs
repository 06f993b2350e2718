use meshbbs::auth::{check_expiry, login_outcome, new_claims, LoginOutcome, Session, SessionTable};
use meshbbs::password::{register_user, Argon2Cost};

fn session(user: &str, created: i64) -> Session {
    Session {
        username: user.to_string(),
        admin_level: 10,
        token_id: format!("tid-{}", created),
        created_at: created,
        last_activity: created,
    }
}

#[test]
fn claims_and_expiry() {
    let c = new_claims("sysop", 10, "tok", 1_000, 3_600);
    assert_eq!((c.sub.as_str(), c.exp, c.iat, c.jti.as_str(), c.admin_level), ("sysop", 4_600, 1_000, "tok", 10));
    assert_eq!(check_expiry(&c, 4_601, true), Err("Token expired".to_string()));
    assert_eq!(check_expiry(&c, 4_600, true), Ok(()));
    assert_eq!(check_expiry(&c, 9_999, false), Ok(()));
}

#[test]
fn sessions_per_admin_are_capped() {
    let mut t = SessionTable::new();
    t.insert_session("a".to_string(), session("sysop", 1), 2);
    t.insert_session("b".to_string(), session("sysop", 2), 2);
    t.insert_session("c".to_string(), session("other", 3), 2);
    t.insert_session("d".to_string(), session("sysop", 4), 2);
    let tokens: Vec<&str> = t.sessions.iter().map(|(k, _)| k.as_str()).collect();
    assert_eq!(tokens, vec!["b", "c", "d"]);
}

#[test]
fn touch_invalidate_and_cleanup() {
    let mut t = SessionTable::new();
    t.insert_session("a".to_string(), session("sysop", 100), 5);
    t.insert_session("b".to_string(), session("sysop", 500), 5);
    assert_eq!(t.touch("a", 200), Ok(()));
    assert_eq!(t.sessions[0].1.last_activity, 200);
    assert_eq!(t.touch("zz", 200), Err("Session not found".to_string()));
    t.cleanup_expired_sessions(700, 300);
    let tokens: Vec<&str> = t.sessions.iter().map(|(k, _)| k.as_str()).collect();
    assert_eq!(tokens, vec!["b"]);
    t.invalidate_session("b");
    assert!(t.sessions.is_empty());
}

#[test]
fn dashboard_login_outcomes() {
    let cost = Some(Argon2Cost { m_cost: 64, t_cost: 1, p_cost: 1 });
    let hash = register_user("sysop", "admin pass", None, false, cost, 0).unwrap().password_hash.unwrap();
    assert!(matches!(login_outcome("sysop", "admin pass", "sysop", &hash, 10), LoginOutcome::Accepted));
    match login_outcome("mallory", "admin pass", "sysop", &hash, 10) {
        LoginOutcome::Refused { reason } => assert_eq!(reason, "invalid_username"),
        other => panic!("unexpected {:?}", other),
    }
    match login_outcome("sysop", "wrong", "sysop", &hash, 10) {
        LoginOutcome::Refused { reason } => assert_eq!(reason, "invalid_password"),
        other => panic!("unexpected {:?}", other),
    }
    match login_outcome("sysop", "admin pass", "sysop", &hash, 11) {
        LoginOutcome::Refused { reason } => assert_eq!(reason, "invalid_password"),
        other => panic!("unexpected {:?}", other),
    }
    match login_outcome("sysop", "admin pass", "sysop", "garbage", 10) {
        LoginOutcome::CheckFailed { reason } => assert!(reason.starts_with("verification_error: Invalid password hash: ")),
        other => panic!("unexpected {:?}", other),
    }
}

#[test]
fn the_oldest_session_is_evicted() {
    let mut t = SessionTable::new();
    t.insert_session("late".to_string(), session("sysop", 50), 2);
    t.insert_session("early".to_string(), session("sysop", 10), 2);
    t.insert_session("new".to_string(), session("sysop", 90), 2);
    let tokens: Vec<&str> = t.sessions.iter().map(|(k, _)| k.as_str()).collect();
    assert_eq!(tokens, vec!["late", "new"]);
}
