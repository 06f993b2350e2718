use meshbbs::session::{
    broadcast_targets, broadcast_text, idle_sessions, kick_target, logged_in_session_count, Session, SessionState,
};

fn session() -> Session {
    Session::new_at("s1".to_string(), "305419896".to_string(), 1_000)
}

#[test]
fn new_session_is_a_guest() {
    let s = session();
    assert_eq!(s.state, SessionState::Connected);
    assert!(!s.is_logged_in());
    assert_eq!(s.display_name(), "Guest");
    assert_eq!(s.build_prompt(), "unauth>");
    assert_eq!(s.login_time, 1_000);
}

#[test]
fn login_and_logout() {
    let mut s = session();
    s.login("alice".to_string(), 5);
    assert!(s.is_logged_in());
    assert_eq!(s.state, SessionState::MainMenu);
    assert_eq!(s.display_name(), "alice");
    assert!(s.has_access(5));
    assert!(!s.has_access(10));
    assert_eq!(s.build_prompt(), "alice (lvl5)>");
    s.logout();
    assert!(!s.is_logged_in());
    assert_eq!(s.user_level, 0);
    assert_eq!(s.state, SessionState::Disconnected);
}

#[test]
fn node_labels_fall_back_to_hex() {
    let mut s = session();
    assert_eq!(s.display_node_short(), "0x345678");
    assert_eq!(s.display_node_long(), "0x345678");
    s.update_labels(Some("ALC".to_string()), Some(String::new()));
    assert_eq!(s.display_node_short(), "ALC");
    assert_eq!(s.display_node_long(), "ALC");
    s.update_labels(None, Some("Alice Node".to_string()));
    assert_eq!(s.display_node_long(), "Alice Node");
    let t = Session::new_at("s2".to_string(), "!abc".to_string(), 0);
    assert_eq!(t.display_node_short(), "!abc");
}

#[test]
fn prompts_in_areas() {
    let mut s = session();
    s.login("bob".to_string(), 1);
    s.current_area = Some("general".to_string());
    s.state = SessionState::ReadingMessages;
    assert_eq!(s.build_prompt(), "bob@general>");
    s.state = SessionState::PostingMessage;
    assert_eq!(s.build_prompt(), "post@general>");
    s.current_area = Some("a_very_long_area_name_here".to_string());
    assert_eq!(s.build_prompt(), "post@a_very_long_area_na…>");
    s.state = SessionState::ReadingMessages;
    s.current_area = Some("é".repeat(21));
    assert_eq!(s.build_prompt(), format!("bob@{}…>", "é".repeat(19)));
    s.current_area = Some("é".repeat(20));
    assert_eq!(s.build_prompt(), format!("bob@{}>", "é".repeat(20)));
    s.state = SessionState::Disconnected;
    assert_eq!(s.build_prompt(), "");
}

#[test]
fn inactivity_and_duration() {
    let mut s = session();
    s.update_activity_at(61_000);
    assert_eq!(s.session_duration(), 60_000);
    assert!(!s.is_inactive_at(1, 121_000));
    assert!(s.is_inactive_at(1, 121_001));
}

fn at(node: &str, user: Option<&str>, last_activity: i64) -> Session {
    let mut s = Session::new_at(format!("id-{}", node), node.to_string(), last_activity);
    if let Some(u) = user {
        s.login(u.to_string(), 1);
    }
    s
}

#[test]
fn session_table_decisions() {
    let minute = 60_000;
    let table = vec![
        at("a", Some("alice"), 0),
        at("b", None, 0),
        at("c", Some("carol"), 9 * minute),
        at("d", Some("alice"), 0),
    ];
    assert_eq!(logged_in_session_count(&table), 3);
    assert_eq!(idle_sessions(&table, 5, 10 * minute), vec!["a".to_string(), "d".to_string()]);
    assert_eq!(idle_sessions(&table, 0, 10 * minute), Vec::<String>::new());
    assert_eq!(broadcast_targets(&table), vec!["a".to_string(), "c".to_string(), "d".to_string()]);
    assert_eq!(broadcast_text("maintenance at 5", "sysop"), "*** SYSTEM MESSAGE from sysop: maintenance at 5 ***");
    assert_eq!(kick_target(&table, "alice"), Some(0));
    assert_eq!(kick_target(&table, "carol"), Some(2));
    assert_eq!(kick_target(&table, "bob"), None);
}
