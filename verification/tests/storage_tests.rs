use meshbbs::storage::{
    audit_page, bind_node, change_level, check_new_password, check_post, check_registration, compose_message,
    default_user_level, deletion_entry, new_user, past_retention, recent_messages, seed_sysop, sort_newest_first,
    touch_user,
    AreaRules, Message, User,
};

fn msg(id: &str, ts: i64) -> Message {
    Message {
        id: id.to_string(),
        area: "general".to_string(),
        author: "a".to_string(),
        content: id.to_string(),
        timestamp: ts,
        replies: vec![],
    }
}

fn user(name: &str, level: u8) -> User {
    User {
        username: name.to_string(),
        node_id: None,
        user_level: level,
        password_hash: None,
        first_login: 0,
        last_login: 0,
        total_messages: 3,
    }
}

#[test]
fn registration_checks() {
    assert_eq!(check_registration("a", false), Err("Username too short".to_string()));
    assert_eq!(check_registration("a", true), Err("Username too short".to_string()));
    assert_eq!(check_registration("al", true), Err("User already exists".to_string()));
    assert_eq!(check_registration("al", false), Ok(()));
    assert_eq!(default_user_level(), 1);
}

#[test]
fn password_length_checks() {
    assert_eq!(check_new_password("short"), Err("Password too short (min 8)".to_string()));
    assert_eq!(check_new_password(&"x".repeat(129)), Err("Password too long".to_string()));
    assert_eq!(check_new_password("12345678"), Ok(()));
    assert_eq!(check_new_password(&"x".repeat(128)), Ok(()));
}

#[test]
fn new_and_touched_users() {
    let u = new_user("alice", Some("node1"), "hash".to_string(), 50);
    assert_eq!(u.user_level, 1);
    assert_eq!(u.node_id.as_deref(), Some("node1"));
    assert_eq!(u.first_login, 50);
    let t = touch_user(None, "bob", "n2", 70);
    assert_eq!(t.username, "bob");
    assert_eq!(t.node_id.as_deref(), Some("n2"));
    assert_eq!(t.password_hash, None);
    let b = bind_node(user("carol", 5), "n3", 90);
    assert_eq!(b.node_id.as_deref(), Some("n3"));
    assert_eq!(b.last_login, 90);
    let again = bind_node(b, "n4", 95);
    assert_eq!(again.node_id.as_deref(), Some("n3"));
    let kept = touch_user(Some(user("dave", 7)), "dave", "n5", 100);
    assert_eq!(kept.user_level, 7);
    assert_eq!(kept.total_messages, 3);
}

#[test]
fn level_changes() {
    assert_eq!(change_level(Some(user("a", 1)), "a", 0, 5).unwrap_err(), "Invalid level");
    assert_eq!(change_level(None, "a", 5, 5).unwrap_err(), "User not found");
    assert_eq!(change_level(Some(user("sysop", 10)), "sysop", 5, 5).unwrap_err(), "Cannot modify sysop level");
    let ok = change_level(Some(user("bob", 1)), "bob", 5, 9).unwrap();
    assert_eq!(ok.user_level, 5);
    assert_eq!(ok.last_login, 9);
}

#[test]
fn posting_rules() {
    assert_eq!(check_post(true, None, Some(10)), Err("Area locked".to_string()));
    assert_eq!(check_post(false, Some((1, 5)), Some(3)), Err("Insufficient level to post".to_string()));
    assert_eq!(check_post(false, Some((1, 5)), None), Err("Insufficient level to post".to_string()));
    assert_eq!(check_post(false, Some((1, 5)), Some(5)), Ok(()));
    assert_eq!(check_post(false, None, None), Ok(()));
    let m = compose_message("general", "alice", "hello", 77, false, None, Some(1)).unwrap();
    assert_eq!(m.area, "general");
    assert_eq!(m.timestamp, 77);
    assert!(!m.id.is_empty());
    let other = compose_message("general", "alice", "hello", 77, false, None, Some(1)).unwrap();
    assert_ne!(m.id, other.id);
    assert!(compose_message("general", "alice", "x", 1, true, None, None).is_err());
}

#[test]
fn audit_pages_newest_first() {
    let entries = vec![1, 2, 3, 4, 5];
    assert_eq!(audit_page(entries.clone(), 1, 2), vec![5, 4]);
    assert_eq!(audit_page(entries.clone(), 3, 2), vec![1]);
    assert_eq!(audit_page(entries.clone(), 4, 2), Vec::<i32>::new());
    assert_eq!(audit_page(entries, 0, 2), Vec::<i32>::new());
}

#[test]
fn messages_sorted_newest_first_stably() {
    let mut v = vec![msg("a", 1), msg("b", 3), msg("c", 2), msg("d", 3)];
    sort_newest_first(&mut v);
    let ids: Vec<&str> = v.iter().map(|m| m.id.as_str()).collect();
    assert_eq!(ids, vec!["b", "d", "c", "a"]);
    let recent = recent_messages(vec![msg("a", 1), msg("b", 3), msg("c", 2)], 2);
    let ids: Vec<&str> = recent.iter().map(|m| m.id.as_str()).collect();
    assert_eq!(ids, vec!["b", "c"]);
}

#[test]
fn retention_cutoff() {
    let day = 86_400_000;
    assert!(past_retention(0, 2 * day, 1));
    assert!(!past_retention(day, 2 * day, 1));
}

#[test]
fn area_locks_and_levels() {
    let mut r = AreaRules::new();
    assert!(!r.is_area_locked("general"));
    r.lock_area("general");
    r.lock_area("general");
    assert!(r.is_area_locked("general"));
    assert_eq!(r.locked_areas.len(), 1);
    r.unlock_area("general");
    assert!(!r.is_area_locked("general"));
    r.set_area_levels(vec![("ops".to_string(), (5, 10))]);
    assert_eq!(r.get_area_levels("ops"), Some((5, 10)));
    assert_eq!(r.get_area_levels("general"), None);
}

#[test]
fn deletion_entries() {
    let e = deletion_entry("general", "id1", "mod", 12);
    assert_eq!((e.timestamp, e.area.as_str(), e.id.as_str(), e.actor.as_str()), (12, "general", "id1", "mod"));
}

#[test]
fn sysop_is_seeded_from_the_configured_hash() {
    let created = seed_sysop(None, "sysop", "$argon2id$h", 42).unwrap();
    assert_eq!(created.username, "sysop");
    assert_eq!(created.user_level, 10);
    assert_eq!(created.password_hash.as_deref(), Some("$argon2id$h"));
    assert_eq!((created.first_login, created.last_login, created.total_messages), (42, 42, 0));
    assert!(seed_sysop(Some(created.clone()), "sysop", "$argon2id$h", 99).is_none());
    let mut demoted = created.clone();
    demoted.user_level = 5;
    demoted.total_messages = 7;
    let fixed = seed_sysop(Some(demoted), "sysop", "$argon2id$h", 99).unwrap();
    assert_eq!((fixed.user_level, fixed.total_messages, fixed.first_login), (10, 7, 42));
    let rehashed = seed_sysop(Some(created), "sysop", "$argon2id$new", 99).unwrap();
    assert_eq!(rehashed.password_hash.as_deref(), Some("$argon2id$new"));
    assert_eq!(rehashed.user_level, 10);
}

#[test]
fn composed_messages_get_uuid_ids() {
    let m = compose_message("general", "alice", "hi", 5, false, None, Some(1)).unwrap();
    let id: Vec<char> = m.id.chars().collect();
    assert_eq!(id.len(), 36);
    assert_eq!((id[8], id[13], id[18], id[23]), ('-', '-', '-', '-'));
    assert_eq!(id[14], '4');
    assert!(matches!(id[19], '8' | '9' | 'a' | 'b'));
}
