use meshbbs::public::{PublicCommand, PublicCommandParser, PublicState};

#[test]
fn parses_help_and_login() {
    let p = PublicCommandParser::new();
    assert_eq!(p.parse("^HELP"), PublicCommand::Help);
    assert_eq!(p.parse("  ^help "), PublicCommand::Help);
    assert_eq!(p.parse("^?"), PublicCommand::Help);
    assert_eq!(p.parse("^LOGIN alice"), PublicCommand::Login("alice".to_string()));
    assert_eq!(p.parse("^login   bob  "), PublicCommand::Login("bob".to_string()));
}

#[test]
fn login_without_name_is_invalid() {
    let p = PublicCommandParser::new();
    assert_eq!(p.parse("^LOGIN"), PublicCommand::Invalid("Username required".to_string()));
    assert_eq!(p.parse("^LOGIN    "), PublicCommand::Invalid("Username required".to_string()));
}

#[test]
fn other_lines_are_unknown() {
    let p = PublicCommandParser::new();
    assert_eq!(p.parse("hello"), PublicCommand::Unknown);
    assert_eq!(p.parse("^LOGINX"), PublicCommand::Unknown);
    assert_eq!(p.parse("^WEATHER"), PublicCommand::Unknown);
    assert_eq!(p.parse(""), PublicCommand::Unknown);
}

#[test]
fn pending_login_is_taken_back_once() {
    let mut s = PublicState::new(30_000, 60_000);
    s.set_pending_at("node1", "alice".to_string(), 1_000);
    assert_eq!(s.take_pending("node1"), Some("alice".to_string()));
    assert_eq!(s.take_pending("node1"), None);
}

#[test]
fn newer_pending_login_replaces_older() {
    let mut s = PublicState::new(30_000, 60_000);
    s.set_pending_at("node1", "alice".to_string(), 1_000);
    s.set_pending_at("node1", "bob".to_string(), 2_000);
    assert_eq!(s.pending.len(), 1);
    assert_eq!(s.take_pending("node1"), Some("bob".to_string()));
}

#[test]
fn expired_logins_are_pruned() {
    let mut s = PublicState::new(30_000, 60_000);
    s.set_pending_at("old", "alice".to_string(), 0);
    s.set_pending_at("new", "bob".to_string(), 50_000);
    s.prune_expired_at(60_000);
    assert_eq!(s.take_pending("old"), None);
    assert_eq!(s.take_pending("new"), Some("bob".to_string()));
}

#[test]
fn replies_respect_the_cooldown() {
    let mut s = PublicState::new(30_000, 60_000);
    assert!(s.should_reply_at("n", 1_000));
    assert!(!s.should_reply_at("n", 20_000));
    assert!(s.should_reply_at("other", 20_000));
    assert!(s.should_reply_at("n", 31_000));
    assert!(!s.should_reply_at("n", 40_000));
}

#[test]
fn replies_now_respect_the_cooldown() {
    let mut s = PublicState::new(30_000, 60_000);
    assert!(s.should_reply("n"));
    assert!(!s.should_reply("n"));
    assert!(s.should_reply("m"));
}

#[test]
fn pending_login_made_now_is_kept_by_pruning() {
    let mut s = PublicState::new(30_000, 60_000);
    s.set_pending("node1", "alice".to_string());
    s.prune_expired();
    assert_eq!(s.take_pending("node1"), Some("alice".to_string()));
}
