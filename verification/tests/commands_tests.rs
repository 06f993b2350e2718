use meshbbs::commands::{
    kick_reply, syslog_reply, user_list_reply, user_menu_text, CommandProcessor, InlineCommand, MainMenuAction,
    SyslogLevel,
};
use meshbbs::session::{Session, SessionState};
use meshbbs::storage::User;

fn reply_text(a: MainMenuAction) -> String {
    match a {
        MainMenuAction::Reply(t) => t,
        other => panic!("unexpected {:?}", other),
    }
}

#[test]
fn main_menu_navigation() {
    let p = CommandProcessor::new();
    assert!(matches!(p.handle_main_menu("M", true, 1), MainMenuAction::Topics));
    assert!(matches!(p.handle_main_menu("MESSAGES", true, 1), MainMenuAction::Topics));
    assert!(matches!(p.handle_main_menu("USER", true, 1), MainMenuAction::UserMenu));
    assert!(matches!(p.handle_main_menu("BYE", true, 1), MainMenuAction::Quit));
    assert_eq!(reply_text(p.handle_main_menu("?", false, 0)), "AUTH: REGISTER <u> <p> | LOGIN <u> <p>\n");
    let help = reply_text(p.handle_main_menu("HELP", true, 10));
    assert!(help.len() <= 230);
    assert!(help.starts_with("ACCT: SETPASS <new>"));
    assert_eq!(help, p.compact_help(true, 10));
}

#[test]
fn moderator_commands_need_level() {
    let p = CommandProcessor::new();
    assert_eq!(reply_text(p.handle_main_menu("WHO", true, 4)), "Permission denied.\n");
    assert_eq!(
        reply_text(p.handle_main_menu("WHO", true, 5)),
        "Logged In Users:\nNone (session info not available in this context)\n"
    );
    match p.handle_main_menu("USERS AL", true, 5) {
        MainMenuAction::ListUsers { pattern } => assert_eq!(pattern.as_deref(), Some("al")),
        other => panic!("unexpected {:?}", other),
    }
    assert!(matches!(p.handle_main_menu("USERS", true, 5), MainMenuAction::ListUsers { pattern: None }));
    assert_eq!(reply_text(p.handle_main_menu("KICK", true, 5)), "Usage: KICK <username>\n");
    match p.handle_main_menu("KICK BOB", true, 5) {
        MainMenuAction::Kick { username } => assert_eq!(username, "BOB"),
        other => panic!("unexpected {:?}", other),
    }
    match p.handle_main_menu("USERINFO CAROL", true, 7) {
        MainMenuAction::UserInfo { username } => assert_eq!(username, "CAROL"),
        other => panic!("unexpected {:?}", other),
    }
    match p.handle_main_menu("BROADCAST   HELLO ALL ", true, 5) {
        MainMenuAction::Broadcast { message } => assert_eq!(message, "HELLO ALL"),
        other => panic!("unexpected {:?}", other),
    }
    assert_eq!(reply_text(p.handle_main_menu("BROADCAST", true, 5)), "Usage: BROADCAST <message>\n");
    assert!(matches!(p.handle_main_menu("DASHBOARD", true, 5), MainMenuAction::Dashboard));
    assert_eq!(reply_text(p.handle_main_menu("ADMIN", true, 1)), "Permission denied.\n");
}

#[test]
fn syslog_is_for_sysops() {
    let p = CommandProcessor::new();
    assert_eq!(reply_text(p.handle_main_menu("SYSLOG INFO hi", true, 5)), "Permission denied.\n");
    match p.handle_main_menu("SYSLOG WARN disk  almost full ", true, 10) {
        MainMenuAction::Syslog { level, message } => {
            assert_eq!(level, SyslogLevel::Warn);
            assert_eq!(message, "disk  almost full");
        }
        other => panic!("unexpected {:?}", other),
    }
    let usage = "Usage: SYSLOG <INFO|WARN|ERROR> <message>\n";
    assert_eq!(reply_text(p.handle_main_menu("SYSLOG", true, 10)), usage);
    assert_eq!(reply_text(p.handle_main_menu("SYSLOG INFO", true, 10)), usage);
    assert_eq!(reply_text(p.handle_main_menu("SYSLOG DEBUG x", true, 10)), usage);
    assert_eq!(syslog_reply(SyslogLevel::Error), "Logged ERROR.\n");
}

#[test]
fn unknown_commands_are_quoted_back() {
    let p = CommandProcessor::new();
    assert_eq!(reply_text(p.handle_main_menu("FOO", true, 1)), "Invalid command \"FOO\"\n");
    let long = "X".repeat(300);
    let r = reply_text(p.handle_main_menu(&long, true, 1));
    assert_eq!(r, format!("Invalid command \"{}…\"\n", "X".repeat(210)));
    assert!(r.len() <= 233);
}

#[test]
fn replies_of_the_menus() {
    assert_eq!(kick_reply("bob", true), "bob has been kicked (action deferred)\n");
    assert_eq!(kick_reply("b/b", false), "Invalid username specified.\n");
    assert_eq!(
        user_menu_text("alice", 5, 1_706_702_400_000),
        "User Menu:\nUsername: alice\nLevel: 5\nLogin time: 2024-01-31 12:00 UTC\n[I]nfo [S]tats [B]ack\n"
    );
    assert_eq!(
        user_menu_text("bob", 0, 86_400_000 + 61_000),
        "User Menu:\nUsername: bob\nLevel: 0\nLogin time: 1970-01-02 00:01 UTC\n[I]nfo [S]tats [B]ack\n"
    );
    let users = vec![
        User { username: "Alice".into(), node_id: None, user_level: 10, password_hash: None, first_login: 0, last_login: 0, total_messages: 0 },
        User { username: "bob".into(), node_id: None, user_level: 1, password_hash: None, first_login: 0, last_login: 0, total_messages: 0 },
    ];
    assert_eq!(
        user_list_reply(None, &users),
        "Registered Users (2):\n  Alice (Sysop, Level 10)\n  bob (User, Level 1)\n"
    );
    assert_eq!(user_list_reply(Some("al"), &users), "Users matching 'al' (1 found):\n  Alice (Sysop, Level 10)\n");
}

#[test]
fn first_connection_opens_main_menu() {
    let p = CommandProcessor::new();
    let mut s = Session::new_at("s".into(), "!abcd".into(), 0);
    let r = p.handle_initial_connection(&mut s, "MeshBBS");
    assert_eq!(s.state, SessionState::MainMenu);
    assert_eq!(
        r,
        "[MeshBBS]\nNode: !abcd\nAuth: REGISTER <user> <pass> or LOGIN <user> [pass]\nType HELP for commands\nMain Menu:\n[M]essages [U]ser [Q]uit\n"
    );
}

#[test]
fn inline_commands() {
    let p = CommandProcessor::new();
    assert!(matches!(p.try_inline_message_command("w", "W", None), Some(InlineCommand::Where)));
    match p.try_inline_message_command("read tech", "READ TECH", None) {
        Some(InlineCommand::Read { topic }) => assert_eq!(topic, "tech"),
        other => panic!("unexpected {:?}", other),
    }
    match p.try_inline_message_command("READ", "READ", None) {
        Some(InlineCommand::Read { topic }) => assert_eq!(topic, "general"),
        other => panic!("unexpected {:?}", other),
    }
    match p.try_inline_message_command("POST tech hello there", "POST TECH HELLO THERE", None) {
        Some(InlineCommand::Post { topic, text }) => assert_eq!((topic.as_str(), text.as_str()), ("tech", "hello there")),
        other => panic!("unexpected {:?}", other),
    }
    match p.try_inline_message_command("POST hello", "POST HELLO", Some("news")) {
        Some(InlineCommand::Post { topic, text }) => assert_eq!((topic.as_str(), text.as_str()), ("news", "hello")),
        other => panic!("unexpected {:?}", other),
    }
    assert!(matches!(p.try_inline_message_command("POST ", "POST ", None), Some(InlineCommand::PostUsage)));
    assert!(matches!(p.try_inline_message_command("list", "LIST", None), Some(InlineCommand::Topics)));
    assert!(p.try_inline_message_command("hello", "HELLO", None).is_none());
}
