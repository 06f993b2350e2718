use meshbbs::dashboard::{
    category_counts, count_user_roles, level_to_role, select_users, sort_most_messages_first, system_stats,
    topic_stats, topic_summaries,
    user_record,
    TopicMessageCount, UserListQuery,
};
use meshbbs::eightball::EightballResponse;
use meshbbs::storage::{Message, User};

fn user(name: &str, level: u8, with_password: bool) -> User {
    User {
        username: name.to_string(),
        node_id: Some("n".to_string()),
        user_level: level,
        password_hash: if with_password { Some("h".to_string()) } else { None },
        first_login: 0,
        last_login: 0,
        total_messages: 4,
    }
}

#[test]
fn web_roles() {
    assert_eq!(level_to_role(10), "Sysop");
    assert_eq!(level_to_role(6), "Admin");
    assert_eq!(level_to_role(9), "Admin");
    assert_eq!(level_to_role(3), "Moderator");
    assert_eq!(level_to_role(2), "User");
}

#[test]
fn user_records_and_pages() {
    let r = user_record(&user("alice", 5, true), "L".to_string(), "C".to_string());
    assert_eq!(r.username, "alice");
    assert_eq!(r.role, "Moderator");
    assert!(r.has_password);
    assert_eq!(r.message_count, 4);
    let records: Vec<_> = [1u8, 5, 10, 3, 7]
        .iter()
        .enumerate()
        .map(|(i, l)| user_record(&user(&format!("u{}", i), *l, false), String::new(), String::new()))
        .collect();
    let q = UserListQuery { min_level: Some(3), max_level: Some(9), limit: Some(2), offset: Some(1) };
    let page = select_users(records.clone(), &q);
    let names: Vec<&str> = page.iter().map(|r| r.username.as_str()).collect();
    assert_eq!(names, vec!["u3", "u4"]);
    let all = UserListQuery { min_level: None, max_level: None, limit: None, offset: None };
    assert_eq!(select_users(records.clone(), &all).len(), 5);
    let past = UserListQuery { min_level: None, max_level: None, limit: None, offset: Some(9) };
    assert!(select_users(records, &past).is_empty());
}

#[test]
fn role_counts() {
    let users = vec![user("a", 10, true), user("b", 7, true), user("c", 4, false), user("d", 1, false), user("e", 2, true)];
    let c = count_user_roles(&users);
    assert_eq!(
        (c.total_users, c.users_with_passwords, c.sysops, c.admins, c.moderators, c.regular_users),
        (5, 3, 1, 1, 1, 2)
    );
}

#[test]
fn eightball_category_counts() {
    let rs = vec![
        EightballResponse { text: "Yes".into(), category: "positive".into() },
        EightballResponse { text: "Maybe".into(), category: "neutral".into() },
        EightballResponse { text: "Sure".into(), category: "positive".into() },
        EightballResponse { text: "Odd".into(), category: "weird".into() },
    ];
    let c = category_counts(&rs);
    assert_eq!((c.positive, c.neutral, c.negative), (2, 1, 0));
}

fn post(author: &str, replies: usize) -> Message {
    Message {
        id: format!("{}-{}", author, replies),
        area: "general".to_string(),
        author: author.to_string(),
        content: "hi".to_string(),
        timestamp: 0,
        replies: (0..replies).map(|i| format!("r{}", i)).collect(),
    }
}

#[test]
fn system_stats_counts_topics_and_authors() {
    let users = vec![
        User { username: "sys".into(), node_id: None, user_level: 10, password_hash: Some("h".into()), first_login: 0, last_login: 0, total_messages: 0 },
        User { username: "mod".into(), node_id: None, user_level: 4, password_hash: None, first_login: 0, last_login: 0, total_messages: 0 },
        User { username: "joe".into(), node_id: None, user_level: 1, password_hash: None, first_login: 0, last_login: 0, total_messages: 0 },
    ];
    let topics = vec![
        ("general".to_string(), vec![post("alice", 2)]),
        ("tech".to_string(), vec![post("bob", 0), post("alice", 1), post("carol", 0)]),
        ("empty".to_string(), vec![]),
        ("misc".to_string(), vec![post("bob", 0)]),
    ];
    let s = system_stats(&users, &topics, "Test BBS", "Somewhere");
    assert_eq!(s.total_users, 3);
    assert_eq!(s.users_with_passwords, 1);
    assert_eq!((s.sysops, s.admins, s.moderators, s.regular_users), (1, 0, 1, 1));
    assert_eq!(s.total_topics, 4);
    assert_eq!(s.total_messages, 5);
    assert_eq!(s.total_replies, 3);
    assert_eq!(s.unique_message_authors, 3);
    let order: Vec<(String, usize)> = s.messages_per_topic.iter().map(|t| (t.topic.clone(), t.count)).collect();
    assert_eq!(
        order,
        vec![("tech".to_string(), 3), ("general".to_string(), 1), ("misc".to_string(), 1), ("empty".to_string(), 0)]
    );
    assert_eq!(s.bbs_name, "Test BBS");
    assert_eq!(s.uptime_seconds, 0);
}

#[test]
fn topic_counts_sort_most_first() {
    let mut v = vec![
        TopicMessageCount { topic: "a".into(), count: 1 },
        TopicMessageCount { topic: "b".into(), count: 5 },
        TopicMessageCount { topic: "c".into(), count: 1 },
    ];
    sort_most_messages_first(&mut v);
    let names: Vec<&str> = v.iter().map(|t| t.topic.as_str()).collect();
    assert_eq!(names, vec!["b", "a", "c"]);
}

#[test]
fn topic_stats_lists_authors_once_in_order() {
    let mut first = post("zed", 1);
    first.timestamp = 1_706_702_400_000;
    let mut last = post("alice", 2);
    last.timestamp = 1_706_702_400_500;
    let msgs = vec![first, post("bob", 0), post("alice", 0), post("Bob", 0), last];
    let s = topic_stats(&msgs);
    assert_eq!(s.total_messages, 5);
    assert_eq!(s.total_replies, 3);
    assert_eq!(s.authors, vec!["Bob".to_string(), "alice".to_string(), "bob".to_string(), "zed".to_string()]);
    assert_eq!(s.first_message, Some("2024-01-31T12:00:00+00:00".to_string()));
    assert_eq!(s.last_message, Some("2024-01-31T12:00:00.500+00:00".to_string()));
    let empty = topic_stats(&vec![]);
    assert_eq!((empty.total_messages, empty.total_replies), (0, 0));
    assert!(empty.authors.is_empty() && empty.first_message.is_none() && empty.last_message.is_none());
}

#[test]
fn topic_list_runs_latest_first() {
    let mut old = post("a", 0);
    old.timestamp = 1_600_000_000_000;
    let mut new = post("b", 0);
    new.timestamp = 1_700_000_000_000;
    let topics = vec![
        ("quiet".to_string(), vec![]),
        ("old".to_string(), vec![post("x", 0), old]),
        ("new".to_string(), vec![new]),
    ];
    let list = topic_summaries(&topics);
    let names: Vec<&str> = list.iter().map(|t| t.name.as_str()).collect();
    assert_eq!(names, vec!["new", "old", "quiet"]);
    assert_eq!(list[0].last_message_time, Some("2023-11-14T22:13:20+00:00".to_string()));
    assert_eq!(list[1].message_count, 2);
    assert_eq!(list[2].last_message_time, None);
}

#[test]
fn topic_stats_time_range_starts_at_chronos_first_day() {
    let mut m = post("zed", 0);
    m.timestamp = meshbbs::clock::MIN_MILLIS;
    let s = topic_stats(&vec![m]);
    assert!(s.first_message.is_some());
    let mut m = post("zed", 0);
    m.timestamp = meshbbs::clock::MIN_MILLIS - 1;
    let s = topic_stats(&vec![m]);
    assert!(s.first_message.is_none());
    let mut m = post("zed", 0);
    m.timestamp = meshbbs::clock::MAX_MILLIS;
    assert!(topic_stats(&vec![m]).first_message.is_some());
    let mut m = post("zed", 0);
    m.timestamp = meshbbs::clock::MAX_MILLIS + 1;
    assert!(topic_stats(&vec![m]).first_message.is_none());
}
