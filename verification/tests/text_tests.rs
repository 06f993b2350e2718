use meshbbs::clock::now_millis_u64;
use meshbbs::session::Session;
use meshbbs::text::{
    contains, eq_ignore_ascii_case, find, join_path, parse_u32, split_char, split_whitespace, starts_with, str_eq,
    to_ascii_lowercase, trim, u64_to_decimal,
};
use meshbbs::ui::{list_1_to_5, topics_page, utf8_prefix, utf8_truncate};

#[test]
fn string_helpers() {
    assert_eq!(trim("  a b \n"), "a b");
    assert!(str_eq("abc", "abc") && !str_eq("abc", "abd"));
    assert!(eq_ignore_ascii_case("HeLLo", "hello"));
    assert!(starts_with("NODE:1", "NODE:") && !starts_with("NO", "NODE:"));
    assert_eq!(find("a=b=c", "="), Some(1));
    assert_eq!(find("abc", "x"), None);
    assert!(contains("hello world", "o w"));
    assert_eq!(parse_u32("+42"), Some(42));
    assert_eq!(parse_u32("4294967296"), None);
    assert_eq!(parse_u32(""), None);
    assert_eq!(u64_to_decimal(0), "0");
    assert_eq!(u64_to_decimal(18446744073709551615), "18446744073709551615");
    assert_eq!(join_path("data", "x.json"), "data/x.json");
    assert_eq!(join_path("data/", "x.json"), "data/x.json");
    assert_eq!(split_whitespace("  a  b\tc "), vec!["a", "b", "c"]);
    assert_eq!(split_char("a::b", ':'), vec!["a", "", "b"]);
    assert_eq!(to_ascii_lowercase("ÄBC"), "Äbc");
}

#[test]
fn frame_sized_rendering() {
    assert_eq!(utf8_truncate("hello", 10), "hello");
    assert_eq!(utf8_truncate("hello world", 5), "hello…");
    assert_eq!(utf8_truncate("éé", 3), "é…");
    assert_eq!(utf8_prefix("éé", 3), "é");
    let items: Vec<String> = (1..=7).map(|i| format!("{}. t{}", i, i)).collect();
    assert_eq!(list_1_to_5(&items), "1. t1  2. t2  3. t3  4. t4  5. t5");
    assert_eq!(topics_page("BBS", &items[..2], "footer"), "[BBS] Topics\n1. t1  2. t2\nfooter\n");
}

#[test]
fn clock_readings() {
    let before = chrono::Utc::now().timestamp_millis();
    let session = Session::new("s1".to_string(), "!abcd".to_string());
    let after = chrono::Utc::now().timestamp_millis();
    assert!(before <= session.login_time && session.login_time <= after);
    let ms = now_millis_u64() as i64;
    assert!(before <= ms && ms <= chrono::Utc::now().timestamp_millis());
}
