use meshbbs::replies::{
    build_banner, BannerState, chunk_verbose_help, format_unread_line, pack_lines, prepare_login_banner, sanitize_weather,
    split_lines, FRAME_TEXT_MAX, VERBOSE_HELP,
};

#[test]
fn lines_split_like_str_lines() {
    assert_eq!(split_lines("a\r\nb\n\nc"), vec!["a", "b", "", "c"]);
    assert_eq!(split_lines("x\n"), vec!["x"]);
    assert!(split_lines("").is_empty());
}

#[test]
fn packing_keeps_whole_lines() {
    let lines: Vec<String> = vec!["aaaa".into(), "bbbb".into(), "cc".into()];
    assert_eq!(pack_lines(&lines, 10), vec!["aaaa\nbbbb\n", "cc\n"]);
    assert_eq!(pack_lines(&lines, 5), vec!["aaaa\n", "bbbb\n", "cc\n"]);
    let long: Vec<String> = vec!["0123456789".into()];
    assert_eq!(pack_lines(&long, 4), vec!["0123456789\n"]);
}

#[test]
fn verbose_help_frames_fit_and_rejoin() {
    let frames = chunk_verbose_help();
    assert!(frames.len() > 1);
    for f in &frames {
        assert!(f.len() <= FRAME_TEXT_MAX);
        assert!(!f.is_empty());
    }
    let joined: String = frames.concat();
    let expected: String = VERBOSE_HELP.lines().map(|l| format!("{}\n", l)).collect();
    assert_eq!(joined, expected);
}

#[test]
fn unread_lines() {
    assert_eq!(format_unread_line(0), "There are no new messages.\n");
    assert_eq!(format_unread_line(1), "1 new message since your last login.\n");
    assert_eq!(format_unread_line(12), "12 new messages since your last login.\n");
}

#[test]
fn banners() {
    assert_eq!(build_banner("Welcome!", "A test BBS"), "Welcome!\nA test BBS\n");
    assert_eq!(build_banner("Hi", "desc\n"), "Hi\ndesc\n");
    let long = "é".repeat(200);
    let b = build_banner(&long, "");
    assert_eq!(b, format!("{}\n", "é".repeat(115)));
    let odd = format!("x{}", "é".repeat(200));
    let b = build_banner(&odd, "");
    assert_eq!(b, format!("x{}\u{FFFD}\n", "é".repeat(114)));
    assert_eq!(prepare_login_banner("Hi", "d", 0), "Hi\nd\n");
    assert_eq!(prepare_login_banner("Hi", "d", 3), "Hi\nd\n3 new messages since your last login.\n");
    assert_eq!(prepare_login_banner("Hi", "d", 1), "Hi\nd\n1 new message since your last login.\n");
}

#[test]
fn weather_is_sanitized() {
    assert_eq!(sanitize_weather("  Sunny +20°C  \nmore"), "Weather: Sunny +20C");
    assert_eq!(sanitize_weather("\n"), "Weather unavailable");
    assert_eq!(sanitize_weather("\u{1}\u{7f}"), "Weather unavailable");
}

#[test]
fn login_banner_is_remembered_without_unread_line() {
    let mut s = BannerState::new("Welcome!".to_string(), "A test BBS".to_string());
    assert!(s.last_banner().is_none());
    let b = s.prepare_login_banner(1);
    assert_eq!(b, "Welcome!\nA test BBS\n1 new message since your last login.\n");
    assert_eq!(s.last_banner(), Some(&"Welcome!\nA test BBS\n".to_string()));
    let b = s.prepare_login_banner(0);
    assert_eq!(b, "Welcome!\nA test BBS\n");
    assert_eq!(s.last_banner(), Some(&"Welcome!\nA test BBS\n".to_string()));
}
