use meshbbs::fortune::{
    check_fortunes, check_fortunes_for_save, fortune_count, get_all_fortunes, initialize, is_available,
    random_fortune, reload, FortuneData, FortuneStatus, FortuneStore,
};

#[test]
fn load_fortunes_from_valid_file() {
    let data = FortuneData { fortunes: vec!["Test fortune 1".to_string(), "Test fortune 2".to_string()] };
    let result = check_fortunes("/tmp/d/fortunes.json", data);
    assert!(result.is_ok());
    assert_eq!(result.unwrap().len(), 2);
}

#[test]
fn load_fortunes_empty_array() {
    let data = FortuneData { fortunes: vec![] };
    let result = check_fortunes("/tmp/d/fortunes.json", data);
    assert!(result.is_err());
    assert!(result.unwrap_err().contains("contains no fortunes"));
}

#[test]
fn random_fortune_returns_some_when_loaded() {
    let mut store = FortuneStore::new();
    let status = initialize(&mut store, "fortunes.json", Ok(FortuneData { fortunes: vec!["Only fortune".to_string()] }));
    assert!(matches!(status, FortuneStatus::Ready(1)));
    let fortune = random_fortune(&store);
    assert!(fortune.is_some());
    assert_eq!(fortune.unwrap(), "Only fortune");
}

#[test]
fn first_load_wins() {
    let mut store = FortuneStore::new();
    let st = initialize(&mut store, "f.json", Err("Failed to read x".to_string()));
    assert!(matches!(st, FortuneStatus::Disabled(ref m) if m == "Failed to read x"));
    let st = initialize(&mut store, "f.json", Ok(FortuneData { fortunes: vec!["a".to_string()] }));
    assert!(matches!(st, FortuneStatus::Disabled(_)));
    assert!(!is_available(&store));
    assert_eq!(fortune_count(&store), 0);
    assert!(random_fortune(&store).is_none());
    assert!(get_all_fortunes(&store).is_none());
}

#[test]
fn counts_and_copies() {
    let mut store = FortuneStore::new();
    initialize(&mut store, "f.json", Ok(FortuneData { fortunes: vec!["a".to_string(), "b".to_string()] }));
    assert!(is_available(&store));
    assert_eq!(fortune_count(&store), 2);
    assert_eq!(get_all_fortunes(&store), Some(vec!["a".to_string(), "b".to_string()]));
    assert_eq!(reload("f.json", Ok(FortuneData { fortunes: vec!["x".to_string()] })), Ok(1));
    assert_eq!(reload("f.json", Ok(FortuneData { fortunes: vec![] })), Err("f.json contains no fortunes".to_string()));
    assert_eq!(reload("f.json", Err("bad".to_string())), Err("bad".to_string()));
    assert_eq!(fortune_count(&store), 2);
    assert_eq!(check_fortunes_for_save(&vec![]).unwrap_err(), "Cannot save empty fortune list");
    assert!(check_fortunes_for_save(&vec!["a".to_string()]).is_ok());
}

#[test]
fn fortune_stats_reports_expected_counts() {
    let mut store = meshbbs::fortune::FortuneStore::new();
    let fortunes: Vec<String> =
        vec!["One".into(), "Fortune two".into(), "3".into(), "four!".into(), "five".into(), "sixth one".into()];
    meshbbs::fortune::initialize(&mut store, "fortunes.json", Ok(FortuneData { fortunes }));
    let stats = meshbbs::fortune::compute_fortune_stats(&store);
    assert_eq!(stats.total, meshbbs::fortune::fortune_count(&store));
    assert!(stats.max_length > 0);
    assert!(!stats.sample.is_empty());
    assert!(stats.sample.len() <= 5);
    let average_length = stats.total_length as f32 / stats.total as f32;
    assert!(average_length > 0.0);
    assert_eq!((stats.max_length, stats.total_length), (11, 33));
    assert_eq!(stats.sample.len(), 5);
}

#[test]
fn fortune_stats_without_fortunes() {
    let store = meshbbs::fortune::FortuneStore::new();
    let stats = meshbbs::fortune::compute_fortune_stats(&store);
    assert!(!stats.available);
    assert_eq!((stats.total, stats.max_length, stats.total_length, stats.sample.len()), (0, 0, 0, 0));
}

#[test]
fn empty_fortune_file_disables_the_feature() {
    let mut store = FortuneStore::new();
    let st = initialize(&mut store, "/d/fortunes.json", Ok(FortuneData { fortunes: vec![] }));
    assert!(matches!(st, FortuneStatus::Disabled(ref m) if m == "/d/fortunes.json contains no fortunes"));
    assert!(!is_available(&store));
    assert_eq!(fortune_count(&store), 0);
}
