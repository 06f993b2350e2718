use meshbbs::nodes::{parse_node_summary, NodeCache};

#[test]
fn node_lines_are_parsed() {
    assert_eq!(
        parse_node_summary("NODE:1234:Alice Node:ALC"),
        Some((1234, "Alice Node".to_string(), "ALC".to_string()))
    );
    assert_eq!(parse_node_summary("NODE:1234:Alice Node: "), Some((1234, "Alice Node".to_string(), "ALIC".to_string())));
    assert_eq!(parse_node_summary("NODE:1234:bo"), Some((1234, "bo".to_string(), "BO".to_string())));
    assert_eq!(parse_node_summary("NODE:65535"), Some((65535, String::new(), "FFFF".to_string())));
    assert_eq!(parse_node_summary("NODE:abc:x:y"), None);
    assert_eq!(parse_node_summary("NOPE:1:x:y"), None);
    assert_eq!(parse_node_summary("NODE:"), None);
}

#[test]
fn cache_keeps_first_seen_and_drops_stale() {
    let day: i64 = 86_400_000;
    let mut c = NodeCache::new_at(0);
    c.update_node_at(1, "One".to_string(), "ONE".to_string(), day);
    c.update_node_at(2, "Two".to_string(), "TWO".to_string(), 5 * day);
    c.update_node_at(1, "Uno".to_string(), "UNO".to_string(), 2 * day);
    assert_eq!(c.nodes[&1].first_seen, day);
    assert_eq!(c.nodes[&1].last_seen, 2 * day);
    assert_eq!(c.nodes[&1].long_name, "Uno");
    assert_eq!(c.last_updated, 2 * day);
    let removed = c.remove_stale_nodes_at(3, 6 * day);
    assert_eq!(removed, 1);
    assert!(!c.nodes.contains_key(&1));
    assert!(c.nodes.contains_key(&2));
    assert_eq!(c.last_updated, 6 * day);
    assert_eq!(c.remove_stale_nodes_at(3, 6 * day), 0);
    assert_eq!(c.last_updated, 6 * day);
}

#[test]
fn update_node_stamps_the_current_time() {
    let mut cache = NodeCache::new_at(0);
    let before = chrono::Utc::now().timestamp_millis();
    cache.update_node(5, "Echo".to_string(), "EC".to_string());
    let after = chrono::Utc::now().timestamp_millis();
    let first = cache.nodes[&5].first_seen;
    assert!(before <= first && first <= after);
    assert_eq!(cache.nodes[&5].last_seen, first);
    assert_eq!(cache.last_updated, first);
    cache.update_node(5, "Echo 2".to_string(), "E2".to_string());
    assert_eq!(cache.nodes[&5].first_seen, first);
    assert_eq!(cache.nodes[&5].long_name, "Echo 2");
}
