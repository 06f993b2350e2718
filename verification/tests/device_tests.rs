use meshbbs::device::{MeshtasticDevice, NodeInfo, NodeUser};
use meshbbs::nodes::NodeCache;

const T0: i64 = 1_700_000_000_000;

#[test]
fn fresh_device_knows_nothing() {
    let d = MeshtasticDevice::new_at("/dev/ttyUSB0", 115200, T0);
    assert_eq!(d.port_name, "/dev/ttyUSB0");
    assert_eq!(d.baud_rate, 115200);
    assert_eq!(d.cache_file_path, "data/node_cache.json");
    assert!(!d.initial_sync_complete());
    assert_eq!(d.node_count(), 0);
    assert_eq!(d.our_node_id(), None);
    assert_eq!(d.config_request_id_hex(), None);
    assert_eq!(d.format_node_label(0x12345678), "0x345678");
    assert_eq!(d.format_node_short_label(0xAB), "0x0000AB");
}

#[test]
fn handshake_lines_complete_the_sync() {
    let mut d = MeshtasticDevice::new_at("p", 9600, T0);
    assert_eq!(d.ensure_want_config_at(1_000, 0xdeadbeef), Some(0xdeadbeef));
    assert_eq!(d.config_request_id_hex(), Some("0xdeadbeef".to_string()));
    assert!(!d.update_state_from_summary_at("MYINFO:42", T0));
    assert!(d.have_my_info());
    assert_eq!(d.our_node_id(), Some(42));
    assert!(!d.update_state_from_summary_at("CONFIG", T0));
    assert!(d.have_radio_config());
    assert!(!d.update_state_from_summary_at("MODULE_CONFIG", T0));
    assert!(d.have_module_config());
    d.update_state_from_summary_at("CONFIG_COMPLETE:7", T0);
    assert!(!d.is_config_complete());
    d.update_state_from_summary_at(&format!("CONFIG_COMPLETE:{}", 0xdeadbeefu32), T0);
    assert!(d.is_config_complete());
    assert!(d.initial_sync_complete());
    assert_eq!(d.ensure_want_config_at(60_000, 5), None);
}

#[test]
fn node_lines_fill_table_and_cache() {
    let mut d = MeshtasticDevice::new_at("p", 9600, T0);
    assert!(d.update_state_from_summary_at("NODE:305419896:Alice Base:AB", T0 + 5));
    assert_eq!(d.format_node_label(305419896), "Alice Base");
    assert_eq!(d.format_node_short_label(305419896), "AB");
    assert_eq!(d.node_cache.nodes[&305419896].last_seen, T0 + 5);
    assert!(d.update_state_from_summary_at("NODE:7:bravo", T0 + 6));
    assert_eq!(d.format_node_combined(7), ("BRAV".to_string(), "bravo".to_string()));
    assert!(d.update_state_from_summary_at("NODE:9", T0 + 7));
    assert!(d.nodes[&9].user.is_none());
    assert_eq!(d.format_node_label(9), "0x000009");
    assert_eq!(d.node_cache.nodes[&9].short_name, "0009");
    assert!(!d.update_state_from_summary_at("NODE:x:y", T0));
    assert_eq!(d.node_count(), 3);
}

#[test]
fn want_config_is_resent_after_seven_seconds() {
    let mut d = MeshtasticDevice::new_at("p", 9600, T0);
    assert_eq!(d.ensure_want_config_at(10_000, 0), Some(1));
    assert_eq!(d.ensure_want_config_at(17_000, 99), None);
    assert_eq!(d.ensure_want_config_at(17_001, 99), Some(1));
    assert_eq!(d.last_want_config_sent, Some(17_001));
    assert_eq!(d.config_request_id, Some(1));
}

#[test]
fn stale_nodes_are_cleaned() {
    let mut d = MeshtasticDevice::new_at("p", 9600, T0);
    d.update_state_from_summary_at("NODE:1:old", T0);
    d.update_state_from_summary_at("NODE:2:new", T0 + 10 * 86_400_000);
    assert_eq!(d.cleanup_stale_nodes_at(7, T0 + 10 * 86_400_000), 1);
    assert!(!d.node_cache.nodes.contains_key(&1));
    assert!(d.node_cache.nodes.contains_key(&2));
    assert_eq!(d.node_count(), 2);
}

#[test]
fn cached_nodes_complete_the_table() {
    let mut d = MeshtasticDevice::new_at("p", 9600, T0);
    d.nodes.insert(1, NodeInfo { num: 1, user: Some(NodeUser { long_name: "live".into(), short_name: "LV".into() }) });
    let mut cache = NodeCache::new_at(T0);
    cache.update_node_at(1, "stale".into(), "ST".into(), T0);
    cache.update_node_at(2, "cached".into(), "CA".into(), T0);
    d.load_node_cache(Some(cache));
    assert_eq!(d.format_node_label(1), "live");
    assert_eq!(d.format_node_label(2), "cached");
    assert_eq!(d.format_node_short_label(2), "CA");
    assert_eq!(d.node_cache.nodes.len(), 2);
    d.load_node_cache(None);
    assert_eq!(d.node_count(), 2);
}
