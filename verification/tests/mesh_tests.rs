use meshbbs::mesh::{hex_snippet, node_label, parse_legacy_text, short_hex_label, text_to_event, WriterTuning};

#[test]
fn hex_snippet_limits_to_max_bytes() {
    assert_eq!(hex_snippet(&[0x00, 0xAB, 0x0F, 0xFF], 3), "00ab0f");
    assert_eq!(hex_snippet(&[0x01], 8), "01");
    assert_eq!(hex_snippet(&[], 8), "");
}

#[test]
fn legacy_text_is_parsed_into_node_and_text() {
    assert_eq!(parse_legacy_text("  FROM:1234 MSG:hello there "), Some("1234:hello there".to_string()));
    assert_eq!(parse_legacy_text("MSG:only"), None);
    assert_eq!(parse_legacy_text("FROM:55"), None);
}

#[test]
fn text_to_event_reads_numeric_source() {
    let ev = text_to_event("42:hi: there").unwrap();
    assert_eq!(ev.source, 42);
    assert_eq!(ev.content, "hi: there");
    assert_eq!(ev.dest, None);
    assert!(!ev.is_direct);
    assert_eq!(ev.channel, Some(0));
    assert!(text_to_event("abc:hi").is_none());
    assert!(text_to_event("no colon").is_none());
}

#[test]
fn short_hex_label_uses_low_24_bits() {
    assert_eq!(short_hex_label(0x12ABCDEF), "0xABCDEF");
    assert_eq!(short_hex_label(0x1), "0x000001");
}

#[test]
fn node_label_prefers_trimmed_name() {
    assert_eq!(node_label(0x10, Some("  Alice ")), "Alice");
    assert_eq!(node_label(0x10, Some("   ")), "0x000010");
    assert_eq!(node_label(0x10, None), "0x000010");
}

#[test]
fn writer_tuning_default_values() {
    let t = WriterTuning::default();
    assert_eq!(t.min_send_gap_ms, 2000);
    assert_eq!(t.dm_resend_backoff_seconds, vec![4, 8, 16]);
    assert_eq!(t.post_dm_broadcast_gap_ms, 1200);
    assert_eq!(t.dm_to_dm_gap_ms, 600);
}
