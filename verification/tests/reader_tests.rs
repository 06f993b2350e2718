use meshbbs::device::{NodeInfo, NodeUser};
use meshbbs::mesh::ControlMessage;
use meshbbs::reader::{classify_packet, DecodedPacket, RadioFrame, ReaderState};

fn packet(portnum: i32, payload: &[u8]) -> DecodedPacket {
    DecodedPacket {
        from: 0x1111,
        to: 0x2222,
        channel: 0,
        priority: 0,
        portnum,
        payload: payload.to_vec(),
        request_id: 0,
        reply_id: 0,
        routing_reason: None,
    }
}

#[test]
fn ack_packet_confirms_its_reply_id() {
    let mut p = packet(1, b"");
    p.priority = 120;
    p.reply_id = 77;
    let r = classify_packet(&p, None);
    assert_eq!(r.controls, vec![ControlMessage::AckReceived(77)]);
}

#[test]
fn ack_priority_without_reply_id_is_no_ack() {
    let mut p = packet(3, b"xyz");
    p.priority = 120;
    let r = classify_packet(&p, None);
    assert!(r.controls.is_empty());
    assert!(r.text.is_none());
}

#[test]
fn routing_ok_confirms_request_id_first() {
    let mut p = packet(5, b"");
    p.request_id = 10;
    p.reply_id = 20;
    p.routing_reason = Some(0);
    let r = classify_packet(&p, None);
    assert_eq!(r.controls, vec![ControlMessage::AckReceived(10)]);
}

#[test]
fn routing_ok_without_ids_sends_nothing() {
    let mut p = packet(5, b"");
    p.routing_reason = Some(0);
    let r = classify_packet(&p, None);
    assert!(r.controls.is_empty());
}

#[test]
fn routing_error_is_reported_with_reply_id() {
    let mut p = packet(5, b"");
    p.reply_id = 33;
    p.routing_reason = Some(3);
    let r = classify_packet(&p, None);
    assert_eq!(r.controls, vec![ControlMessage::RoutingError { id: 33, reason: 3 }]);
}

#[test]
fn ack_then_routing_error_in_order() {
    let mut p = packet(5, b"");
    p.priority = 120;
    p.reply_id = 42;
    p.routing_reason = Some(5);
    let r = classify_packet(&p, None);
    assert_eq!(
        r.controls,
        vec![ControlMessage::AckReceived(42), ControlMessage::RoutingError { id: 42, reason: 5 }]
    );
}

#[test]
fn routing_reason_on_other_port_is_ignored() {
    let mut p = packet(3, b"");
    p.reply_id = 33;
    p.routing_reason = Some(3);
    let r = classify_packet(&p, None);
    assert!(r.controls.is_empty());
}

#[test]
fn utf8_text_becomes_direct_event_for_our_node() {
    let p = packet(1, "héllo".as_bytes());
    let r = classify_packet(&p, Some(0x2222));
    let e = r.text.expect("text event");
    assert_eq!(e.content, "héllo");
    assert_eq!(e.source, 0x1111);
    assert_eq!(e.dest, Some(0x2222));
    assert!(e.is_direct);
    assert_eq!(e.channel, Some(0));
}

#[test]
fn text_to_another_node_is_not_direct() {
    let p = packet(1, b"hi");
    let r = classify_packet(&p, Some(0x3333));
    let e = r.text.expect("text event");
    assert!(!e.is_direct);
    let r = classify_packet(&p, None);
    assert!(!r.text.expect("text event").is_direct);
}

#[test]
fn text_to_zero_has_no_destination() {
    let mut p = packet(1, b"hi");
    p.to = 0;
    let r = classify_packet(&p, Some(0));
    let e = r.text.expect("text event");
    assert_eq!(e.dest, None);
    assert!(!e.is_direct);
}

#[test]
fn invalid_utf8_text_gives_no_event() {
    let p = packet(1, &[0x68, 0xff, 0x69]);
    assert!(classify_packet(&p, None).text.is_none());
}

#[test]
fn printable_compressed_text_becomes_event() {
    let p = packet(7, b"Hello World");
    let e = classify_packet(&p, None).text.expect("text event");
    assert_eq!(e.content, "Hello World");
}

#[test]
fn compressed_text_with_control_byte_gives_no_event() {
    let p = packet(7, b"line\n");
    assert!(classify_packet(&p, None).text.is_none());
    let p = packet(7, &[0x41, 0x80]);
    assert!(classify_packet(&p, None).text.is_none());
}

#[test]
fn other_ports_give_no_text() {
    let p = packet(3, b"position");
    let r = classify_packet(&p, None);
    assert!(r.text.is_none());
    assert!(r.controls.is_empty());
}

#[test]
fn first_my_info_sets_node_id_once() {
    let mut s = ReaderState::new_at(1_000);
    let r = s.process_frame_at(RadioFrame::MyInfo(0xabc), 2_000);
    assert_eq!(r.controls, vec![ControlMessage::SetNodeId(0xabc)]);
    assert_eq!(s.our_node_id, Some(0xabc));
    let r = s.process_frame_at(RadioFrame::MyInfo(0xdef), 3_000);
    assert!(r.controls.is_empty());
    assert_eq!(s.our_node_id, Some(0xabc));
}

#[test]
fn node_info_with_names_updates_table_and_cache() {
    let mut s = ReaderState::new_at(1_000);
    let n = NodeInfo {
        num: 0x55,
        user: Some(NodeUser { long_name: "Alpha Base".to_string(), short_name: "ALPH".to_string() }),
    };
    let r = s.process_frame_at(RadioFrame::NodeInfo(n), 5_000);
    assert!(r.cache_changed);
    assert!(s.nodes.contains_key(&0x55));
    let c = &s.node_cache.nodes[&0x55];
    assert_eq!(c.long_name, "Alpha Base");
    assert_eq!(c.short_name, "ALPH");
    assert_eq!(c.last_seen, 5_000);
    assert_eq!(c.first_seen, 5_000);
    assert_eq!(s.node_cache.last_updated, 5_000);
    let n = NodeInfo {
        num: 0x55,
        user: Some(NodeUser { long_name: "Alpha".to_string(), short_name: "A".to_string() }),
    };
    s.process_frame_at(RadioFrame::NodeInfo(n), 9_000);
    let c = &s.node_cache.nodes[&0x55];
    assert_eq!(c.long_name, "Alpha");
    assert_eq!(c.first_seen, 5_000);
    assert_eq!(c.last_seen, 9_000);
}

#[test]
fn node_info_without_names_is_ignored() {
    let mut s = ReaderState::new_at(1_000);
    let r = s.process_frame_at(RadioFrame::NodeInfo(NodeInfo { num: 7, user: None }), 5_000);
    assert!(!r.cache_changed);
    assert!(s.nodes.is_empty());
    assert!(s.node_cache.nodes.is_empty());
}

#[test]
fn packet_frame_uses_known_node_id() {
    let mut s = ReaderState::new_at(0);
    s.process_frame_at(RadioFrame::MyInfo(0x2222), 1);
    let r = s.process_frame_at(RadioFrame::Packet(packet(1, b"dm")), 2);
    let e = r.text.expect("text event");
    assert!(e.is_direct);
    assert!(!r.cache_changed);
}

#[test]
fn other_frames_change_nothing() {
    let mut s = ReaderState::new_at(0);
    let r = s.process_frame_at(RadioFrame::Other, 1);
    assert!(r.controls.is_empty());
    assert!(r.text.is_none());
    assert_eq!(s.our_node_id, None);
}
