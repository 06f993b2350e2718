use std::collections::HashMap;

use meshbbs::mesh::{MessagePriority, OutgoingMessage, WriterTuning};
use meshbbs::reliable::{
    after_resend, effective_min_gap, gap_wait, on_ack, on_routing_error, pacing_wait, packet_priority, plan_send,
    record_reliable_send, routing_error_is_transient, scan_due, PendingSend, RoutingErrorEffect, BROADCAST_ADDR,
    MAX_ATTEMPTS,
};

fn tuning() -> WriterTuning {
    WriterTuning::default()
}

#[test]
fn record_sets_first_retry_one_stage_later() {
    let mut pending: HashMap<u32, PendingSend> = HashMap::new();
    record_reliable_send(&mut pending, 7, 0x22, 0, "hello".to_string(), 10_000, &tuning());
    let p = &pending[&7];
    assert_eq!(p.to, 0x22);
    assert_eq!(p.attempts, 1);
    assert_eq!(p.backoff_idx, 0);
    assert_eq!(p.next_due_ms, 14_000);
    assert_eq!(p.full_content, "hello");
}

#[test]
fn ack_forgets_the_packet() {
    let mut pending: HashMap<u32, PendingSend> = HashMap::new();
    record_reliable_send(&mut pending, 7, 0x22, 0, "hello".to_string(), 0, &tuning());
    let got = on_ack(&mut pending, 7).unwrap();
    assert_eq!(got.full_content, "hello");
    assert!(pending.is_empty());
    assert!(on_ack(&mut pending, 7).is_none());
}

#[test]
fn transient_reasons() {
    assert!(routing_error_is_transient(3));
    assert!(routing_error_is_transient(9));
    assert!(routing_error_is_transient(38));
    assert!(!routing_error_is_transient(1));
}

#[test]
fn permanent_routing_error_drops_packet() {
    let mut pending: HashMap<u32, PendingSend> = HashMap::new();
    record_reliable_send(&mut pending, 5, 1, 0, "x".to_string(), 0, &tuning());
    match on_routing_error(&mut pending, 5, 1, 100, &tuning()) {
        RoutingErrorEffect::Dropped(Some(p)) => assert_eq!(p.full_content, "x"),
        other => panic!("unexpected {:?}", other),
    }
    assert!(pending.is_empty());
}

#[test]
fn transient_routing_error_pushes_retry_back() {
    let mut pending: HashMap<u32, PendingSend> = HashMap::new();
    record_reliable_send(&mut pending, 5, 1, 0, "x".to_string(), 0, &tuning());
    let r = on_routing_error(&mut pending, 5, 3, 1_000, &tuning());
    assert!(matches!(r, RoutingErrorEffect::Rescheduled));
    assert_eq!(pending[&5].next_due_ms, 5_000);
    let r = on_routing_error(&mut pending, 99, 3, 1_000, &tuning());
    assert!(matches!(r, RoutingErrorEffect::Untracked));
}

#[test]
fn scan_resends_then_expires() {
    let mut pending: HashMap<u32, PendingSend> = HashMap::new();
    record_reliable_send(&mut pending, 1, 9, 0, "a".to_string(), 0, &tuning());
    let r = scan_due(&mut pending, 1_000);
    assert!(r.to_resend.is_empty() && r.expired.is_empty());
    let r = scan_due(&mut pending, 4_000);
    assert_eq!(r.to_resend, vec![1]);
    assert_eq!(pending[&1].attempts, 2);
    after_resend(&mut pending, 1, 4_000, &tuning());
    assert_eq!(pending[&1].backoff_idx, 1);
    assert_eq!(pending[&1].next_due_ms, 12_000);
    let r = scan_due(&mut pending, 12_000);
    assert_eq!(r.to_resend, vec![1]);
    assert_eq!(pending[&1].attempts, MAX_ATTEMPTS);
    after_resend(&mut pending, 1, 12_000, &tuning());
    assert_eq!(pending[&1].backoff_idx, 2);
    assert_eq!(pending[&1].next_due_ms, 28_000);
    let r = scan_due(&mut pending, 28_000);
    assert!(r.to_resend.is_empty());
    assert_eq!(r.expired.len(), 1);
    assert_eq!(r.expired[0].0, 1);
    assert!(pending.is_empty());
}

#[test]
fn gaps_and_pacing() {
    let mut t = tuning();
    t.min_send_gap_ms = 500;
    assert_eq!(effective_min_gap(&t), 2000);
    t.min_send_gap_ms = 3000;
    assert_eq!(effective_min_gap(&t), 3000);
    assert_eq!(gap_wait(Some(500), 2000), 1500);
    assert_eq!(gap_wait(Some(2500), 2000), 0);
    assert_eq!(gap_wait(None, 2000), 0);
    let t = tuning();
    assert_eq!(pacing_wait(Some(200), 0, &t), 1000);
    assert_eq!(pacing_wait(Some(200), 70, &t), 400);
    assert_eq!(pacing_wait(Some(200), 5, &t), 0);
    assert_eq!(pacing_wait(None, 70, &t), 0);
}

#[test]
fn plans_direct_and_broadcast_packets() {
    assert_eq!(packet_priority(MessagePriority::High), 70);
    assert_eq!(packet_priority(MessagePriority::Normal), 0);
    let dm = OutgoingMessage { to_node: Some(0x1234), channel: 0, content: "hi".into(), priority: MessagePriority::High };
    let plan = plan_send(&dm);
    assert_eq!(plan.dest, 0x1234);
    assert!(plan.is_dm && plan.want_ack);
    assert_eq!(plan.priority, 70);
    assert_eq!(plan.hop_limit, 3);
    let bc = OutgoingMessage { to_node: None, channel: 0, content: "all".into(), priority: MessagePriority::Normal };
    let plan = plan_send(&bc);
    assert_eq!(plan.dest, BROADCAST_ADDR);
    assert!(!plan.is_dm && !plan.want_ack);
    assert_eq!(plan.priority, 0);
    let to_all = OutgoingMessage { to_node: Some(BROADCAST_ADDR), channel: 0, content: "x".into(), priority: MessagePriority::High };
    assert!(!plan_send(&to_all).is_dm);
}
