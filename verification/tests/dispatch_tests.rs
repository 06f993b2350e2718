use meshbbs::dispatch::{MessageCategory, MessageEnvelope, Priority, SchedulerConfig, SchedulerState, TickOutcome};
use meshbbs::mesh::{MessagePriority, OutgoingMessage};

fn msg(text: &str) -> OutgoingMessage {
    OutgoingMessage { to_node: None, channel: 0, content: text.to_string(), priority: MessagePriority::Normal }
}

#[test]
fn envelope_ready_time_saturates() {
    let e = MessageEnvelope::new_at(MessageCategory::DirectHelp, Priority::High, 500, msg("a"), 1_000);
    assert_eq!(e.earliest, 1_500);
    let e = MessageEnvelope::new_at(MessageCategory::DirectHelp, Priority::High, 10, msg("a"), u64::MAX - 5);
    assert_eq!(e.earliest, u64::MAX);
}

#[test]
fn help_delay_is_at_least_the_composite_gap() {
    let c = SchedulerConfig { min_send_gap_ms: 2000, post_dm_broadcast_gap_ms: 1200, help_broadcast_delay_ms: 1000 };
    assert_eq!(c.effective_help_delay(), 3200);
    let c = SchedulerConfig { min_send_gap_ms: 2000, post_dm_broadcast_gap_ms: 1200, help_broadcast_delay_ms: 5000 };
    assert_eq!(c.effective_help_delay(), 5000);
}

#[test]
fn tick_sends_most_urgent_ready_envelope() {
    let mut s = SchedulerState::new();
    s.enqueue(MessageEnvelope::new_at(MessageCategory::HelpBroadcast, Priority::Normal, 0, msg("normal"), 100));
    s.enqueue(MessageEnvelope::new_at(MessageCategory::DirectHelp, Priority::High, 0, msg("high-late"), 200));
    s.enqueue(MessageEnvelope::new_at(MessageCategory::DirectHelp, Priority::High, 0, msg("high-early"), 150));
    s.enqueue(MessageEnvelope::new_at(MessageCategory::DirectHelp, Priority::High, 0, msg("future"), 10_000));
    match s.tick(1_000, 2_000) {
        TickOutcome::Dispatch(e) => assert_eq!(e.msg.content, "high-early"),
        other => panic!("unexpected {:?}", other),
    }
    assert_eq!(s.queue.len(), 3);
    s.record_sent(1_000);
    assert!(matches!(s.tick(1_500, 2_000), TickOutcome::Waiting));
    assert_eq!(s.queue.len(), 3);
    match s.tick(5_000, 2_000) {
        TickOutcome::Dispatch(e) => assert_eq!(e.msg.content, "high-late"),
        other => panic!("unexpected {:?}", other),
    }
    s.record_sent(5_000);
    match s.tick(7_000, 2_000) {
        TickOutcome::Dispatch(e) => assert_eq!(e.msg.content, "normal"),
        other => panic!("unexpected {:?}", other),
    }
    assert!(matches!(s.tick(7_000, 2_000), TickOutcome::Idle));
    assert_eq!(s.queue.len(), 1);
}

#[test]
fn queued_envelopes_wait_for_the_gap_and_are_all_sent() {
    let mut s = SchedulerState::new();
    s.enqueue(MessageEnvelope::new_at(MessageCategory::DirectHelp, Priority::Normal, 0, msg("e1"), 0));
    s.enqueue(MessageEnvelope::new_at(MessageCategory::DirectHelp, Priority::Normal, 0, msg("e2"), 0));
    let mut sent: Vec<(u64, String)> = Vec::new();
    let mut now = 0u64;
    while now <= 10_000 {
        if let TickOutcome::Dispatch(e) = s.tick(now, 2_000) {
            s.record_sent(now);
            sent.push((now, e.msg.content));
        }
        now += 50;
    }
    assert_eq!(sent, vec![(0, "e1".to_string()), (2_000, "e2".to_string())]);
    assert!(s.queue.is_empty());
}

#[test]
fn envelope_ready_time_follows_the_clock() {
    let before = chrono::Utc::now().timestamp_millis() as u64;
    let e = MessageEnvelope::new(MessageCategory::HelpBroadcast, Priority::Normal, 3_000, msg("x"));
    let after = chrono::Utc::now().timestamp_millis() as u64;
    assert!(before + 3_000 <= e.earliest && e.earliest <= after + 3_000);
}

#[test]
fn steps_send_each_envelope_once_a_gap_apart() {
    let mut s = SchedulerState::new();
    s.enqueue(MessageEnvelope::new_at(MessageCategory::HelpBroadcast, Priority::Normal, 0, msg("second"), 0));
    s.enqueue(MessageEnvelope::new_at(MessageCategory::DirectHelp, Priority::High, 0, msg("first"), 0));
    let mut sent: Vec<(String, u64)> = Vec::new();
    for t in (0..=10_000u64).step_by(500) {
        if let Some(e) = s.step(t, 2000) {
            sent.push((e.msg.content, t));
        }
    }
    assert_eq!(sent, vec![("first".to_string(), 0), ("second".to_string(), 2000)]);
    assert!(s.queue.is_empty());
    assert_eq!(s.last_sent, Some(2000));
}
