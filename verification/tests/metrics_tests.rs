use meshbbs::metrics::{
    inc_reliable_acked, inc_reliable_failed, inc_reliable_retries, inc_reliable_sent, observe_ack_latency, snapshot,
    Metrics,
};

#[test]
fn counters_and_mean_latency() {
    let mut m = Metrics::new();
    assert_eq!(snapshot(&m).ack_latency_avg_ms, None);
    inc_reliable_sent(&mut m);
    inc_reliable_sent(&mut m);
    inc_reliable_acked(&mut m);
    inc_reliable_failed(&mut m);
    inc_reliable_retries(&mut m);
    observe_ack_latency(&mut m, 1_000, 1_300);
    observe_ack_latency(&mut m, 2_000, 2_100);
    observe_ack_latency(&mut m, 5_000, 4_000);
    let s = snapshot(&m);
    assert_eq!((s.reliable_sent, s.reliable_acked, s.reliable_failed, s.reliable_retries), (2, 1, 1, 1));
    assert_eq!(s.ack_latency_avg_ms, Some(133));
}

#[test]
fn counters_wrap() {
    let mut m = Metrics::new();
    m.reliable_sent = u64::MAX;
    inc_reliable_sent(&mut m);
    assert_eq!(m.reliable_sent, 0);
    m.ack_latency_sum_ms = u64::MAX - 1;
    observe_ack_latency(&mut m, 0, 5);
    assert_eq!(m.ack_latency_sum_ms, 3);
}
