//! Counters of reliable delivery and the acknowledgement latency.
//!
//! Counters wrap around at `u64::MAX`, as atomic additions do.
use vstd::prelude::*;

verus! {

/// The running counters.
#[derive(Debug, Clone, Copy, PartialEq, Eq, Structural)]
pub struct Metrics {
    pub reliable_sent: u64,
    pub reliable_acked: u64,
    pub reliable_failed: u64,
    pub reliable_retries: u64,
    pub ack_latency_sum_ms: u64,
    pub ack_latency_count: u64,
}

/// A read-out of the counters with the mean acknowledgement latency.
#[derive(Debug, Clone, Copy, PartialEq, Eq, Structural)]
pub struct Snapshot {
    pub reliable_sent: u64,
    pub reliable_acked: u64,
    pub reliable_failed: u64,
    pub reliable_retries: u64,
    pub ack_latency_avg_ms: Option<u64>,
}

/// `a + b` wrapped to 64 bits.
pub open spec fn wrap_add(a: u64, b: u64) -> u64 {
    ((a + b) % 0x1_0000_0000_0000_0000) as u64
}

impl Metrics {
    /// All counters at zero.
    pub fn new() -> (m: Self)
        ensures
            m == (Metrics {
                reliable_sent: 0,
                reliable_acked: 0,
                reliable_failed: 0,
                reliable_retries: 0,
                ack_latency_sum_ms: 0,
                ack_latency_count: 0,
            }),
    {
        Metrics {
            reliable_sent: 0,
            reliable_acked: 0,
            reliable_failed: 0,
            reliable_retries: 0,
            ack_latency_sum_ms: 0,
            ack_latency_count: 0,
        }
    }
}

fn wrapping_inc(x: u64, by: u64) -> (r: u64)
    ensures
        r == wrap_add(x, by),
{
    if x <= u64::MAX - by {
        x + by
    } else {
        by - (u64::MAX - x) - 1
    }
}

/// Counts a reliable send.
pub fn inc_reliable_sent(m: &mut Metrics)
    ensures
        *final(m) == metrics_step(*old(m), MetricEvent::Sent),
{
    m.reliable_sent = wrapping_inc(m.reliable_sent, 1);
}

/// Counts an acknowledged reliable send.
pub fn inc_reliable_acked(m: &mut Metrics)
    ensures
        *final(m) == metrics_step(*old(m), MetricEvent::Acked),
{
    m.reliable_acked = wrapping_inc(m.reliable_acked, 1);
}

/// Counts a reliable send given up.
pub fn inc_reliable_failed(m: &mut Metrics)
    ensures
        *final(m) == metrics_step(*old(m), MetricEvent::Failed),
{
    m.reliable_failed = wrapping_inc(m.reliable_failed, 1);
}

/// Counts a retransmission.
pub fn inc_reliable_retries(m: &mut Metrics)
    ensures
        *final(m) == metrics_step(*old(m), MetricEvent::Retry),
{
    m.reliable_retries = wrapping_inc(m.reliable_retries, 1);
}

/// Adds the latency of an acknowledgement of a packet sent at `sent_at`
/// and acknowledged at `now` (ms; 0 when the clock reads earlier).
pub fn observe_ack_latency(m: &mut Metrics, sent_at: u64, now: u64)
    ensures
        *final(m) == metrics_step(*old(m), MetricEvent::Latency(if now >= sent_at { (now - sent_at) as u64 } else { 0 })),
{
    let ms = if now >= sent_at { now - sent_at } else { 0 };
    m.ack_latency_sum_ms = wrapping_inc(m.ack_latency_sum_ms, ms);
    m.ack_latency_count = wrapping_inc(m.ack_latency_count, 1);
}

/// The counters, and the mean latency when any acknowledgement was seen.
pub fn snapshot(m: &Metrics) -> (s: Snapshot)
    ensures
        s == (Snapshot {
            reliable_sent: m.reliable_sent,
            reliable_acked: m.reliable_acked,
            reliable_failed: m.reliable_failed,
            reliable_retries: m.reliable_retries,
            ack_latency_avg_ms: if m.ack_latency_count > 0 {
                Some((m.ack_latency_sum_ms / m.ack_latency_count) as u64)
            } else {
                None
            },
        }),
{
    Snapshot {
        reliable_sent: m.reliable_sent,
        reliable_acked: m.reliable_acked,
        reliable_failed: m.reliable_failed,
        reliable_retries: m.reliable_retries,
        ack_latency_avg_ms: if m.ack_latency_count > 0 {
            Some(m.ack_latency_sum_ms / m.ack_latency_count)
        } else {
            None
        },
    }
}

/// One thing the counters record.
pub enum MetricEvent {
    Sent,
    Acked,
    Failed,
    Retry,
    /// An acknowledgement after this many milliseconds.
    Latency(u64),
}

/// The counters after one event (what the `inc_*` functions and
/// `observe_ack_latency` do).
pub open spec fn metrics_step(m: Metrics, e: MetricEvent) -> Metrics {
    match e {
        MetricEvent::Sent => Metrics { reliable_sent: wrap_add(m.reliable_sent, 1), ..m },
        MetricEvent::Acked => Metrics { reliable_acked: wrap_add(m.reliable_acked, 1), ..m },
        MetricEvent::Failed => Metrics { reliable_failed: wrap_add(m.reliable_failed, 1), ..m },
        MetricEvent::Retry => Metrics { reliable_retries: wrap_add(m.reliable_retries, 1), ..m },
        MetricEvent::Latency(ms) => Metrics {
            ack_latency_sum_ms: wrap_add(m.ack_latency_sum_ms, ms),
            ack_latency_count: wrap_add(m.ack_latency_count, 1),
            ..m
        },
    }
}

/// The counters after a run of events.
pub open spec fn metrics_run(m: Metrics, es: Seq<MetricEvent>) -> Metrics
    decreases es.len(),
{
    if es.len() == 0 {
        m
    } else {
        metrics_step(metrics_run(m, es.drop_last()), es.last())
    }
}

/// How many of the events satisfy `p`.
pub open spec fn count_events(es: Seq<MetricEvent>, p: spec_fn(MetricEvent) -> bool) -> nat
    decreases es.len(),
{
    if es.len() == 0 {
        0
    } else {
        count_events(es.drop_last(), p) + if p(es.last()) { 1nat } else { 0nat }
    }
}

/// The latencies of the events added up.
pub open spec fn latency_total(es: Seq<MetricEvent>) -> nat
    decreases es.len(),
{
    if es.len() == 0 {
        0
    } else {
        latency_total(es.drop_last()) + match es.last() {
            MetricEvent::Latency(ms) => ms as nat,
            _ => 0nat,
        }
    }
}

/// The number 2^64, at which the counters wrap.
pub open spec fn wrap_modulus() -> nat {
    0x1_0000_0000_0000_0000
}

proof fn lemma_wrap_add_mod(a: nat, b: nat)
    requires
        a < wrap_modulus(),
        b < wrap_modulus(),
    ensures
        wrap_add(a as u64, b as u64) == (a + b) % wrap_modulus(),
{
}

proof fn lemma_mod_step(x: nat, y: nat)
    ensures
        ((x % wrap_modulus()) + y % wrap_modulus()) % wrap_modulus() == (x + y) % wrap_modulus(),
{
    vstd::arithmetic::div_mod::lemma_add_mod_noop(x as int, y as int, wrap_modulus() as int);
}

/// Starting from zero, each counter holds the number of its events, and the
/// latency sum the total of the latencies, all wrapped at 2^64.
pub proof fn lemma_counters_count_events(es: Seq<MetricEvent>)
    ensures
        ({
            let z = Metrics {
                reliable_sent: 0,
                reliable_acked: 0,
                reliable_failed: 0,
                reliable_retries: 0,
                ack_latency_sum_ms: 0,
                ack_latency_count: 0,
            };
            let r = metrics_run(z, es);
            &&& r.reliable_sent == count_events(es, |e: MetricEvent| e is Sent) % wrap_modulus()
            &&& r.reliable_acked == count_events(es, |e: MetricEvent| e is Acked) % wrap_modulus()
            &&& r.reliable_failed == count_events(es, |e: MetricEvent| e is Failed) % wrap_modulus()
            &&& r.reliable_retries == count_events(es, |e: MetricEvent| e is Retry) % wrap_modulus()
            &&& r.ack_latency_count == count_events(es, |e: MetricEvent| e is Latency) % wrap_modulus()
            &&& r.ack_latency_sum_ms == latency_total(es) % wrap_modulus()
        }),
    decreases es.len(),
{
    if es.len() > 0 {
        lemma_counters_count_events(es.drop_last());
        let z = Metrics {
            reliable_sent: 0,
            reliable_acked: 0,
            reliable_failed: 0,
            reliable_retries: 0,
            ack_latency_sum_ms: 0,
            ack_latency_count: 0,
        };
        let prev = metrics_run(z, es.drop_last());
        let d = es.drop_last();
        let m = wrap_modulus();
        let cs = count_events(d, |e: MetricEvent| e is Sent);
        let ca = count_events(d, |e: MetricEvent| e is Acked);
        let cf = count_events(d, |e: MetricEvent| e is Failed);
        let cr = count_events(d, |e: MetricEvent| e is Retry);
        let cl = count_events(d, |e: MetricEvent| e is Latency);
        let lt = latency_total(d);
        lemma_mod_step(cs, 1);
        lemma_mod_step(ca, 1);
        lemma_mod_step(cf, 1);
        lemma_mod_step(cr, 1);
        lemma_mod_step(cl, 1);
        match es.last() {
            MetricEvent::Latency(ms) => {
                lemma_mod_step(lt, ms as nat);
                lemma_wrap_add_mod(prev.ack_latency_sum_ms as nat, ms as nat);
                lemma_wrap_add_mod(prev.ack_latency_count as nat, 1);
            },
            MetricEvent::Sent => {
                lemma_wrap_add_mod(prev.reliable_sent as nat, 1);
            },
            MetricEvent::Acked => {
                lemma_wrap_add_mod(prev.reliable_acked as nat, 1);
            },
            MetricEvent::Failed => {
                lemma_wrap_add_mod(prev.reliable_failed as nat, 1);
            },
            MetricEvent::Retry => {
                lemma_wrap_add_mod(prev.reliable_retries as nat, 1);
            },
        }
    }
}

} // verus!
