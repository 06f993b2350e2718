//! Reliable direct-message delivery: retransmission bookkeeping and send pacing
//! of the radio writer.
//!
//! A reliable direct message is remembered until the radio acknowledges it. A
//! periodic scan re-sends every message whose retry time has come, up to a fixed
//! number of attempts, and gives up on the rest. Times are milliseconds on a
//! monotonic clock.
use vstd::prelude::*;
use std::collections::HashMap;
use crate::mesh::{MessagePriority, OutgoingMessage, WriterTuning};

verus! {

broadcast use vstd::std_specs::hash::group_hash_axioms;

/// Number of transmissions after which an unacknowledged message is given up.
pub const MAX_ATTEMPTS: u8 = 3;
/// Hard lower bound on the gap between two text transmissions (ms).
pub const MIN_SEND_GAP_FLOOR_MS: u64 = 2000;
/// Destination id that means "broadcast".
pub const BROADCAST_ADDR: u32 = 0xffffffff;
/// Packet priority used for reliable direct messages.
pub const PRIORITY_RELIABLE: u32 = 70;
/// Packet priority used for broadcasts.
pub const PRIORITY_DEFAULT: u32 = 0;
/// Hop limit of every text packet.
pub const HOP_LIMIT: u32 = 3;
/// First retry delay (s) when the schedule is empty.
pub const DEFAULT_FIRST_BACKOFF_SECS: u64 = 4;
/// Retry delay (s) for a transient error when the schedule is empty.
pub const DEFAULT_LAST_BACKOFF_SECS: u64 = 16;

/// A reliable message awaiting acknowledgement.
#[derive(Debug, Clone)]
pub struct PendingSend {
    /// Destination node.
    pub to: u32,
    /// Channel index.
    pub channel: u32,
    /// The full text, re-sent unchanged.
    pub full_content: String,
    /// Transmissions so far.
    pub attempts: u8,
    /// Earliest time of the next retransmission (ms).
    pub next_due_ms: u64,
    /// Position in the backoff schedule for the next scheduling step.
    pub backoff_idx: u8,
}

/// Invariant of the pending table: every entry has been sent between one and
/// `MAX_ATTEMPTS` times and points inside the backoff schedule.
pub open spec fn pending_wf(m: Map<u32, PendingSend>, backoff: Seq<u64>) -> bool {
    forall|id: u32|
        #[trigger] m.contains_key(id) ==> 1 <= m[id].attempts <= MAX_ATTEMPTS && (m[id].backoff_idx
            as int) < (if backoff.len() == 0 { 1 } else { backoff.len() as int })
}

/// Every retry delay of the schedule (and the defaults) can be added to `now` in
/// milliseconds without overflow.
pub open spec fn delays_fit(backoff: Seq<u64>, now_ms: u64) -> bool {
    &&& now_ms as int + DEFAULT_LAST_BACKOFF_SECS as int * 1000 <= u64::MAX
    &&& forall|i: int| 0 <= i < backoff.len() ==> now_ms as int + (#[trigger] backoff[i]) as int * 1000 <= u64::MAX
}

/// The first retry delay (s): the first stage of the schedule, or 4.
pub open spec fn first_backoff_spec(backoff: Seq<u64>) -> u64 {
    if backoff.len() > 0 {
        backoff[0]
    } else {
        DEFAULT_FIRST_BACKOFF_SECS
    }
}

/// The entry recorded for a freshly sent reliable message.
pub open spec fn fresh_pending(to: u32, channel: u32, content: String, now_ms: u64, backoff: Seq<u64>) -> PendingSend {
    PendingSend {
        to,
        channel,
        full_content: content,
        attempts: 1,
        next_due_ms: (now_ms + first_backoff_spec(backoff) * 1000) as u64,
        backoff_idx: 0,
    }
}

/// Remembers a reliable direct message just sent under packet id `id`; its
/// first retry falls one backoff stage after `now_ms`.
pub fn record_reliable_send(
    pending: &mut HashMap<u32, PendingSend>,
    id: u32,
    to: u32,
    channel: u32,
    content: String,
    now_ms: u64,
    tuning: &WriterTuning,
)
    requires
        delays_fit(tuning.dm_resend_backoff_seconds@, now_ms),
    ensures
        final(pending)@ == old(pending)@.insert(
            id,
            fresh_pending(to, channel, content, now_ms, tuning.dm_resend_backoff_seconds@),
        ),
{
    let first = if tuning.dm_resend_backoff_seconds.len() > 0 {
        tuning.dm_resend_backoff_seconds[0]
    } else {
        DEFAULT_FIRST_BACKOFF_SECS
    };
    let entry = PendingSend {
        to,
        channel,
        full_content: content,
        attempts: 1,
        next_due_ms: now_ms + first * 1000,
        backoff_idx: 0,
    };
    pending.insert(id, entry);
}

/// Handles an acknowledgement: forgets the packet and hands back its entry.
pub fn on_ack(pending: &mut HashMap<u32, PendingSend>, id: u32) -> (r: Option<PendingSend>)
    ensures
        final(pending)@ == old(pending)@.remove(id),
        r == (if old(pending)@.contains_key(id) {
            Some(old(pending)@[id])
        } else {
            None
        }),
{
    pending.remove(&id)
}

/// Whether a routing error reason is transient (timeout, duty-cycle limit or
/// rate limit exceeded) and worth retrying.
pub open spec fn routing_error_is_transient_spec(reason: i32) -> bool {
    reason == 3 || reason == 9 || reason == 38
}

/// Classifies a routing error reason code of the radio.
pub fn routing_error_is_transient(reason: i32) -> (r: bool)
    ensures
        r == routing_error_is_transient_spec(reason),
{
    reason == 3 || reason == 9 || reason == 38
}

/// Delay (s) of a backoff stage: that stage, else the last stage, else 16.
pub open spec fn stage_delay_spec(backoff: Seq<u64>, idx: u8) -> u64 {
    if (idx as int) < backoff.len() {
        backoff[idx as int]
    } else if backoff.len() > 0 {
        backoff.last()
    } else {
        DEFAULT_LAST_BACKOFF_SECS
    }
}

/// What a routing error did to the pending table.
#[derive(Debug)]
pub enum RoutingErrorEffect {
    /// Transient error: the retry was pushed back to at least one stage delay from now.
    Rescheduled,
    /// Transient error for a packet that is not pending.
    Untracked,
    /// Permanent error: the packet was given up (its entry, if it was pending).
    Dropped(Option<PendingSend>),
}

/// Handles a routing error reported for packet `id`.
pub fn on_routing_error(
    pending: &mut HashMap<u32, PendingSend>,
    id: u32,
    reason: i32,
    now_ms: u64,
    tuning: &WriterTuning,
) -> (r: RoutingErrorEffect)
    requires
        delays_fit(tuning.dm_resend_backoff_seconds@, now_ms),
    ensures
        !routing_error_is_transient_spec(reason) ==> final(pending)@ == old(pending)@.remove(id)
            && r == RoutingErrorEffect::Dropped(
            if old(pending)@.contains_key(id) {
                Some(old(pending)@[id])
            } else {
                None
            },
        ),
        routing_error_is_transient_spec(reason) && !old(pending)@.contains_key(id)
            ==> final(pending)@ == old(pending)@ && r is Untracked,
        routing_error_is_transient_spec(reason) && old(pending)@.contains_key(id) ==> ({
            let p = old(pending)@[id];
            let min_due = now_ms as int + stage_delay_spec(
                tuning.dm_resend_backoff_seconds@,
                p.backoff_idx,
            ) as int * 1000;
            &&& r is Rescheduled
            &&& final(pending)@ == old(pending)@.insert(
                id,
                PendingSend {
                    next_due_ms: if (p.next_due_ms as int) < min_due {
                        min_due as u64
                    } else {
                        p.next_due_ms
                    },
                    ..p
                },
            )
        }),
{
    if !routing_error_is_transient(reason) {
        let removed = pending.remove(&id);
        return RoutingErrorEffect::Dropped(removed);
    }
    match pending.remove(&id) {
        None => RoutingErrorEffect::Untracked,
        Some(mut p) => {
            let b = &tuning.dm_resend_backoff_seconds;
            let stage = if (p.backoff_idx as usize) < b.len() {
                b[p.backoff_idx as usize]
            } else if b.len() > 0 {
                b[b.len() - 1]
            } else {
                DEFAULT_LAST_BACKOFF_SECS
            };
            let min_due = now_ms + stage * 1000;
            if p.next_due_ms < min_due {
                p.next_due_ms = min_due;
            }
            pending.insert(id, p);
            RoutingErrorEffect::Rescheduled
        },
    }
}


/// Whether an entry's retry time has come.
pub open spec fn is_due(p: PendingSend, now_ms: u64) -> bool {
    p.next_due_ms <= now_ms
}

/// What the periodic scan makes of one entry: untouched when not due, counted
/// as one more attempt when due and below the limit, dropped (`None`) otherwise.
pub open spec fn scan_entry_spec(p: PendingSend, now_ms: u64) -> Option<PendingSend> {
    if !is_due(p, now_ms) {
        Some(p)
    } else if p.attempts < MAX_ATTEMPTS {
        Some(PendingSend { attempts: (p.attempts + 1) as u8, ..p })
    } else {
        None
    }
}

/// The pending table after the periodic scan.
pub open spec fn scan_table_spec(m: Map<u32, PendingSend>, now_ms: u64) -> Map<u32, PendingSend> {
    Map::new(
        |id: u32| m.contains_key(id) && scan_entry_spec(m[id], now_ms) is Some,
        |id: u32| scan_entry_spec(m[id], now_ms).unwrap(),
    )
}

/// Outcome of the periodic scan.
#[derive(Debug)]
pub struct ScanResult {
    /// Packets to transmit again now (their attempt count was raised).
    pub to_resend: Vec<u32>,
    /// Packets given up after the last allowed attempt, with their entries.
    pub expired: Vec<(u32, PendingSend)>,
}

/// Membership in a sequence extended by one element.
proof fn lemma_push_contains<T>(s: Seq<T>, a: T, x: T)
    ensures
        s.push(a).contains(x) <==> (s.contains(x) || x == a),
{
    if s.push(a).contains(x) && x != a {
        let k = choose|k: int| 0 <= k < s.push(a).len() && s.push(a)[k] == x;
        assert(k < s.len());
        assert(s[k] == x);
    }
    if s.contains(x) {
        let k = choose|k: int| 0 <= k < s.len() && s[k] == x;
        assert(s.push(a)[k] == x);
    }
    if x == a {
        assert(s.push(a)[s.len() as int] == a);
    }
}

/// Ids of the entries that are due, each once.
fn due_ids(pending: &HashMap<u32, PendingSend>, now_ms: u64) -> (r: Vec<u32>)
    ensures
        r@.no_duplicates(),
        forall|id: u32|
            #![trigger r@.contains(id)]
            r@.contains(id) <==> pending@.contains_key(id) && is_due(pending@[id], now_ms),
{
    let mut r: Vec<u32> = Vec::new();
    for k in it: pending.keys()
        invariant
            r@.no_duplicates(),
            it.seq().no_duplicates(),
            it.seq().unref().to_set() == pending@.dom(),
            forall|i: int|
                0 <= i < r@.len() ==> pending@.contains_key(#[trigger] r@[i]) && is_due(
                    pending@[r@[i]],
                    now_ms,
                ) && exists|j: int| 0 <= j < it.index() && *it.seq()[j] == r@[i],
            forall|j: int|
                0 <= j < it.index() ==> (is_due(pending@[*it.seq()[j]], now_ms) ==> r@.contains(
                    *it.seq()[j],
                )),
    {
        let ghost before = r@;
        let ghost idx = it.index();
        let v = pending.get(k).unwrap();
        if v.next_due_ms <= now_ms {
            proof {
                assert forall|i: int| 0 <= i < before.len() implies before[i] != *k by {
                    let j = choose|j: int| 0 <= j < idx && *it.seq()[j] == before[i];
                    assert(it.seq()[j] != it.seq()[idx]);
                }
            }
            r.push(*k);
            assert(r@[r@.len() - 1] == *k);
        }
        assert forall|i: int| 0 <= i < r@.len() implies pending@.contains_key(#[trigger] r@[i])
            && is_due(pending@[r@[i]], now_ms) && exists|j: int|
            0 <= j < idx + 1 && *it.seq()[j] == r@[i] by {
            if i < before.len() {
                assert(r@[i] == before[i]);
                let j = choose|j: int| 0 <= j < idx && *it.seq()[j] == before[i];
                assert(0 <= j < idx + 1 && *it.seq()[j] == r@[i]);
            } else {
                assert(*it.seq()[idx] == r@[i]);
            }
        }
        assert forall|j: int| 0 <= j < idx + 1 implies (is_due(pending@[*it.seq()[j]], now_ms)
            ==> r@.contains(*it.seq()[j])) by {
            if j < idx && is_due(pending@[*it.seq()[j]], now_ms) {
                let w = choose|w: int| 0 <= w < before.len() && before[w] == *it.seq()[j];
                assert(r@[w] == before[w]);
            }
        }
    }
    r
}

/// The periodic scan: every due entry below the attempt limit is counted as
/// re-sent, every due entry at the limit is given up; others stay as they are.
pub fn scan_due(pending: &mut HashMap<u32, PendingSend>, now_ms: u64) -> (r: ScanResult)
    ensures
        final(pending)@ == scan_table_spec(old(pending)@, now_ms),
        r.to_resend@.no_duplicates(),
        forall|id: u32|
            #![trigger r.to_resend@.contains(id)]
            r.to_resend@.contains(id) <==> old(pending)@.contains_key(id) && is_due(
                old(pending)@[id],
                now_ms,
            ) && old(pending)@[id].attempts < MAX_ATTEMPTS,
        forall|id: u32, p: PendingSend|
            #![trigger r.expired@.contains((id, p))]
            r.expired@.contains((id, p)) <==> old(pending)@.contains_key(id) && is_due(
                old(pending)@[id],
                now_ms,
            ) && old(pending)@[id].attempts >= MAX_ATTEMPTS && p == old(pending)@[id],
{
    let ghost m0 = pending@;
    let ids = due_ids(pending, now_ms);
    let mut to_resend: Vec<u32> = Vec::new();
    let mut expired: Vec<(u32, PendingSend)> = Vec::new();
    let mut i: usize = 0;
    while i < ids.len()
        invariant
            i <= ids@.len(),
            ids@.no_duplicates(),
            forall|id: u32|
                #![trigger ids@.contains(id)]
                ids@.contains(id) <==> m0.contains_key(id) && is_due(m0[id], now_ms),
            forall|id: u32|
                #![trigger pending@.contains_key(id)]
                pending@.contains_key(id) <==> (m0.contains_key(id) && (if ids@.take(
                    i as int,
                ).contains(id) {
                    scan_entry_spec(m0[id], now_ms) is Some
                } else {
                    true
                })),
            forall|id: u32|
                #![trigger pending@[id]]
                pending@.contains_key(id) ==> pending@[id] == (if ids@.take(i as int).contains(id) {
                    scan_entry_spec(m0[id], now_ms).unwrap()
                } else {
                    m0[id]
                }),
            to_resend@.no_duplicates(),
            forall|id: u32|
                #![trigger to_resend@.contains(id)]
                to_resend@.contains(id) <==> ids@.take(i as int).contains(id) && m0[id].attempts
                    < MAX_ATTEMPTS,
            forall|id: u32, p: PendingSend|
                #![trigger expired@.contains((id, p))]
                expired@.contains((id, p)) <==> ids@.take(i as int).contains(id)
                    && m0[id].attempts >= MAX_ATTEMPTS && p == m0[id],
        decreases ids@.len() - i,
    {
        let id = ids[i];
        let ghost before_r = to_resend@;
        let ghost before_e = expired@;
        proof {
            assert(ids@.contains(id));
            assert(!ids@.take(i as int).contains(id)) by {
                if ids@.take(i as int).contains(id) {
                    let k = choose|k: int| 0 <= k < i && ids@.take(i as int)[k] == id;
                    assert(ids@[k] == ids@[i as int]);
                }
            }
            assert(ids@.take(i + 1) =~= ids@.take(i as int).push(id));
        }
        let p = pending.remove(&id).unwrap();
        assert(p == m0[id]);
        proof {
            assert forall|x: u32| #[trigger] ids@.take(i + 1).contains(x) <==> (ids@.take(
                i as int,
            ).contains(x) || x == id) by {
                lemma_push_contains(ids@.take(i as int), id, x);
            }
            assert forall|x: u32| #[trigger] to_resend@.push(id).contains(x) <==> (to_resend@.contains(x) || x == id) by {
                lemma_push_contains(to_resend@, id, x);
            }
            assert forall|x: u32, q: PendingSend| #[trigger] expired@.push((id, p)).contains((x, q)) <==> (expired@.contains((x, q)) || (x, q) == (id, p)) by {
                lemma_push_contains(expired@, (id, p), (x, q));
            }
        }
        if p.attempts < MAX_ATTEMPTS {
            let np = PendingSend { attempts: p.attempts + 1, ..p };
            pending.insert(id, np);
            to_resend.push(id);
            proof {
                assert forall|x: u32| #![trigger to_resend@.contains(x)]
                    to_resend@.contains(x) <==> ids@.take(i + 1).contains(x) && m0[x].attempts
                    < MAX_ATTEMPTS by {
                    if to_resend@.contains(x) && x != id {
                        let k = choose|k: int| 0 <= k < to_resend@.len() && to_resend@[k] == x;
                        assert(before_r[k] == x);
                    }
                    if ids@.take(i + 1).contains(x) && m0[x].attempts < MAX_ATTEMPTS && x != id {
                        assert(before_r.contains(x));
                        let k = choose|k: int| 0 <= k < before_r.len() && before_r[k] == x;
                        assert(to_resend@[k] == x);
                    }
                    if x == id {
                        assert(to_resend@[to_resend@.len() - 1] == id);
                    }
                }
                assert forall|a: int, b: int| 0 <= a < b < to_resend@.len() implies to_resend@[a]
                    != to_resend@[b] by {
                    if b == to_resend@.len() - 1 {
                        assert(!before_r.contains(id));
                        assert(to_resend@[a] == before_r[a]);
                    } else {
                        assert(to_resend@[a] == before_r[a]);
                        assert(to_resend@[b] == before_r[b]);
                    }
                }
                assert forall|x: u32, q: PendingSend| #![trigger expired@.contains((x, q))]
                    expired@.contains((x, q)) <==> ids@.take(i + 1).contains(x)
                    && m0[x].attempts >= MAX_ATTEMPTS && q == m0[x] by {
                    if x == id {
                        assert(!before_e.contains((x, q)));
                    }
                }
            }
        } else {
            expired.push((id, p));
            proof {
                assert forall|x: u32, q: PendingSend| #![trigger expired@.contains((x, q))]
                    expired@.contains((x, q)) <==> ids@.take(i + 1).contains(x)
                    && m0[x].attempts >= MAX_ATTEMPTS && q == m0[x] by {
                    if expired@.contains((x, q)) && (x, q) != (id, p) {
                        let k = choose|k: int| 0 <= k < expired@.len() && expired@[k] == (x, q);
                        assert(before_e[k] == (x, q));
                    }
                    if ids@.take(i + 1).contains(x) && m0[x].attempts >= MAX_ATTEMPTS && q == m0[x]
                        && x != id {
                        assert(before_e.contains((x, q)));
                        let k = choose|k: int| 0 <= k < before_e.len() && before_e[k] == (x, q);
                        assert(expired@[k] == (x, q));
                    }
                    if x == id && q == p {
                        assert(expired@[expired@.len() - 1] == (id, p));
                    }
                }
                assert forall|x: u32| #![trigger to_resend@.contains(x)]
                    to_resend@.contains(x) <==> ids@.take(i + 1).contains(x) && m0[x].attempts
                    < MAX_ATTEMPTS by {
                    if x == id {
                        assert(!before_r.contains(x));
                    }
                }
            }
        }
        i = i + 1;
    }
    proof {
        assert(ids@.take(ids@.len() as int) =~= ids@);
        assert(pending@ =~= scan_table_spec(m0, now_ms));
    }
    ScanResult { to_resend, expired }
}


/// The entry after a successful retransmission: one stage further along the
/// schedule (never past its end), next retry one stage delay from now.
pub open spec fn after_resend_spec(p: PendingSend, now_ms: u64, backoff: Seq<u64>) -> PendingSend {
    let max_idx = if backoff.len() == 0 { 0 } else { backoff.len() - 1 };
    let new_idx = if p.backoff_idx as int + 1 < max_idx { p.backoff_idx as int + 1 } else { max_idx };
    PendingSend {
        backoff_idx: new_idx as u8,
        next_due_ms: (now_ms + backoff[new_idx] * 1000) as u64,
        ..p
    }
}

/// Advances the backoff of packet `id` after it was re-sent successfully.
pub fn after_resend(pending: &mut HashMap<u32, PendingSend>, id: u32, now_ms: u64, tuning: &WriterTuning)
    requires
        1 <= tuning.dm_resend_backoff_seconds@.len() <= 256,
        delays_fit(tuning.dm_resend_backoff_seconds@, now_ms),
    ensures
        !old(pending)@.contains_key(id) ==> final(pending)@ == old(pending)@,
        old(pending)@.contains_key(id) ==> final(pending)@ == old(pending)@.insert(
            id,
            after_resend_spec(old(pending)@[id], now_ms, tuning.dm_resend_backoff_seconds@),
        ),
{
    match pending.remove(&id) {
        None => {},
        Some(mut p) => {
            let b = &tuning.dm_resend_backoff_seconds;
            let max_idx = (b.len() - 1) as u8;
            let stepped: u16 = p.backoff_idx as u16 + 1;
            let new_idx: u8 = if stepped < max_idx as u16 {
                stepped as u8
            } else {
                max_idx
            };
            p.backoff_idx = new_idx;
            p.next_due_ms = now_ms + b[new_idx as usize] * 1000;
            pending.insert(id, p);
        },
    }
}

/// Recording a fresh send keeps the pending table well formed.
pub proof fn lemma_record_preserves_wf(
    m: Map<u32, PendingSend>,
    backoff: Seq<u64>,
    id: u32,
    to: u32,
    channel: u32,
    content: String,
    now_ms: u64,
)
    requires
        pending_wf(m, backoff),
    ensures
        pending_wf(m.insert(id, fresh_pending(to, channel, content, now_ms, backoff)), backoff),
{
}

/// The periodic scan keeps the pending table well formed: no entry ever goes
/// beyond `MAX_ATTEMPTS` transmissions.
pub proof fn lemma_scan_preserves_wf(m: Map<u32, PendingSend>, backoff: Seq<u64>, now_ms: u64)
    requires
        pending_wf(m, backoff),
    ensures
        pending_wf(scan_table_spec(m, now_ms), backoff),
{
}

/// Advancing the backoff keeps the pending table well formed.
pub proof fn lemma_after_resend_preserves_wf(m: Map<u32, PendingSend>, backoff: Seq<u64>, id: u32, now_ms: u64)
    requires
        pending_wf(m, backoff),
        1 <= backoff.len() <= 256,
        m.contains_key(id),
    ensures
        pending_wf(m.insert(id, after_resend_spec(m[id], now_ms, backoff)), backoff),
{
}

/// After an acknowledgement the packet is no longer pending, and nothing else changed.
pub proof fn lemma_ack_forgets(m: Map<u32, PendingSend>, id: u32)
    ensures
        !m.remove(id).contains_key(id),
        forall|k: u32| k != id && m.contains_key(k) ==> #[trigger] m.remove(id).contains_key(k) && m.remove(id)[k] == m[k],
{
}

/// A packet that keeps failing is transmitted at most `MAX_ATTEMPTS` times: an
/// entry at the limit is dropped by the next scan that finds it due.
pub proof fn lemma_scan_drops_exhausted(m: Map<u32, PendingSend>, now_ms: u64, id: u32)
    requires
        m.contains_key(id),
        is_due(m[id], now_ms),
        m[id].attempts >= MAX_ATTEMPTS,
    ensures
        !scan_table_spec(m, now_ms).contains_key(id),
{
}

/// The effective minimum gap between two text transmissions (ms).
pub open spec fn effective_min_gap_spec(tuning: WriterTuning) -> u64 {
    if tuning.min_send_gap_ms > MIN_SEND_GAP_FLOOR_MS {
        tuning.min_send_gap_ms
    } else {
        MIN_SEND_GAP_FLOOR_MS
    }
}

/// `max(min_send_gap_ms, 2000)`.
pub fn effective_min_gap(tuning: &WriterTuning) -> (r: u64)
    ensures
        r == effective_min_gap_spec(*tuning),
        r >= MIN_SEND_GAP_FLOOR_MS,
{
    if tuning.min_send_gap_ms > MIN_SEND_GAP_FLOOR_MS {
        tuning.min_send_gap_ms
    } else {
        MIN_SEND_GAP_FLOOR_MS
    }
}

/// How long to wait before the next transmission so that at least `gap_ms`
/// separates it from the previous one (`elapsed_ms` since then, if any).
pub fn gap_wait(elapsed_ms: Option<u64>, gap_ms: u64) -> (w: u64)
    ensures
        w == (match elapsed_ms {
            Some(e) => if e < gap_ms {
                (gap_ms - e) as u64
            } else {
                0
            },
            None => 0,
        }),
{
    match elapsed_ms {
        Some(e) => if e < gap_ms {
            gap_ms - e
        } else {
            0
        },
        None => 0,
    }
}

/// Packet priority of an outgoing message: 70 for high, 0 for normal.
pub fn packet_priority(p: MessagePriority) -> (r: u32)
    ensures
        r == (if p == MessagePriority::High { PRIORITY_RELIABLE } else { PRIORITY_DEFAULT }),
{
    match p {
        MessagePriority::High => PRIORITY_RELIABLE,
        MessagePriority::Normal => PRIORITY_DEFAULT,
    }
}

/// Pacing delay (ms) before a send, given the time since the last reliable
/// direct message: broadcasts wait out `post_dm_broadcast_gap_ms`, reliable
/// messages wait out `dm_to_dm_gap_ms`.
pub fn pacing_wait(since_last_reliable_ms: Option<u64>, priority: u32, tuning: &WriterTuning) -> (w: u64)
    ensures
        w == (match since_last_reliable_ms {
            None => 0,
            Some(e) => if priority == PRIORITY_DEFAULT {
                if e < tuning.post_dm_broadcast_gap_ms { (tuning.post_dm_broadcast_gap_ms - e) as u64 } else { 0 }
            } else if priority == PRIORITY_RELIABLE {
                if e < tuning.dm_to_dm_gap_ms { (tuning.dm_to_dm_gap_ms - e) as u64 } else { 0 }
            } else {
                0
            },
        }),
{
    match since_last_reliable_ms {
        None => 0,
        Some(e) => {
            if priority == PRIORITY_DEFAULT {
                gap_wait(Some(e), tuning.post_dm_broadcast_gap_ms)
            } else if priority == PRIORITY_RELIABLE {
                gap_wait(Some(e), tuning.dm_to_dm_gap_ms)
            } else {
                0
            }
        },
    }
}

/// Header fields of the text packet for an outgoing message.
#[derive(Debug, Clone, Copy, PartialEq, Eq)]
pub struct SendPlan {
    /// Destination (broadcast address when none).
    pub dest: u32,
    /// Whether this is a direct message, sent reliably.
    pub is_dm: bool,
    /// Packet priority.
    pub priority: u32,
    /// Whether the radio is asked for an acknowledgement.
    pub want_ack: bool,
    /// Hop limit.
    pub hop_limit: u32,
}

/// Plans the packet header for an outgoing message.
pub fn plan_send(msg: &OutgoingMessage) -> (r: SendPlan)
    ensures
        r.dest == (match msg.to_node {
            Some(n) => n,
            None => BROADCAST_ADDR,
        }),
        r.is_dm == (msg.to_node is Some && r.dest != BROADCAST_ADDR),
        r.want_ack == r.is_dm,
        r.priority == (if msg.priority == MessagePriority::High { PRIORITY_RELIABLE } else { PRIORITY_DEFAULT }),
        r.hop_limit == HOP_LIMIT,
{
    let dest = match msg.to_node {
        Some(n) => n,
        None => BROADCAST_ADDR,
    };
    let is_dm = msg.to_node.is_some() && dest != BROADCAST_ADDR;
    SendPlan { dest, is_dm, priority: packet_priority(msg.priority), want_ack: is_dm, hop_limit: HOP_LIMIT }
}

} // verus!
