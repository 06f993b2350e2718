//! Central dispatch scheduler between the command logic and the radio writer.
//!
//! Envelopes carry a category, a priority and the earliest time at which they
//! may be sent. Each tick the scheduler picks the most urgent envelope that is
//! ready and hands it to the writer, keeping a minimum gap between sends.
use vstd::prelude::*;
use crate::clock::{now_millis_u64, MAX_MILLIS};
use crate::mesh::OutgoingMessage;

verus! {

/// Kind of scheduled message.
#[derive(Debug, Clone, Copy, PartialEq, Eq, Structural)]
pub enum MessageCategory {
    /// Direct help reply.
    DirectHelp,
    /// Public notice that follows a help request.
    HelpBroadcast,
}

/// Scheduling priority; `High` goes before `Normal`.
#[derive(Debug, Clone, Copy, PartialEq, Eq, Structural)]
pub enum Priority {
    High,
    Normal,
}

/// Rank of a priority: lower goes first.
pub open spec fn priority_rank(p: Priority) -> int {
    match p {
        Priority::High => 0,
        Priority::Normal => 1,
    }
}

/// A message waiting in the scheduler.
#[derive(Debug)]
pub struct MessageEnvelope {
    pub category: MessageCategory,
    pub priority: Priority,
    /// Earliest send time (ms).
    pub earliest: u64,
    pub msg: OutgoingMessage,
}

/// The time `delay_ms` after `now_ms`, saturating at `u64::MAX`.
pub open spec fn ready_time(now_ms: u64, delay_ms: u64) -> u64 {
    if now_ms as int + delay_ms as int <= u64::MAX {
        (now_ms + delay_ms) as u64
    } else {
        u64::MAX
    }
}

impl MessageEnvelope {
    /// An envelope that becomes ready `delay_ms` after `now_ms` (saturating).
    pub fn new_at(
        category: MessageCategory,
        priority: Priority,
        delay_ms: u64,
        msg: OutgoingMessage,
        now_ms: u64,
    ) -> (e: Self)
        ensures
            e.category == category,
            e.priority == priority,
            e.msg == msg,
            e.earliest == ready_time(now_ms, delay_ms),
    {
        let earliest = if now_ms <= u64::MAX - delay_ms {
            now_ms + delay_ms
        } else {
            u64::MAX
        };
        MessageEnvelope { category, priority, earliest, msg }
    }

    /// An envelope that becomes ready `delay_ms` from now: `earliest` is the
    /// clock's reading (ms since the epoch) plus the delay, saturating.
    pub fn new(category: MessageCategory, priority: Priority, delay_ms: u64, msg: OutgoingMessage) -> (e: Self)
        ensures
            e.category == category,
            e.priority == priority,
            e.msg == msg,
            exists|t: u64| #![trigger ready_time(t, delay_ms)] t <= MAX_MILLIS && e.earliest == ready_time(t, delay_ms),
    {
        let now = now_millis_u64();
        let e = Self::new_at(category, priority, delay_ms, msg, now);
        assert(now <= MAX_MILLIS && e.earliest == ready_time(now, delay_ms));
        e
    }
}

/// Scheduler timing parameters (ms).
#[derive(Debug, Clone, Copy)]
pub struct SchedulerConfig {
    pub min_send_gap_ms: u64,
    pub post_dm_broadcast_gap_ms: u64,
    pub help_broadcast_delay_ms: u64,
}

impl SchedulerConfig {
    /// Delay before the public help notice: the configured delay, but never less
    /// than the send gap plus the post-DM broadcast gap.
    pub fn effective_help_delay(&self) -> (d: u64)
        requires
            self.min_send_gap_ms + self.post_dm_broadcast_gap_ms <= u64::MAX,
        ensures
            d == (if self.help_broadcast_delay_ms >= self.min_send_gap_ms + self.post_dm_broadcast_gap_ms {
                self.help_broadcast_delay_ms as int
            } else {
                self.min_send_gap_ms + self.post_dm_broadcast_gap_ms
            }),
    {
        let composite = self.min_send_gap_ms + self.post_dm_broadcast_gap_ms;
        if self.help_broadcast_delay_ms >= composite {
            self.help_broadcast_delay_ms
        } else {
            composite
        }
    }
}

/// Whether envelope `a` is strictly more urgent than `b`: higher priority, or
/// equal priority and an earlier ready time.
pub open spec fn more_urgent(a: MessageEnvelope, b: MessageEnvelope) -> bool {
    priority_rank(a.priority) < priority_rank(b.priority) || (priority_rank(a.priority)
        == priority_rank(b.priority) && a.earliest < b.earliest)
}

/// Index of the envelope a tick dispatches: among those ready at `now`, the most
/// urgent, and the first in queue order among equally urgent ones; -1 if none is ready.
pub open spec fn pick_spec(q: Seq<MessageEnvelope>, now: u64) -> int
    decreases q.len(),
{
    if q.len() == 0 {
        -1
    } else {
        let r = pick_spec(q.drop_last(), now);
        let last = q.last();
        if last.earliest > now {
            r
        } else if r < 0 {
            q.len() - 1
        } else if more_urgent(last, q[r]) {
            q.len() - 1
        } else {
            r
        }
    }
}

/// Facts about [`pick_spec`].
pub proof fn lemma_pick_spec(q: Seq<MessageEnvelope>, now: u64)
    ensures
        -1 <= pick_spec(q, now) < q.len(),
        pick_spec(q, now) >= 0 ==> q[pick_spec(q, now)].earliest <= now,
        pick_spec(q, now) < 0 ==> forall|i: int| 0 <= i < q.len() ==> q[i].earliest > now,
        pick_spec(q, now) >= 0 ==> forall|i: int|
            0 <= i < q.len() && q[i].earliest <= now ==> !more_urgent(q[i], q[pick_spec(q, now)]),
    decreases q.len(),
{
    if q.len() > 0 {
        lemma_pick_spec(q.drop_last(), now);
        assert forall|i: int| 0 <= i < q.len() - 1 implies q.drop_last()[i] == q[i] by {}
        let r = pick_spec(q.drop_last(), now);
        let p = pick_spec(q, now);
        if p >= 0 {
            assert forall|i: int| 0 <= i < q.len() && q[i].earliest <= now implies !more_urgent(
                q[i],
                q[p],
            ) by {
                if i < q.len() - 1 {
                    assert(q.drop_last()[i] == q[i]);
                    if r >= 0 {
                        assert(q.drop_last()[r] == q[r]);
                        assert(!more_urgent(q[i], q[r]));
                    }
                }
            }
        }
    }
}

/// Whether a send at `now` would come less than `min_gap_ms` after the last
/// one.
pub open spec fn too_soon(last_sent: Option<u64>, now: u64, min_gap_ms: u64) -> bool {
    match last_sent {
        Some(last) => (now as int) < last as int + min_gap_ms as int,
        None => false,
    }
}

/// What one scheduler tick did.
#[derive(Debug)]
pub enum TickOutcome {
    /// Nothing is ready.
    Idle,
    /// This envelope is due and is to be handed to the writer now.
    Dispatch(MessageEnvelope),
    /// An envelope is ready, but the minimum gap since the last send has not
    /// passed: everything stays queued for a later tick.
    Waiting,
}

/// The scheduler's state: its queue and the time of its last send.
#[derive(Debug)]
pub struct SchedulerState {
    pub queue: Vec<MessageEnvelope>,
    pub last_sent: Option<u64>,
}

impl SchedulerState {
    /// An empty scheduler.
    pub fn new() -> (s: Self)
        ensures
            s.queue@.len() == 0,
            s.last_sent is None,
    {
        SchedulerState { queue: Vec::new(), last_sent: None }
    }

    /// Queues an envelope.
    pub fn enqueue(&mut self, env: MessageEnvelope)
        ensures
            final(self).queue@ == old(self).queue@.push(env),
            final(self).last_sent == old(self).last_sent,
    {
        self.queue.push(env);
    }

    /// One tick at time `now`: when the last send was at least `min_gap_ms`
    /// ago, takes the envelope chosen by [`pick_spec`] off the queue to be
    /// dispatched; otherwise the queue is kept as it is.
    pub fn tick(&mut self, now: u64, min_gap_ms: u64) -> (r: TickOutcome)
        ensures
            final(self).last_sent == old(self).last_sent,
            pick_spec(old(self).queue@, now) < 0 ==> r is Idle && final(self).queue@ == old(self).queue@,
            pick_spec(old(self).queue@, now) >= 0 ==> ({
                let i = pick_spec(old(self).queue@, now);
                let e = old(self).queue@[i];
                if too_soon(old(self).last_sent, now, min_gap_ms) {
                    r is Waiting && final(self).queue@ == old(self).queue@
                } else {
                    r == TickOutcome::Dispatch(e) && final(self).queue@ == old(self).queue@.remove(i)
                }
            }),
    {
        proof {
            lemma_pick_spec(self.queue@, now);
        }
        let n = self.queue.len();
        let mut best: Option<usize> = None;
        let mut i: usize = 0;
        while i < n
            invariant
                i <= n,
                n == self.queue@.len(),
                best matches Some(b) ==> b == pick_spec(self.queue@.take(i as int), now),
                best is None ==> pick_spec(self.queue@.take(i as int), now) < 0,
            decreases n - i,
        {
            let ghost pre = self.queue@.take(i as int);
            assert(self.queue@.take(i + 1).drop_last() =~= pre);
            proof {
                lemma_pick_spec(pre, now);
            }
            let e = &self.queue[i];
            if e.earliest <= now {
                match best {
                    None => {
                        best = Some(i);
                    },
                    Some(b) => {
                        let cur = &self.queue[b];
                        let e_rank: u8 = match e.priority {
                            Priority::High => 0,
                            Priority::Normal => 1,
                        };
                        let b_rank: u8 = match cur.priority {
                            Priority::High => 0,
                            Priority::Normal => 1,
                        };
                        if e_rank < b_rank || (e_rank == b_rank && e.earliest < cur.earliest) {
                            best = Some(i);
                        }
                    },
                }
            }
            i = i + 1;
        }
        assert(self.queue@.take(n as int) =~= self.queue@);
        match best {
            None => TickOutcome::Idle,
            Some(b) => {
                let wait = match self.last_sent {
                    Some(last) => (now as u128) < (last as u128) + (min_gap_ms as u128),
                    None => false,
                };
                if wait {
                    TickOutcome::Waiting
                } else {
                    TickOutcome::Dispatch(self.queue.remove(b))
                }
            },
        }
    }

    /// Records that a dispatched message reached the writer at `now`.
    pub fn record_sent(&mut self, now: u64)
        ensures
            final(self).last_sent == Some(now),
            final(self).queue@ == old(self).queue@,
    {
        self.last_sent = Some(now);
    }

    /// One step of the scheduler at `now` (see [`step_spec`]): a tick, and
    /// when it dispatches, the send recorded at `now`. Gives the envelope to
    /// hand to the writer, if any.
    pub fn step(&mut self, now: u64, min_gap_ms: u64) -> (r: Option<MessageEnvelope>)
        ensures
            (final(self).queue@, final(self).last_sent, r) == step_spec(old(self).queue@, old(self).last_sent, now, min_gap_ms),
    {
        match self.tick(now, min_gap_ms) {
            TickOutcome::Dispatch(e) => {
                self.record_sent(now);
                Some(e)
            },
            _ => None,
        }
    }
}

/// One scheduler step at `now` on queue `q` with last send `last`: the
/// queue and last send time after it, and the envelope sent, if any. The
/// envelope [`pick_spec`] chooses is sent unless nothing is ready or the
/// minimum gap has not passed.
pub open spec fn step_spec(q: Seq<MessageEnvelope>, last: Option<u64>, now: u64, min_gap_ms: u64) -> (
    Seq<MessageEnvelope>,
    Option<u64>,
    Option<MessageEnvelope>,
) {
    let i = pick_spec(q, now);
    if i < 0 || too_soon(last, now, min_gap_ms) {
        (q, last, None)
    } else {
        (q.remove(i), Some(now), Some(q[i]))
    }
}

/// Steps at the times `times`, one after the other, from queue `q` and last
/// send `last`: the queue and last send time at the end, the envelopes sent
/// in order, and the time of each send.
pub open spec fn run_spec(q: Seq<MessageEnvelope>, last: Option<u64>, times: Seq<u64>, min_gap_ms: u64) -> (
    Seq<MessageEnvelope>,
    Option<u64>,
    Seq<MessageEnvelope>,
    Seq<u64>,
)
    decreases times.len(),
{
    if times.len() == 0 {
        (q, last, Seq::empty(), Seq::empty())
    } else {
        let first = step_spec(q, last, times[0], min_gap_ms);
        let rest = run_spec(first.0, first.1, times.drop_first(), min_gap_ms);
        match first.2 {
            Some(e) => (rest.0, rest.1, seq![e] + rest.2, seq![times[0]] + rest.3),
            None => rest,
        }
    }
}

/// Over any run of steps: every envelope queued is either sent once or still
/// queued (none is lost or sent twice); each is sent only once it is ready;
/// sends come at least `min_gap_ms` apart, and after the send before the
/// run; an envelope sent later that was already ready at an earlier send is
/// never more urgent than the one sent then; the last send time is that of
/// the last send.
pub proof fn lemma_scheduler_run(q: Seq<MessageEnvelope>, last: Option<u64>, times: Seq<u64>, min_gap_ms: u64)
    ensures
        ({
            let r = run_spec(q, last, times, min_gap_ms);
            &&& r.2.len() == r.3.len()
            &&& (r.2 + r.0).to_multiset() == q.to_multiset()
            &&& forall|k: int| 0 <= k < r.2.len() ==> #[trigger] r.2[k].earliest <= r.3[k]
            &&& forall|k: int| 0 <= k && k + 1 < r.3.len() ==> #[trigger] r.3[k] + min_gap_ms <= r.3[k + 1]
            &&& (r.3.len() > 0 && last is Some) ==> last->0 + min_gap_ms <= r.3[0]
            &&& forall|k: int, m: int|
                0 <= k < m < r.2.len() && r.2[m].earliest <= r.3[k] ==> !more_urgent(#[trigger] r.2[m], #[trigger] r.2[k])
            &&& r.3.len() > 0 ==> r.1 == Some(r.3.last())
            &&& r.3.len() == 0 ==> r.1 == last
        }),
    decreases times.len(),
{
    broadcast use vstd::seq_lib::group_to_multiset_ensures, vstd::multiset::group_multiset_axioms;

    if times.len() > 0 {
        let now = times[0];
        let first = step_spec(q, last, now, min_gap_ms);
        lemma_scheduler_run(first.0, first.1, times.drop_first(), min_gap_ms);
        let rest = run_spec(first.0, first.1, times.drop_first(), min_gap_ms);
        let r = run_spec(q, last, times, min_gap_ms);
        lemma_pick_spec(q, now);
        match first.2 {
            Some(e) => {
                let i = pick_spec(q, now);
                assert(e == q[i]);
                assert(r.2 == seq![e] + rest.2);
                assert(r.3 == seq![now] + rest.3);
                vstd::seq_lib::lemma_multiset_commutative(seq![e], rest.2);
                vstd::seq_lib::lemma_multiset_commutative(seq![e] + rest.2, rest.0);
                vstd::seq_lib::lemma_multiset_commutative(rest.2, rest.0);
                vstd::seq_lib::to_multiset_remove(q, i);
                assert(seq![e] + rest.2 + rest.0 == r.2 + r.0);
                assert(seq![e].to_multiset() =~= vstd::multiset::Multiset::empty().insert(e)) by {
                    assert(seq![e] == Seq::<MessageEnvelope>::empty().push(e));
                }
                assert(q.to_multiset().count(e) > 0) by {
                    assert(q.contains(e));
                }
                let one = vstd::multiset::Multiset::<MessageEnvelope>::empty().insert(e);
                assert((seq![e] + rest.2).to_multiset() =~= one.add(rest.2.to_multiset()));
                assert((rest.2 + rest.0).to_multiset() =~= rest.2.to_multiset().add(rest.0.to_multiset()));
                assert(rest.2.to_multiset().add(rest.0.to_multiset()) == q.to_multiset().remove(e));
                assert((r.2 + r.0).to_multiset() =~= one.add(rest.2.to_multiset()).add(rest.0.to_multiset()));
                assert(one.add(q.to_multiset().remove(e)) =~= q.to_multiset());
                assert((r.2 + r.0).to_multiset() =~= q.to_multiset());
                assert forall|k: int| 0 <= k < r.2.len() implies #[trigger] r.2[k].earliest <= r.3[k] by {
                    if k > 0 {
                        assert(r.2[k] == rest.2[k - 1]);
                        assert(r.3[k] == rest.3[k - 1]);
                    }
                }
                assert forall|k: int| 0 <= k && k + 1 < r.3.len() implies #[trigger] r.3[k] + min_gap_ms <= r.3[k + 1] by {
                    if k > 0 {
                        assert(r.3[k] == rest.3[k - 1]);
                        assert(r.3[k + 1] == rest.3[k]);
                    }
                }
                assert forall|k: int, m: int|
                    0 <= k < m < r.2.len() && r.2[m].earliest <= r.3[k] implies !more_urgent(
                    #[trigger] r.2[m],
                    #[trigger] r.2[k],
                ) by {
                    assert(r.2[m] == rest.2[m - 1]);
                    if k > 0 {
                        assert(r.2[k] == rest.2[k - 1]);
                        assert(r.3[k] == rest.3[k - 1]);
                    } else {
                        let x = rest.2[m - 1];
                        assert((rest.2 + rest.0)[m - 1] == x);
                        assert((rest.2 + rest.0).contains(x));
                        assert((rest.2 + rest.0).to_multiset().count(x) > 0);
                        assert(first.0.to_multiset().count(x) > 0);
                        assert(first.0.contains(x));
                        let j = choose|j: int| 0 <= j < first.0.len() && first.0[j] == x;
                        if j < i {
                            assert(q[j] == x);
                        } else {
                            assert(q[j + 1] == x);
                        }
                    }
                }
                if rest.3.len() > 0 {
                    assert(r.3.last() == rest.3.last());
                }
            },
            None => {
                assert(r == rest);
            },
        }
    }
}

/// A dispatched envelope is never less urgent than any other ready envelope.
pub proof fn lemma_dispatch_is_most_urgent(q: Seq<MessageEnvelope>, now: u64, j: int)
    requires
        pick_spec(q, now) >= 0,
        0 <= j < q.len(),
        q[j].earliest <= now,
    ensures
        q[pick_spec(q, now)].earliest <= now,
        !more_urgent(q[j], q[pick_spec(q, now)]),
{
    lemma_pick_spec(q, now);
}

} // verus!
