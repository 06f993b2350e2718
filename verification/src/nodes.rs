//! The cache of mesh nodes that have been heard, and the node lines that the
//! radio reader reports.
//!
//! Times are milliseconds since the Unix epoch.
use vstd::prelude::*;
use std::collections::HashMap;
use crate::text::{to_owned_string, trim, trim_spec, parse_u32, parse_u32_spec, starts_with, write_hex, hex_spec,
    push_char, substring};
use crate::clock::valid_millis;

verus! {

broadcast use vstd::std_specs::hash::group_hash_axioms;

/// What is known of a node.
#[derive(Debug, Clone)]
pub struct CachedNodeInfo {
    pub node_id: u32,
    pub long_name: String,
    pub short_name: String,
    pub last_seen: i64,
    pub first_seen: i64,
}

/// The nodes heard, by id.
#[derive(Debug)]
pub struct NodeCache {
    pub nodes: HashMap<u32, CachedNodeInfo>,
    pub last_updated: i64,
}

impl NodeCache {
    /// An empty cache, updated at `now`.
    pub fn new_at(now: i64) -> (c: Self)
        ensures
            c.nodes@ == Map::<u32, CachedNodeInfo>::empty(),
            c.last_updated == now,
    {
        NodeCache { nodes: HashMap::new(), last_updated: now }
    }

    /// Records node `node_id` with its names, heard at `now`: a known node
    /// keeps the time it was first heard.
    pub fn update_node_at(&mut self, node_id: u32, long_name: String, short_name: String, now: i64)
        ensures
            final(self).nodes@ == old(self).nodes@.insert(node_id, CachedNodeInfo {
                node_id,
                long_name,
                short_name,
                last_seen: now,
                first_seen: if old(self).nodes@.contains_key(node_id) {
                    old(self).nodes@[node_id].first_seen
                } else {
                    now
                },
            }),
            final(self).last_updated == now,
    {
        let first_seen = match self.nodes.get(&node_id) {
            Some(n) => n.first_seen,
            None => now,
        };
        self.nodes.insert(node_id, CachedNodeInfo { node_id, long_name, short_name, last_seen: now, first_seen });
        self.last_updated = now;
    }

    /// Records node `node_id` with its names, heard now.
    pub fn update_node(&mut self, node_id: u32, long_name: String, short_name: String)
        ensures
            exists|now: i64| #![trigger valid_millis(now as int)] valid_millis(now as int)
                && final(self).nodes@ == old(self).nodes@.insert(node_id, CachedNodeInfo {
                    node_id,
                    long_name,
                    short_name,
                    last_seen: now,
                    first_seen: if old(self).nodes@.contains_key(node_id) {
                        old(self).nodes@[node_id].first_seen
                    } else {
                        now
                    },
                }) && final(self).last_updated == now,
    {
        let now = crate::clock::now_millis();
        self.update_node_at(node_id, long_name, short_name, now);
        assert(valid_millis(now as int));
    }

    /// Ids of the nodes last heard at or before `cutoff`, each once.
    fn stale_ids(&self, cutoff: i64) -> (r: Vec<u32>)
        ensures
            r@.no_duplicates(),
            forall|id: u32|
                #![trigger r@.contains(id)]
                r@.contains(id) <==> self.nodes@.contains_key(id) && self.nodes@[id].last_seen <= cutoff,
    {
        let mut r: Vec<u32> = Vec::new();
        for k in it: self.nodes.keys()
            invariant
                r@.no_duplicates(),
                it.seq().no_duplicates(),
                it.seq().unref().to_set() == self.nodes@.dom(),
                forall|i: int|
                    0 <= i < r@.len() ==> self.nodes@.contains_key(#[trigger] r@[i]) && self.nodes@[r@[i]].last_seen
                        <= cutoff && exists|j: int| 0 <= j < it.index() && *it.seq()[j] == r@[i],
                forall|j: int|
                    0 <= j < it.index() ==> (self.nodes@[*it.seq()[j]].last_seen <= cutoff ==> r@.contains(
                        *it.seq()[j],
                    )),
        {
            let ghost before = r@;
            let ghost idx = it.index();
            let v = self.nodes.get(k).unwrap();
            if v.last_seen <= cutoff {
                proof {
                    assert forall|i: int| 0 <= i < before.len() implies before[i] != *k by {
                        let j = choose|j: int| 0 <= j < idx && *it.seq()[j] == before[i];
                        assert(it.seq()[j] != it.seq()[idx]);
                    }
                }
                r.push(*k);
                assert(r@[r@.len() - 1] == *k);
            }
            assert forall|i: int| 0 <= i < r@.len() implies self.nodes@.contains_key(#[trigger] r@[i])
                && self.nodes@[r@[i]].last_seen <= cutoff && exists|j: int| 0 <= j < idx + 1 && *it.seq()[j] == r@[i] by {
                if i < before.len() {
                    assert(r@[i] == before[i]);
                    let j = choose|j: int| 0 <= j < idx && *it.seq()[j] == before[i];
                    assert(0 <= j < idx + 1 && *it.seq()[j] == r@[i]);
                } else {
                    assert(*it.seq()[idx] == r@[i]);
                }
            }
            assert forall|j: int| 0 <= j < idx + 1 implies (self.nodes@[*it.seq()[j]].last_seen <= cutoff
                ==> r@.contains(*it.seq()[j])) by {
                if j < idx && self.nodes@[*it.seq()[j]].last_seen <= cutoff {
                    let w = choose|w: int| 0 <= w < before.len() && before[w] == *it.seq()[j];
                    assert(r@[w] == before[w]);
                }
            }
        }
        r
    }

    /// Forgets the nodes not heard for `max_age_days` days before `now` (last
    /// heard at or before that time); returns how many were forgotten and, if
    /// any, records `now` as the update time.
    pub fn remove_stale_nodes_at(&mut self, max_age_days: u32, now: i64) -> (removed: usize)
        requires
            valid_millis(now as int),
            valid_millis(now - max_age_days * 86_400_000),
        ensures
            forall|id: u32| #[trigger] final(self).nodes@.contains_key(id) <==> old(self).nodes@.contains_key(id)
                && old(self).nodes@[id].last_seen > now - max_age_days * 86_400_000,
            forall|id: u32| #[trigger] final(self).nodes@.contains_key(id) ==> final(self).nodes@[id] == old(self).nodes@[id],
            removed + final(self).nodes@.len() == old(self).nodes@.len(),
            final(self).last_updated == if removed > 0 { now } else { old(self).last_updated },
    {
        let cutoff = now - (max_age_days as i64) * 86_400_000;
        let stale = self.stale_ids(cutoff);
        let ghost orig = self.nodes@;
        let n = stale.len();
        let mut t: usize = 0;
        while t < n
            invariant
                t <= n,
                n == stale@.len(),
                stale@.no_duplicates(),
                forall|id: u32| #![trigger stale@.contains(id)] stale@.contains(id) <==> orig.contains_key(id)
                    && orig[id].last_seen <= cutoff,
                forall|id: u32| #[trigger] self.nodes@.contains_key(id) <==> orig.contains_key(id) && !stale@.take(
                    t as int,
                ).contains(id),
                forall|id: u32| #[trigger] self.nodes@.contains_key(id) ==> self.nodes@[id] == orig[id],
                self.nodes@.len() + t == orig.len(),
                self.nodes@.dom().finite(),
                self.last_updated == old(self).last_updated,
            decreases n - t,
        {
            let id = stale[t];
            proof {
                assert(stale@.contains(id));
                assert(!stale@.take(t as int).contains(id)) by {
                    if stale@.take(t as int).contains(id) {
                        let j = choose|j: int| 0 <= j < t && #[trigger] stale@.take(t as int)[j] == id;
                        assert(stale@[j] == stale@[t as int]);
                    }
                }
                assert(self.nodes@.contains_key(id));
                self.nodes@.lemma_remove_key_len(id);
            }
            self.nodes.remove(&id);
            proof {
                assert forall|k: u32| #[trigger] stale@.take(t + 1).contains(k) <==> stale@.take(t as int).contains(k)
                    || k == id by {
                    assert(stale@.take(t + 1) =~= stale@.take(t as int).push(id));
                    if stale@.take(t + 1).contains(k) && k != id {
                        let j = choose|j: int| 0 <= j < t + 1 && #[trigger] stale@.take(t + 1)[j] == k;
                        assert(stale@.take(t as int)[j] == k);
                    }
                    if stale@.take(t as int).contains(k) {
                        let j = choose|j: int| 0 <= j < t && #[trigger] stale@.take(t as int)[j] == k;
                        assert(stale@.take(t + 1)[j] == k);
                    }
                    if k == id {
                        assert(stale@.take(t + 1)[t as int] == k);
                    }
                }
            }
            t = t + 1;
        }
        proof {
            assert(stale@.take(n as int) =~= stale@);
        }
        if n > 0 {
            self.last_updated = now;
        }
        n
    }
}

/// The names of a node line: the given short name (trimmed) when not blank,
/// else the first four characters of the long name in upper case, else four
/// hex digits of the id.
pub open spec fn summary_short_name(id: u32, long_name: Seq<char>, short_name: Seq<char>) -> Seq<char> {
    if trim_spec(short_name).len() > 0 {
        trim_spec(short_name)
    } else if long_name.len() > 0 {
        crate::text::uppercase_spec(long_name.take(if long_name.len() < 4 { long_name.len() as int } else { 4 }))
    } else {
        hex_spec((id as nat) % 0x10000, 4, true)
    }
}

/// The parts of `s` between colons.
pub open spec fn colon_parts(s: Seq<char>) -> Seq<Seq<char>>
    decreases s.len(),
{
    crate::text::split_char_spec(s, ':')
}

/// A node line `NODE:<id>:<long name>:<short name>` (the names may be
/// missing) as the id, long name and short name recorded for it; `None` for
/// other lines and for ids that are not numbers.
pub open spec fn node_summary_spec(summary: Seq<char>) -> Option<(u32, Seq<char>, Seq<char>)> {
    let parts = colon_parts(summary);
    if !(summary.len() >= 5 && summary.take(5) == "NODE:"@) || parts.len() < 2 {
        None
    } else {
        match parse_u32_spec(parts[1]) {
            None => None,
            Some(id) => {
                let long_name = if parts.len() >= 3 { parts[2] } else { Seq::empty() };
                let short_raw = if parts.len() >= 4 { parts[3] } else { Seq::empty() };
                Some((id, long_name, summary_short_name(id, long_name, short_raw)))
            },
        }
    }
}

/// Reads a node line (see [`node_summary_spec`]).
pub fn parse_node_summary(summary: &str) -> (r: Option<(u32, String, String)>)
    ensures
        match node_summary_spec(summary@) {
            Some((id, l, s)) => r matches Some(x) && x.0 == id && x.1@ == l && x.2@ == s,
            None => r is None,
        },
{
    let is_node = starts_with(summary, "NODE:");
    proof {
        reveal_strlit("NODE:");
        if is_node {
            assert(summary@.subrange(0, 5) =~= summary@.take(5));
        } else if summary@.len() >= 5 {
            assert(summary@.subrange(0, 5) =~= summary@.take(5));
        }
    }
    let parts = crate::text::split_char(summary, ':');
    let ghost ps = crate::text::string_views(parts@);
    if !is_node || parts.len() < 2 {
        return None;
    }
    assert(ps[1] == parts@[1]@);
    let id = match parse_u32(parts[1].as_str()) {
        Some(id) => id,
        None => return None,
    };
    let long_name = if parts.len() >= 3 {
        assert(ps[2] == parts@[2]@);
        parts[2].clone()
    } else {
        String::new()
    };
    let short_raw = if parts.len() >= 4 {
        assert(ps[3] == parts@[3]@);
        parts[3].as_str()
    } else {
        ""
    };
    proof {
        reveal_strlit("");
    }
    let st = trim(short_raw);
    let short_name = if st.unicode_len() > 0 {
        to_owned_string(st)
    } else if long_name.as_str().unicode_len() > 0 {
        let n = long_name.as_str().unicode_len();
        let k = if n < 4 { n } else { 4 };
        let head = substring(long_name.as_str(), 0, k);
        assert(head@ =~= long_name@.take(k as int));
        crate::text::to_uppercase(head)
    } else {
        let mut s = String::new();
        write_hex(&mut s, (id % 0x10000) as u64, 4, true);
        assert(s@ =~= hex_spec((id as nat) % 0x10000, 4, true));
        s
    };
    Some((id, long_name, short_name))
}

} // verus!
