//! What the link to a Meshtastic radio knows: how far the configuration
//! handshake has come, which node this radio is, and the nodes it has heard.
//!
//! Opening the serial port and encoding the radio's protocol messages happen
//! outside; this state decides what they are asked to do.
use vstd::prelude::*;
use std::collections::HashMap;
use crate::clock::{now_millis, now_millis_u64, valid_millis};
use crate::random::random_u32;
use crate::mesh::{node_label, node_label_spec};
use crate::nodes::{NodeCache, CachedNodeInfo, colon_parts, node_summary_spec, parse_node_summary};
use crate::text::{has_prefix, hex_spec, parse_u32, parse_u32_spec, split_char, starts_with, str_eq, string_views,
    to_owned_string, write_hex};

verus! {

broadcast use vstd::std_specs::hash::group_hash_axioms;

/// The names a node announced for itself.
#[derive(Debug, Clone)]
pub struct NodeUser {
    pub long_name: String,
    pub short_name: String,
}

/// What the radio's node table holds on one node.
#[derive(Debug, Clone)]
pub struct NodeInfo {
    pub num: u32,
    pub user: Option<NodeUser>,
}

/// The state of the link to one radio.
#[derive(Debug)]
pub struct MeshtasticDevice {
    pub port_name: String,
    pub baud_rate: u32,
    /// Id of the configuration request sent to the radio, once one was made.
    pub config_request_id: Option<u32>,
    pub have_my_info: bool,
    pub have_radio_config: bool,
    pub have_module_config: bool,
    /// The radio has finished answering our configuration request.
    pub config_complete: bool,
    /// Node table, by node number.
    pub nodes: HashMap<u32, NodeInfo>,
    pub node_cache: NodeCache,
    pub cache_file_path: String,
    /// When the configuration request was last sent (ms since the epoch).
    pub last_want_config_sent: Option<u64>,
    /// This radio's own node number, once it reported it.
    pub our_node_id: Option<u32>,
}

/// The long name the node table holds for `id`, if any.
pub open spec fn long_name_of(nodes: Map<u32, NodeInfo>, id: u32) -> Option<Seq<char>> {
    if nodes.contains_key(id) {
        match nodes[id].user {
            Some(u) => Some(u.long_name@),
            None => None,
        }
    } else {
        None
    }
}

/// The short name the node table holds for `id`, if any.
pub open spec fn short_name_of(nodes: Map<u32, NodeInfo>, id: u32) -> Option<Seq<char>> {
    if nodes.contains_key(id) {
        match nodes[id].user {
            Some(u) => Some(u.short_name@),
            None => None,
        }
    } else {
        None
    }
}

/// The number in the second colon-separated field of `s`, when there is such
/// a field and it is a number.
pub open spec fn second_field_spec(s: Seq<char>) -> Option<u32> {
    let parts = colon_parts(s);
    if parts.len() >= 2 {
        parse_u32_spec(parts[1])
    } else {
        None
    }
}

/// The node table entry for node `id` that announced these names: names are
/// kept only when the long name is not empty.
pub open spec fn announced(n: NodeInfo, id: u32, long_name: Seq<char>, short_name: Seq<char>) -> bool {
    &&& n.num == id
    &&& match n.user {
        Some(u) => long_name.len() > 0 && u.long_name@ == long_name && u.short_name@ == short_name,
        None => long_name.len() == 0,
    }
}

/// `after` is the node cache `before` with node `id` heard at `now` under
/// these names.
pub open spec fn heard(
    before: Map<u32, CachedNodeInfo>,
    after: Map<u32, CachedNodeInfo>,
    id: u32,
    long_name: Seq<char>,
    short_name: Seq<char>,
    now: i64,
) -> bool {
    &&& after.contains_key(id)
    &&& after[id].node_id == id
    &&& after[id].long_name@ == long_name
    &&& after[id].short_name@ == short_name
    &&& after[id].last_seen == now
    &&& after[id].first_seen == if before.contains_key(id) { before[id].first_seen } else { now }
    &&& after.remove(id) == before.remove(id)
}

/// The kinds of reader line exclude each other.
proof fn lemma_line_kinds_exclusive(s: Seq<char>)
    ensures
        has_prefix(s, "MYINFO:"@) ==> !has_prefix(s, "NODE:"@) && s != "CONFIG"@ && s != "MODULE_CONFIG"@
            && !has_prefix(s, "CONFIG_COMPLETE:"@),
        has_prefix(s, "NODE:"@) ==> s != "CONFIG"@ && s != "MODULE_CONFIG"@ && !has_prefix(s, "CONFIG_COMPLETE:"@),
        s == "CONFIG"@ || s == "MODULE_CONFIG"@ ==> !has_prefix(s, "CONFIG_COMPLETE:"@),
        node_summary_spec(s) is Some ==> has_prefix(s, "NODE:"@),
{
    reveal_strlit("MYINFO:");
    reveal_strlit("NODE:");
    reveal_strlit("CONFIG");
    reveal_strlit("MODULE_CONFIG");
    reveal_strlit("CONFIG_COMPLETE:");
    if has_prefix(s, "MYINFO:"@) {
        assert(s[0] == s.take(7)[0]);
        assert(s[1] == s.take(7)[1]);
        if has_prefix(s, "NODE:"@) {
            assert(s[0] == s.take(5)[0]);
        }
        if has_prefix(s, "CONFIG_COMPLETE:"@) {
            assert(s[0] == s.take(16)[0]);
        }
    }
    if has_prefix(s, "NODE:"@) {
        assert(s[0] == s.take(5)[0]);
        if has_prefix(s, "CONFIG_COMPLETE:"@) {
            assert(s[0] == s.take(16)[0]);
        }
    }
}

/// The number in the second colon-separated field of `s`, if any.
fn second_field(s: &str) -> (r: Option<u32>)
    ensures
        r == second_field_spec(s@),
{
    let parts = split_char(s, ':');
    let ghost ps = string_views(parts@);
    if parts.len() >= 2 {
        assert(ps[1] == parts@[1]@);
        parse_u32(parts[1].as_str())
    } else {
        None
    }
}

/// `after` is `before` once the reader's line `summary` is taken in, a node
/// line heard at `now`.
pub open spec fn summary_applied(before: MeshtasticDevice, after: MeshtasticDevice, summary: Seq<char>, now: i64) -> bool {
    let myinfo = has_prefix(summary, "MYINFO:"@);
    let field = second_field_spec(summary);
    &&& after.have_my_info == (before.have_my_info || myinfo)
    &&& after.have_radio_config == (before.have_radio_config || summary == "CONFIG"@)
    &&& after.have_module_config == (before.have_module_config || summary == "MODULE_CONFIG"@)
    &&& after.config_complete == (before.config_complete || (has_prefix(summary, "CONFIG_COMPLETE:"@)
        && field is Some && before.config_request_id == field))
    &&& after.our_node_id == if myinfo && field is Some { field } else { before.our_node_id }
    &&& match node_summary_spec(summary) {
        Some((id, l, s)) => {
            &&& after.nodes@.contains_key(id)
            &&& announced(after.nodes@[id], id, l, s)
            &&& after.nodes@.remove(id) == before.nodes@.remove(id)
            &&& heard(before.node_cache.nodes@, after.node_cache.nodes@, id, l, s, now)
            &&& after.node_cache.last_updated == now
        },
        None => after.nodes@ == before.nodes@ && after.node_cache == before.node_cache,
    }
    &&& after.port_name == before.port_name
    &&& after.baud_rate == before.baud_rate
    &&& after.config_request_id == before.config_request_id
    &&& after.cache_file_path == before.cache_file_path
    &&& after.last_want_config_sent == before.last_want_config_sent
}

/// How long an unanswered configuration request waits before it is sent
/// again, in milliseconds.
pub const WANT_CONFIG_RESEND_MS: u64 = 7000;

/// The configuration request to send at `now` (ms since the epoch), if any: a
/// first request takes the id `fresh` (1 in place of 0); an open request goes
/// out again once more than seven seconds passed since it last did, until
/// the handshake is done.
pub open spec fn want_config_to_send(d: MeshtasticDevice, now: u64, fresh: u32) -> Option<u32> {
    match d.config_request_id {
        None => Some(if fresh == 0 { 1 } else { fresh }),
        Some(id) => if d.config_complete && d.have_my_info && d.have_radio_config {
            None
        } else {
            match d.last_want_config_sent {
                Some(last) => if now - last > WANT_CONFIG_RESEND_MS { Some(id) } else { None },
                None => None,
            }
        },
    }
}

/// The state once [`want_config_to_send`] was decided: the request id is
/// kept, and the time of sending recorded when a request goes out.
pub open spec fn want_config_after(d: MeshtasticDevice, now: u64, fresh: u32) -> MeshtasticDevice {
    match want_config_to_send(d, now, fresh) {
        Some(id) => MeshtasticDevice { config_request_id: Some(id), last_want_config_sent: Some(now), ..d },
        None => d,
    }
}

/// `after` is the node cache `before` without the nodes last heard
/// `max_age_days` days or longer before `now`; `removed` of them went.
pub open spec fn pruned(before: NodeCache, after: NodeCache, max_age_days: u32, now: i64, removed: usize) -> bool {
    &&& forall|id: u32| #[trigger] after.nodes@.contains_key(id) <==> before.nodes@.contains_key(id)
        && before.nodes@[id].last_seen > now - max_age_days * 86_400_000
    &&& forall|id: u32| #[trigger] after.nodes@.contains_key(id) ==> after.nodes@[id] == before.nodes@[id]
    &&& removed + after.nodes@.len() == before.nodes@.len()
    &&& after.last_updated == if removed > 0 { now } else { before.last_updated }
}

/// The node table entry made for a node that only the cache knows.
pub open spec fn from_cache(n: NodeInfo, id: u32, c: CachedNodeInfo) -> bool {
    &&& n.num == id
    &&& n.user matches Some(u) && u.long_name@ == c.long_name@ && u.short_name@ == c.short_name@
}

/// `after` is `before` with the node table completed from `cache`: nodes the
/// table knows keep their entry, the others are taken from the cache, which
/// becomes the device's node cache.
pub open spec fn merged(before: MeshtasticDevice, after: MeshtasticDevice, cache: NodeCache) -> bool {
    &&& after.nodes@.dom() == before.nodes@.dom() + cache.nodes@.dom()
    &&& forall|id: u32| #[trigger] before.nodes@.contains_key(id) ==> after.nodes@[id] == before.nodes@[id]
    &&& forall|id: u32| !before.nodes@.contains_key(id) && #[trigger] cache.nodes@.contains_key(id)
        ==> from_cache(after.nodes@[id], id, cache.nodes@[id])
    &&& after.node_cache == cache
    &&& after == MeshtasticDevice { nodes: after.nodes, node_cache: after.node_cache, ..before }
}

impl MeshtasticDevice {
    /// A link on `port_name` at `baud_rate` that has learnt nothing yet, its
    /// node cache empty as of `now`.
    pub fn new_at(port_name: &str, baud_rate: u32, now: i64) -> (d: Self)
        ensures
            d.port_name@ == port_name@,
            d.baud_rate == baud_rate,
            d.config_request_id is None,
            !d.have_my_info,
            !d.have_radio_config,
            !d.have_module_config,
            !d.config_complete,
            d.nodes@ == Map::<u32, NodeInfo>::empty(),
            d.node_cache.nodes@ == Map::<u32, CachedNodeInfo>::empty(),
            d.node_cache.last_updated == now,
            d.cache_file_path@ == "data/node_cache.json"@,
            d.last_want_config_sent is None,
            d.our_node_id is None,
    {
        MeshtasticDevice {
            port_name: to_owned_string(port_name),
            baud_rate,
            config_request_id: None,
            have_my_info: false,
            have_radio_config: false,
            have_module_config: false,
            config_complete: false,
            nodes: HashMap::new(),
            node_cache: NodeCache::new_at(now),
            cache_file_path: to_owned_string("data/node_cache.json"),
            last_want_config_sent: None,
            our_node_id: None,
        }
    }

    /// A link on `port_name` at `baud_rate` that has learnt nothing yet.
    pub fn new(port_name: &str, baud_rate: u32) -> (d: Self)
        ensures
            d.port_name@ == port_name@,
            d.baud_rate == baud_rate,
            d.config_request_id is None,
            !d.have_my_info,
            !d.have_radio_config,
            !d.have_module_config,
            !d.config_complete,
            d.nodes@ == Map::<u32, NodeInfo>::empty(),
            d.node_cache.nodes@ == Map::<u32, CachedNodeInfo>::empty(),
            valid_millis(d.node_cache.last_updated as int),
            d.cache_file_path@ == "data/node_cache.json"@,
            d.last_want_config_sent is None,
            d.our_node_id is None,
    {
        Self::new_at(port_name, baud_rate, now_millis())
    }

    /// The long name of node `id`, trimmed, or `0x` and six hex digits of it.
    pub fn format_node_label(&self, id: u32) -> (r: String)
        ensures
            r@ == node_label_spec(id, long_name_of(self.nodes@, id)),
    {
        let name: Option<&str> = match self.nodes.get(&id) {
            Some(info) => match &info.user {
                Some(u) => Some(u.long_name.as_str()),
                None => None,
            },
            None => None,
        };
        node_label(id, name)
    }

    /// The short name of node `id`, trimmed, or `0x` and six hex digits of it.
    pub fn format_node_short_label(&self, id: u32) -> (r: String)
        ensures
            r@ == node_label_spec(id, short_name_of(self.nodes@, id)),
    {
        let name: Option<&str> = match self.nodes.get(&id) {
            Some(info) => match &info.user {
                Some(u) => Some(u.short_name.as_str()),
                None => None,
            },
            None => None,
        };
        node_label(id, name)
    }

    /// Both labels of node `id`: short, then long.
    pub fn format_node_combined(&self, id: u32) -> (r: (String, String))
        ensures
            r.0@ == node_label_spec(id, short_name_of(self.nodes@, id)),
            r.1@ == node_label_spec(id, long_name_of(self.nodes@, id)),
    {
        let short = self.format_node_short_label(id);
        let long = self.format_node_label(id);
        (short, long)
    }

    /// This radio's node number, once known.
    pub fn our_node_id(&self) -> (r: Option<u32>)
        ensures
            r == self.our_node_id,
    {
        self.our_node_id
    }

    pub fn is_config_complete(&self) -> (r: bool)
        ensures
            r == self.config_complete,
    {
        self.config_complete
    }

    pub fn have_my_info(&self) -> (r: bool)
        ensures
            r == self.have_my_info,
    {
        self.have_my_info
    }

    pub fn have_radio_config(&self) -> (r: bool)
        ensures
            r == self.have_radio_config,
    {
        self.have_radio_config
    }

    pub fn have_module_config(&self) -> (r: bool)
        ensures
            r == self.have_module_config,
    {
        self.have_module_config
    }

    /// How many nodes the node table holds.
    pub fn node_count(&self) -> (r: usize)
        ensures
            r == self.nodes@.len(),
    {
        self.nodes.len()
    }

    /// The configuration request id as `0x` and eight lower-case hex digits.
    pub fn config_request_id_hex(&self) -> (r: Option<String>)
        ensures
            match self.config_request_id {
                Some(id) => r matches Some(s) && s@ == "0x"@ + hex_spec(id as nat, 8, false),
                None => r is None,
            },
    {
        match self.config_request_id {
            Some(id) => {
                let mut s = to_owned_string("0x");
                write_hex(&mut s, id as u64, 8, false);
                Some(s)
            },
            None => None,
        }
    }

    /// Takes in one line that the radio reader reports (`MYINFO:<id>`,
    /// `NODE:<id>:<long>:<short>`, `CONFIG`, `MODULE_CONFIG`,
    /// `CONFIG_COMPLETE:<id>`), a node line heard at `now`. Returns whether
    /// the node cache changed, and so is to be saved.
    pub fn update_state_from_summary_at(&mut self, summary: &str, now: i64) -> (cache_changed: bool)
        ensures
            summary_applied(*old(self), *final(self), summary@, now),
            cache_changed == node_summary_spec(summary@) is Some,
    {
        proof {
            reveal_strlit("MYINFO:");
            reveal_strlit("NODE:");
            reveal_strlit("CONFIG");
            reveal_strlit("MODULE_CONFIG");
            reveal_strlit("CONFIG_COMPLETE:");
        }
        proof {
            lemma_line_kinds_exclusive(summary@);
        }
        let myinfo = starts_with(summary, "MYINFO:");
        assert(myinfo == has_prefix(summary@, "MYINFO:"@)) by {
            if summary@.len() >= 7 {
                assert(summary@.subrange(0, 7) =~= summary@.take(7));
            }
        }
        let ghost old_self = *self;
        let mut changed = false;
        if myinfo {
            self.have_my_info = true;
        } else if starts_with(summary, "NODE:") {
            assert(summary@.subrange(0, 5) =~= summary@.take(5));
            match parse_node_summary(summary) {
                Some((id, long_name, short_name)) => {
                    let user = if long_name.as_str().unicode_len() > 0 {
                        Some(NodeUser { long_name: long_name.clone(), short_name: short_name.clone() })
                    } else {
                        None
                    };
                    self.nodes.insert(id, NodeInfo { num: id, user });
                    self.node_cache.update_node_at(id, long_name, short_name, now);
                    assert(self.nodes@.remove(id) =~= old_self.nodes@.remove(id));
                    assert(self.node_cache.nodes@.remove(id) =~= old_self.node_cache.nodes@.remove(id));
                    changed = true;
                },
                None => {},
            }
        } else if str_eq(summary, "CONFIG") {
            proof {
                if summary@.len() >= 5 {
                    assert(summary@.subrange(0, 5) =~= summary@.take(5));
                }
            }
            self.have_radio_config = true;
        } else if str_eq(summary, "MODULE_CONFIG") {
            proof {
                if summary@.len() >= 5 {
                    assert(summary@.subrange(0, 5) =~= summary@.take(5));
                }
            }
            self.have_module_config = true;
        } else if starts_with(summary, "CONFIG_COMPLETE:") {
            proof {
                assert(summary@.subrange(0, 16) =~= summary@.take(16));
                if summary@.len() >= 5 {
                    assert(summary@.subrange(0, 5) =~= summary@.take(5));
                }
            }
            match second_field(summary) {
                Some(v) => match self.config_request_id {
                    Some(want) => {
                        if want == v {
                            self.config_complete = true;
                        }
                    },
                    None => {},
                },
                None => {},
            }
        }
        if myinfo {
            match second_field(summary) {
                Some(v) => {
                    self.our_node_id = Some(v);
                },
                None => {},
            }
        }
        changed
    }

    /// Takes in one line that the radio reader reports, a node line heard now
    /// (see [`Self::update_state_from_summary_at`]). Returns whether the node
    /// cache changed.
    pub fn update_state_from_summary(&mut self, summary: &str) -> (cache_changed: bool)
        ensures
            exists|now: i64| #![trigger valid_millis(now as int)] valid_millis(now as int) && summary_applied(*old(self), *final(self), summary@, now),
            cache_changed == node_summary_spec(summary@) is Some,
    {
        let now = now_millis();
        let r = self.update_state_from_summary_at(summary, now);
        assert(summary_applied(*old(self), *final(self), summary@, now));
        r
    }

    /// Decides at `now` whether a configuration request goes to the radio,
    /// with `fresh` as the id of a first one; returns the id to send.
    pub fn ensure_want_config_at(&mut self, now: u64, fresh: u32) -> (r: Option<u32>)
        ensures
            r == want_config_to_send(*old(self), now, fresh),
            *final(self) == want_config_after(*old(self), now, fresh),
    {
        match self.config_request_id {
            None => {
                let id = if fresh == 0 { 1 } else { fresh };
                self.config_request_id = Some(id);
                self.last_want_config_sent = Some(now);
                Some(id)
            },
            Some(id) => {
                if self.initial_sync_complete() {
                    return None;
                }
                match self.last_want_config_sent {
                    Some(last) => {
                        if now >= last && now - last > WANT_CONFIG_RESEND_MS {
                            self.last_want_config_sent = Some(now);
                            Some(id)
                        } else {
                            None
                        }
                    },
                    None => None,
                }
            },
        }
    }

    /// Decides now whether a configuration request goes to the radio; a first
    /// one gets a random id. Returns the id to send.
    pub fn ensure_want_config(&mut self) -> (r: Option<u32>)
        ensures
            exists|now: u64, fresh: u32|
                #![trigger want_config_to_send(*old(self), now, fresh)]
                r == want_config_to_send(*old(self), now, fresh) && *final(self) == want_config_after(
                    *old(self),
                    now,
                    fresh,
                ),
    {
        let fresh = if self.config_request_id.is_none() { random_u32() } else { 0 };
        let now = now_millis_u64();
        let r = self.ensure_want_config_at(now, fresh);
        assert(r == want_config_to_send(*old(self), now, fresh));
        r
    }

    /// Forgets the cached nodes not heard for `max_age_days` days before
    /// `now`; returns how many went (the cache is then to be saved).
    pub fn cleanup_stale_nodes_at(&mut self, max_age_days: u32, now: i64) -> (removed: usize)
        requires
            valid_millis(now as int),
            valid_millis(now - max_age_days * 86_400_000),
        ensures
            pruned(old(self).node_cache, final(self).node_cache, max_age_days, now, removed),
            *final(self) == (MeshtasticDevice { node_cache: final(self).node_cache, ..*old(self) }),
    {
        self.node_cache.remove_stale_nodes_at(max_age_days, now)
    }

    /// Completes the node table from a node cache read back from storage
    /// (`None` when there was none, or it could not be read: nothing changes).
    pub fn load_node_cache(&mut self, loaded: Option<NodeCache>)
        ensures
            match loaded {
                Some(cache) => merged(*old(self), *final(self), cache),
                None => *final(self) == *old(self),
            },
    {
        let cache = match loaded {
            Some(c) => c,
            None => return,
        };
        let ghost before = self.nodes@;
        let ghost old_self = *self;
        for k in it: cache.nodes.keys()
            invariant
                *self == (MeshtasticDevice { nodes: self.nodes, ..old_self }),
                it.seq().no_duplicates(),
                it.seq().unref().to_set() == cache.nodes@.dom(),
                forall|x: u32| #[trigger] self.nodes@.contains_key(x) ==> before.contains_key(x)
                    || cache.nodes@.contains_key(x),
                forall|j: int| 0 <= j < it.index() ==> self.nodes@.contains_key(#[trigger] *it.seq()[j]),
                forall|x: u32| #[trigger] cache.nodes@.contains_key(x) && !self.nodes@.contains_key(x)
                    ==> exists|j: int| it.index() <= j < it.seq().len() && *it.seq()[j] == x,
                forall|x: u32| #[trigger] before.contains_key(x) ==> self.nodes@.contains_key(x)
                    && self.nodes@[x] == before[x],
                forall|x: u32| !before.contains_key(x) && #[trigger] self.nodes@.contains_key(x)
                    ==> from_cache(self.nodes@[x], x, cache.nodes@[x]),
        {
            let ghost idx = it.index();
            assert(cache.nodes@.contains_key(*k)) by {
                assert(it.seq().unref().to_set().contains(*k)) by {
                    assert(it.seq().unref()[idx] == *k);
                }
            }
            if !self.nodes.contains_key(k) {
                let c = cache.nodes.get(k).unwrap();
                let info = NodeInfo {
                    num: *k,
                    user: Some(NodeUser { long_name: c.long_name.clone(), short_name: c.short_name.clone() }),
                };
                self.nodes.insert(*k, info);
            }
        }
        assert(self.nodes@.dom() =~= before.dom() + cache.nodes@.dom());
        self.node_cache = cache;
    }

    /// The handshake is done: the radio reported itself and its
    /// configuration, and finished answering our request.
    pub fn initial_sync_complete(&self) -> (r: bool)
        ensures
            r == (self.config_complete && self.have_my_info && self.have_radio_config),
    {
        self.config_complete && self.have_my_info && self.have_radio_config
    }
}

} // verus!
