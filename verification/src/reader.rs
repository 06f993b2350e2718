//! What the radio reader does with one frame from the radio once the frame's
//! protocol message is decoded: acknowledgements and routing reports go to the
//! writer, text messages become events for the server, and node announcements
//! update the node table and the node cache.
//!
//! Decoding the protocol message happens outside; the reader takes the decoded
//! fields. Times are milliseconds since the Unix epoch.
use vstd::prelude::*;
use vstd::utf8::{valid_utf8, decode_utf8};
use std::collections::HashMap;
use crate::clock::{now_millis, valid_millis};
use crate::device::{NodeInfo, heard};
use crate::mesh::{ControlMessage, TextEvent};
use crate::nodes::NodeCache;
use crate::text::{push_char, to_owned_string};

verus! {

broadcast use vstd::std_specs::hash::group_hash_axioms;

/// Packet priority with which the radio marks an acknowledgement.
pub const ACK_PRIORITY: i32 = 120;
/// Port of plain text messages.
pub const PORT_TEXT_MESSAGE: i32 = 1;
/// Port of routing reports.
pub const PORT_ROUTING: i32 = 5;
/// Port of compressed text messages.
pub const PORT_TEXT_COMPRESSED: i32 = 7;
/// Routing reason that reports delivery.
pub const ROUTING_OK: i32 = 0;

/// The fields of a received mesh packet that carries decoded data.
#[derive(Debug, Clone)]
pub struct DecodedPacket {
    pub from: u32,
    pub to: u32,
    pub channel: u32,
    pub priority: i32,
    pub portnum: i32,
    pub payload: Vec<u8>,
    pub request_id: u32,
    pub reply_id: u32,
    /// For a routing packet whose payload decoded to a routing message that
    /// names a known error reason: that reason (`ROUTING_OK` for delivery).
    pub routing_reason: Option<i32>,
}

/// A decoded frame from the radio, as far as the reader acts on it.
#[derive(Debug)]
pub enum RadioFrame {
    /// A mesh packet with decoded data.
    Packet(DecodedPacket),
    /// The radio's own node number.
    MyInfo(u32),
    /// An entry of the radio's node table.
    NodeInfo(NodeInfo),
    /// Configuration, log records, queue status and the rest: only logged.
    Other,
}

/// What one packet asks of the writer and of the server.
#[derive(Debug)]
pub struct PacketOutcome {
    /// Messages for the writer, in the order they are sent.
    pub controls: Vec<ControlMessage>,
    /// The text message the packet carried, if any.
    pub text: Option<TextEvent>,
}

/// What one frame asks of the writer and of the server.
#[derive(Debug)]
pub struct FrameOutcome {
    /// Messages for the writer, in the order they are sent.
    pub controls: Vec<ControlMessage>,
    /// The text message the frame carried, if any.
    pub text: Option<TextEvent>,
    /// The node cache changed and should be saved.
    pub cache_changed: bool,
}

/// The id a routing report refers to: its request id, else its reply id.
pub open spec fn correlation_id(p: DecodedPacket) -> u32 {
    if p.request_id != 0 {
        p.request_id
    } else {
        p.reply_id
    }
}

/// An acknowledgement packet confirms the packet named by its reply id.
pub open spec fn ack_controls(p: DecodedPacket) -> Seq<ControlMessage> {
    if p.priority == ACK_PRIORITY && p.reply_id != 0 {
        seq![ControlMessage::AckReceived(p.reply_id)]
    } else {
        seq![]
    }
}

/// A routing report confirms delivery of the packet it refers to (when it
/// names one), or reports an error for it.
pub open spec fn routing_controls(p: DecodedPacket) -> Seq<ControlMessage> {
    if p.portnum == PORT_ROUTING && p.routing_reason is Some {
        let reason = p.routing_reason->0;
        if reason == ROUTING_OK {
            if correlation_id(p) != 0 {
                seq![ControlMessage::AckReceived(correlation_id(p))]
            } else {
                seq![]
            }
        } else {
            seq![ControlMessage::RoutingError { id: correlation_id(p), reason }]
        }
    } else {
        seq![]
    }
}

/// Everything a packet tells the writer: acknowledgement first, then routing.
pub open spec fn packet_controls(p: DecodedPacket) -> Seq<ControlMessage> {
    ack_controls(p) + routing_controls(p)
}

/// A printable ASCII byte: neither a control character nor beyond ASCII.
pub open spec fn printable_ascii(b: u8) -> bool {
    0x20 <= b <= 0x7e
}

/// Every byte is printable ASCII.
pub open spec fn all_printable(bytes: Seq<u8>) -> bool {
    forall|i: int| 0 <= i < bytes.len() ==> #[trigger] printable_ascii(bytes[i])
}

/// The characters of ASCII bytes, one per byte.
pub open spec fn ascii_chars(bytes: Seq<u8>) -> Seq<char> {
    bytes.map_values(|b: u8| b as char)
}

/// The text a packet carries: a text message whose payload is UTF-8, or a
/// compressed text message whose payload is printable ASCII.
pub open spec fn packet_text(p: DecodedPacket) -> Option<Seq<char>> {
    if p.portnum == PORT_TEXT_MESSAGE {
        if valid_utf8(p.payload@) {
            Some(decode_utf8(p.payload@))
        } else {
            None
        }
    } else if p.portnum == PORT_TEXT_COMPRESSED {
        if all_printable(p.payload@) {
            Some(ascii_chars(p.payload@))
        } else {
            None
        }
    } else {
        None
    }
}

/// `e` is the event for text `content` carried by `p`: the destination is
/// named unless it is 0, and the message is direct when it names this node.
pub open spec fn text_event_of(e: TextEvent, p: DecodedPacket, our_node_id: Option<u32>, content: Seq<char>) -> bool {
    &&& e.source == p.from
    &&& e.dest == (if p.to != 0 { Some(p.to) } else { None::<u32> })
    &&& e.is_direct == (p.to != 0 && our_node_id == Some(p.to))
    &&& e.channel == Some(p.channel)
    &&& e.content@ == content
}

/// `text` is the event `p` gives, if any.
pub open spec fn packet_event(text: Option<TextEvent>, p: DecodedPacket, our_node_id: Option<u32>) -> bool {
    match packet_text(p) {
        Some(content) => text is Some && text_event_of(text->0, p, our_node_id, content),
        None => text is None,
    }
}

/// `std::str::from_utf8`: the bytes read as text when they are valid UTF-8.
#[verifier::external_body]
fn utf8_text(bytes: &[u8]) -> (r: Option<&str>)
    ensures
        r is Some <==> valid_utf8(bytes@),
        r is Some ==> r->0@ == decode_utf8(bytes@),
{
    match std::str::from_utf8(bytes) {
        Ok(s) => Some(s),
        Err(_) => None,
    }
}

/// The payload as text, when every byte is printable ASCII.
fn printable_text(bytes: &[u8]) -> (r: Option<String>)
    ensures
        r is Some <==> all_printable(bytes@),
        r is Some ==> r->0@ == ascii_chars(bytes@),
{
    let mut s = String::new();
    let mut i: usize = 0;
    while i < bytes.len()
        invariant
            i <= bytes.len(),
            forall|j: int| 0 <= j < i ==> #[trigger] printable_ascii(bytes@[j]),
            s@ == ascii_chars(bytes@.take(i as int)),
        decreases bytes.len() - i,
    {
        let b = bytes[i];
        if b < 0x20 || b > 0x7e {
            assert(!printable_ascii(bytes@[i as int]));
            return None;
        }
        push_char(&mut s, b as char);
        assert(bytes@.take(i as int + 1) =~= bytes@.take(i as int).push(b));
        assert(ascii_chars(bytes@.take(i as int + 1)) =~= ascii_chars(bytes@.take(i as int)).push(b as char));
        i = i + 1;
    }
    assert(bytes@.take(i as int) =~= bytes@);
    Some(s)
}

/// The text event for `content` carried by `p`.
fn event_for(p: &DecodedPacket, our_node_id: Option<u32>, content: String) -> (e: TextEvent)
    ensures
        text_event_of(e, *p, our_node_id, content@),
{
    let dest = if p.to != 0 {
        Some(p.to)
    } else {
        None
    };
    let is_direct = match (dest, our_node_id) {
        (Some(d), Some(our)) => d == our,
        _ => false,
    };
    TextEvent { source: p.from, dest, is_direct, channel: Some(p.channel), content }
}

/// What a packet with decoded data asks of the writer and of the server,
/// when this node's number is `our_node_id`.
pub fn classify_packet(p: &DecodedPacket, our_node_id: Option<u32>) -> (r: PacketOutcome)
    ensures
        r.controls@ == packet_controls(*p),
        packet_event(r.text, *p, our_node_id),
{
    let mut controls: Vec<ControlMessage> = Vec::new();
    if p.priority == ACK_PRIORITY && p.reply_id != 0 {
        controls.push(ControlMessage::AckReceived(p.reply_id));
    }
    assert(controls@ == ack_controls(*p));
    if p.portnum == PORT_ROUTING {
        match p.routing_reason {
            Some(reason) => {
                let corr_id = if p.request_id != 0 {
                    p.request_id
                } else {
                    p.reply_id
                };
                if reason == ROUTING_OK {
                    if corr_id != 0 {
                        controls.push(ControlMessage::AckReceived(corr_id));
                    }
                } else {
                    controls.push(ControlMessage::RoutingError { id: corr_id, reason });
                }
            },
            None => {},
        }
    }
    assert(controls@ =~= packet_controls(*p));
    let text = if p.portnum == PORT_TEXT_MESSAGE {
        match utf8_text(p.payload.as_slice()) {
            Some(t) => Some(event_for(p, our_node_id, to_owned_string(t))),
            None => None,
        }
    } else if p.portnum == PORT_TEXT_COMPRESSED {
        match printable_text(p.payload.as_slice()) {
            Some(t) => Some(event_for(p, our_node_id, t)),
            None => None,
        }
    } else {
        None
    };
    PacketOutcome { controls, text }
}

/// The reader's own state: this node's number and the nodes the radio reported.
#[derive(Debug)]
pub struct ReaderState {
    pub our_node_id: Option<u32>,
    pub nodes: HashMap<u32, NodeInfo>,
    pub node_cache: NodeCache,
}

/// The reader's state is the same in `before` and `after`.
pub open spec fn reader_unchanged(before: ReaderState, after: ReaderState) -> bool {
    &&& after.our_node_id == before.our_node_id
    &&& after.nodes@ == before.nodes@
    &&& after.node_cache.nodes@ == before.node_cache.nodes@
    &&& after.node_cache.last_updated == before.node_cache.last_updated
}

/// Taking in `frame` at `now` leads from `before` to `after` with outcome `r`:
/// - a packet gives its controls and text event and changes nothing;
/// - the first report of this node's number records it and tells the writer;
///   a later one is ignored;
/// - a node entry with names replaces the node table entry and records the
///   node in the cache as heard at `now`; one without names is ignored;
/// - any other frame changes nothing.
pub open spec fn frame_processed(before: ReaderState, after: ReaderState, frame: RadioFrame, r: FrameOutcome, now: i64) -> bool {
    match frame {
        RadioFrame::Packet(p) => {
            &&& r.controls@ == packet_controls(p)
            &&& packet_event(r.text, p, before.our_node_id)
            &&& !r.cache_changed
            &&& reader_unchanged(before, after)
        },
        RadioFrame::MyInfo(id) => {
            &&& r.text is None
            &&& !r.cache_changed
            &&& after.nodes@ == before.nodes@
            &&& after.node_cache.nodes@ == before.node_cache.nodes@
            &&& after.node_cache.last_updated == before.node_cache.last_updated
            &&& if before.our_node_id is None {
                after.our_node_id == Some(id) && r.controls@ == seq![ControlMessage::SetNodeId(id)]
            } else {
                after.our_node_id == before.our_node_id && r.controls@.len() == 0
            }
        },
        RadioFrame::NodeInfo(n) => {
            &&& r.text is None
            &&& r.controls@.len() == 0
            &&& match n.user {
                Some(u) => {
                    &&& r.cache_changed
                    &&& after.our_node_id == before.our_node_id
                    &&& after.nodes@ == before.nodes@.insert(n.num, n)
                    &&& heard(before.node_cache.nodes@, after.node_cache.nodes@, n.num, u.long_name@, u.short_name@, now)
                    &&& after.node_cache.last_updated == now
                },
                None => !r.cache_changed && reader_unchanged(before, after),
            }
        },
        RadioFrame::Other => {
            &&& r.controls@.len() == 0
            &&& r.text is None
            &&& !r.cache_changed
            &&& reader_unchanged(before, after)
        },
    }
}

/// Once this node's number is known, no frame changes it.
pub proof fn lemma_node_id_kept(before: ReaderState, after: ReaderState, frame: RadioFrame, r: FrameOutcome, now: i64)
    requires
        frame_processed(before, after, frame, r, now),
        before.our_node_id is Some,
    ensures
        after.our_node_id == before.our_node_id,
{
}

impl ReaderState {
    /// A reader that knows no node yet, with an empty cache updated at `now`.
    pub fn new_at(now: i64) -> (s: Self)
        ensures
            s.our_node_id is None,
            s.nodes@ == Map::<u32, NodeInfo>::empty(),
            s.node_cache.nodes@ == Map::<u32, crate::nodes::CachedNodeInfo>::empty(),
            s.node_cache.last_updated == now,
    {
        ReaderState { our_node_id: None, nodes: HashMap::new(), node_cache: NodeCache::new_at(now) }
    }

    /// Takes in one decoded frame from the radio at `now` (see [`frame_processed`]).
    pub fn process_frame_at(&mut self, frame: RadioFrame, now: i64) -> (r: FrameOutcome)
        ensures
            frame_processed(*old(self), *final(self), frame, r, now),
    {
        let ghost before = *self;
        match frame {
            RadioFrame::Packet(p) => {
                let out = classify_packet(&p, self.our_node_id);
                FrameOutcome { controls: out.controls, text: out.text, cache_changed: false }
            },
            RadioFrame::MyInfo(id) => {
                let mut controls: Vec<ControlMessage> = Vec::new();
                if self.our_node_id.is_none() {
                    self.our_node_id = Some(id);
                    controls.push(ControlMessage::SetNodeId(id));
                }
                FrameOutcome { controls, text: None, cache_changed: false }
            },
            RadioFrame::NodeInfo(n) => {
                let ghost whole = n;
                let names = match &n.user {
                    Some(u) => Some((u.long_name.clone(), u.short_name.clone())),
                    None => None,
                };
                match names {
                    Some((long_name, short_name)) => {
                        let num = n.num;
                        self.nodes.insert(num, n);
                        self.node_cache.update_node_at(num, long_name, short_name, now);
                        assert(self.node_cache.nodes@.remove(num) =~= before.node_cache.nodes@.remove(num));
                        assert(self.nodes@ == before.nodes@.insert(whole.num, whole));
                        FrameOutcome { controls: Vec::new(), text: None, cache_changed: true }
                    },
                    None => FrameOutcome { controls: Vec::new(), text: None, cache_changed: false },
                }
            },
            RadioFrame::Other => FrameOutcome { controls: Vec::new(), text: None, cache_changed: false },
        }
    }

    /// Takes in one decoded frame from the radio now (see [`frame_processed`]).
    pub fn process_frame(&mut self, frame: RadioFrame) -> (r: FrameOutcome)
        ensures
            exists|now: i64| #![trigger valid_millis(now as int)]
                valid_millis(now as int) && frame_processed(*old(self), *final(self), frame, r, now),
    {
        let now = now_millis();
        let r = self.process_frame_at(frame, now);
        assert(valid_millis(now as int));
        r
    }
}

} // verus!
