//! Messages exchanged with the Meshtastic radio and the text forms it reports.
use vstd::prelude::*;
use crate::text::{
    find, find_spec, hex_spec, parse_u32, parse_u32_spec, push_str, substring, to_owned_string,
    trim, trim_spec, write_hex,
};

verus! {

/// Priority level for outgoing messages.
#[derive(Debug, Clone, Copy, PartialEq, Eq, Structural)]
pub enum MessagePriority {
    /// Direct messages sent reliably (with an acknowledgement request).
    High,
    /// Regular broadcasts.
    Normal,
}

/// An outgoing text message for the writer task.
#[derive(Debug, Clone)]
pub struct OutgoingMessage {
    /// `None` for a broadcast, `Some(node)` for a direct message.
    pub to_node: Option<u32>,
    /// Channel index (0 is the primary channel).
    pub channel: u32,
    /// Message text.
    pub content: String,
    /// Send priority.
    pub priority: MessagePriority,
}

/// Writer pacing parameters, typically taken from the configuration.
#[derive(Debug, Clone)]
pub struct WriterTuning {
    /// Minimum gap between any two text sends (ms); never below 2000 in effect.
    pub min_send_gap_ms: u64,
    /// Retransmission backoff schedule in seconds, e.g. `[4, 8, 16]`.
    pub dm_resend_backoff_seconds: Vec<u64>,
    /// Extra delay before a broadcast that follows a reliable direct message (ms).
    pub post_dm_broadcast_gap_ms: u64,
    /// Minimum gap between two reliable direct messages (ms).
    pub dm_to_dm_gap_ms: u64,
}

impl Default for WriterTuning {
    /// The default tuning: 2 s gap, backoff 4/8/16 s, 1200 ms and 600 ms pacing.
    fn default() -> (t: Self)
        ensures
            t.min_send_gap_ms == 2000,
            t.dm_resend_backoff_seconds@ == seq![4u64, 8u64, 16u64],
            t.post_dm_broadcast_gap_ms == 1200,
            t.dm_to_dm_gap_ms == 600,
    {
        WriterTuning {
            min_send_gap_ms: 2000,
            dm_resend_backoff_seconds: vec![4, 8, 16],
            post_dm_broadcast_gap_ms: 1200,
            dm_to_dm_gap_ms: 600,
        }
    }
}

/// Control messages passed between the reader and writer tasks.
#[derive(Debug, Clone, Copy, PartialEq, Eq, Structural)]
pub enum ControlMessage {
    /// Stop the task.
    Shutdown,
    /// Report device status.
    DeviceStatus,
    /// Request the radio configuration with the given id.
    ConfigRequest(u32),
    /// Send a heartbeat.
    Heartbeat,
    /// Our own node id became known.
    SetNodeId(u32),
    /// The radio acknowledged the reliable packet with this id.
    AckReceived(u32),
    /// The radio reported a routing error for a packet id.
    RoutingError { id: u32, reason: i32 },
}

/// A text message received from the mesh.
#[derive(Debug, Clone)]
pub struct TextEvent {
    /// Sending node.
    pub source: u32,
    /// Destination node, when the packet named one.
    pub dest: Option<u32>,
    /// Whether the message was addressed to this node.
    pub is_direct: bool,
    /// Channel index.
    pub channel: Option<u32>,
    /// Message text.
    pub content: String,
}

/// Lower-case hexadecimal rendering of a byte sequence, two digits per byte.
pub open spec fn hex_bytes_spec(bytes: Seq<u8>) -> Seq<char>
    decreases bytes.len(),
{
    if bytes.len() == 0 {
        Seq::empty()
    } else {
        hex_bytes_spec(bytes.drop_last()) + hex_spec(bytes.last() as nat, 2, false)
    }
}

/// Hex dump of at most the first `max` bytes of `data`.
pub fn hex_snippet(data: &[u8], max: usize) -> (r: String)
    ensures
        r@ == hex_bytes_spec(data@.take(if max < data@.len() { max as int } else { data@.len() as int })),
{
    let n = if max < data.len() {
        max
    } else {
        data.len()
    };
    let mut out = String::new();
    let mut i: usize = 0;
    while i < n
        invariant
            i <= n <= data@.len(),
            out@ == hex_bytes_spec(data@.take(i as int)),
        decreases n - i,
    {
        write_hex(&mut out, data[i] as u64, 2, false);
        assert(data@.take(i + 1).drop_last() =~= data@.take(i as int));
        i = i + 1;
    }
    out
}

/// Result of [`parse_legacy_text`]: the node after `FROM:` (up to the next space)
/// and the text after `MSG:`, joined by a colon.
pub open spec fn parse_legacy_text_spec(raw: Seq<char>) -> Option<Seq<char>> {
    let m = trim_spec(raw);
    let fs = find_spec(m, "FROM:"@);
    let ms = find_spec(m, "MSG:"@);
    if fs < 0 || ms < 0 {
        None
    } else {
        let fe = find_spec(m.skip(fs + 5), " "@);
        let end = if fe < 0 {
            m.len() as int
        } else {
            fs + 5 + fe
        };
        Some(m.subrange(fs + 5, end) + ":"@ + m.skip(ms + 4))
    }
}

/// Parses the legacy text form `FROM:<node> MSG:<text>` into `<node>:<text>`.
pub fn parse_legacy_text(message: &str) -> (r: Option<String>)
    ensures
        r is None <==> parse_legacy_text_spec(message@) is None,
        r matches Some(s) ==> parse_legacy_text_spec(message@) == Some(s@),
{
    let m = trim(message);
    proof {
        reveal_strlit("FROM:");
        reveal_strlit("MSG:");
        reveal_strlit(" ");
        crate::text::lemma_find_from_bounds(m@, "FROM:"@, 0);
        crate::text::lemma_find_from_bounds(m@, "MSG:"@, 0);
    }
    let n = m.unicode_len();
    match (find(m, "FROM:"), find(m, "MSG:")) {
        (Some(fs), Some(ms)) => {
            let rest = substring(m, fs + 5, n);
            assert(rest@ =~= m@.skip(fs + 5));
            proof {
                crate::text::lemma_find_from_bounds(rest@, " "@, 0);
            }
            let end = match find(rest, " ") {
                Some(fe) => fs + 5 + fe,
                None => n,
            };
            let mut out = to_owned_string(substring(m, fs + 5, end));
            push_str(&mut out, ":");
            push_str(&mut out, substring(m, ms + 4, n));
            assert(m@.subrange(ms + 4, n as int) =~= m@.skip(ms + 4));
            Some(out)
        },
        _ => None,
    }
}

/// Result of [`text_to_event`]: a public primary-channel event from the node
/// number before the first colon, carrying the text after it.
pub open spec fn text_to_event_spec(text: Seq<char>) -> Option<(u32, Seq<char>)> {
    let c = find_spec(text, ":"@);
    if c < 0 {
        None
    } else {
        match parse_u32_spec(text.take(c)) {
            Some(source) => Some((source, text.skip(c + 1))),
            None => None,
        }
    }
}

/// Turns a `<node>:<text>` line into a text event on the primary channel.
pub fn text_to_event(text: &str) -> (r: Option<TextEvent>)
    ensures
        r is None <==> text_to_event_spec(text@) is None,
        r matches Some(ev) ==> ({
            &&& text_to_event_spec(text@) == Some((ev.source, ev.content@))
            &&& ev.dest is None
            &&& !ev.is_direct
            &&& ev.channel == Some(0u32)
        }),
{
    proof {
        reveal_strlit(":");
        crate::text::lemma_find_from_bounds(text@, ":"@, 0);
    }
    let n = text.unicode_len();
    match find(text, ":") {
        Some(c) => {
            let from = substring(text, 0, c);
            assert(from@ =~= text@.take(c as int));
            match parse_u32(from) {
                Some(source) => {
                    let content = to_owned_string(substring(text, c + 1, n));
                    assert(content@ =~= text@.skip(c + 1));
                    Some(
                        TextEvent {
                            source,
                            dest: None,
                            is_direct: false,
                            channel: Some(0),
                            content,
                        },
                    )
                },
                None => None,
            }
        },
        None => None,
    }
}

/// `0x` followed by six upper-case hex digits of the low 24 bits of `id`.
pub open spec fn short_hex_label_spec(id: u32) -> Seq<char> {
    "0x"@ + hex_spec((id as nat) % 0x1000000, 6, true)
}

/// Fallback label for a node without a known name (`0x{:06X}` of the low 24 bits).
pub fn short_hex_label(id: u32) -> (r: String)
    ensures
        r@ == short_hex_label_spec(id),
{
    let mut out = to_owned_string("0x");
    write_hex(&mut out, (id % 0x1000000) as u64, 6, true);
    out
}

/// Label of a node: its trimmed name when that is not empty, else the hex label.
pub open spec fn node_label_spec(id: u32, name: Option<Seq<char>>) -> Seq<char> {
    match name {
        Some(n) => if trim_spec(n).len() > 0 {
            trim_spec(n)
        } else {
            short_hex_label_spec(id)
        },
        None => short_hex_label_spec(id),
    }
}

/// Label of a node from the name the node database holds for it, if any.
pub fn node_label(id: u32, name: Option<&str>) -> (r: String)
    ensures
        r@ == node_label_spec(id, match name {
            Some(n) => Some(n@),
            None => None,
        }),
{
    match name {
        Some(n) => {
            let t = trim(n);
            if t.unicode_len() > 0 {
                to_owned_string(t)
            } else {
                short_hex_label(id)
            }
        },
        None => short_hex_label(id),
    }
}

/// Stand-in for the radio's protocol messages when they are not compiled in.
#[derive(Debug, Clone)]
pub struct Placeholder {
    pub note: String,
}

} // verus!
