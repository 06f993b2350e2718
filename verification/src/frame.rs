//! Length-prefixed framing of the Meshtastic serial protocol.
//!
//! A frame on the wire is `0x94 0xC3 len_hi len_lo` followed by `len` payload
//! bytes. The receiver accumulates raw serial bytes and pulls complete frames out
//! of the front of its buffer, skipping noise between frames.
use vstd::prelude::*;

verus! {

/// First header byte.
pub const FRAME_START1: u8 = 0x94;
/// Second header byte.
pub const FRAME_START2: u8 = 0xC3;
/// Largest payload length the receiver accepts as plausible.
pub const MAX_FRAME_LEN: usize = 8192;

/// Whether the buffer begins with the two header bytes.
pub open spec fn has_header(buf: Seq<u8>) -> bool {
    buf.len() >= 2 && buf[0] == FRAME_START1 && buf[1] == FRAME_START2
}

/// Payload length declared by the header at the front of the buffer.
pub open spec fn declared_len(buf: Seq<u8>) -> nat {
    (buf[2] as nat) * 256 + (buf[3] as nat)
}

/// Index of the first occurrence of `b` in `buf`, or -1.
pub open spec fn index_of_byte(buf: Seq<u8>, b: u8) -> int
    decreases buf.len(),
{
    if buf.len() == 0 {
        -1
    } else if buf[0] == b {
        0
    } else {
        let r = index_of_byte(buf.drop_first(), b);
        if r < 0 {
            -1
        } else {
            r + 1
        }
    }
}

/// What the receiver's framing loop yields on a buffer: the complete frames it
/// pulls out, the bytes it leaves for later, and whether it reaches the state in
/// which the loop makes no progress (a `0x94` at the front that is not followed
/// by `0xC3`, with at least four bytes buffered).
pub open spec fn scan_spec(buf: Seq<u8>) -> (Seq<Seq<u8>>, Seq<u8>, bool)
    decreases buf.len(),
{
    if buf.len() < 4 {
        (Seq::empty(), buf, false)
    } else if has_header(buf) {
        let d = declared_len(buf) as int;
        if d == 0 || d > MAX_FRAME_LEN {
            scan_spec(buf.drop_first())
        } else if buf.len() < 4 + d {
            (Seq::empty(), buf, false)
        } else {
            let r = scan_spec(buf.skip(4 + d));
            (seq![buf.subrange(4, 4 + d)] + r.0, r.1, r.2)
        }
    } else {
        let pos = index_of_byte(buf, FRAME_START1);
        if pos < 0 {
            (Seq::empty(), Seq::empty(), false)
        } else if pos == 0 {
            (Seq::empty(), buf, true)
        } else {
            proof {
                lemma_index_of_byte_bounds(buf, FRAME_START1);
            }
            scan_spec(buf.skip(pos))
        }
    }
}

/// Frames pulled out of a receive buffer.
pub struct FrameScan {
    /// Complete frame payloads, in the order they arrived.
    pub frames: Vec<Vec<u8>>,
    /// The scan stopped at a `0x94` not followed by `0xC3`, where the receive
    /// loop makes no further progress.
    pub stalled: bool,
}

/// The byte views of a list of frames.
pub open spec fn frame_views(frames: Seq<Vec<u8>>) -> Seq<Seq<u8>> {
    frames.map_values(|f: Vec<u8>| f@)
}

/// Facts about [`index_of_byte`]: the index found holds the byte, no earlier one does.
pub proof fn lemma_index_of_byte_bounds(buf: Seq<u8>, b: u8)
    ensures
        index_of_byte(buf, b) < buf.len(),
        index_of_byte(buf, b) >= 0 ==> buf[index_of_byte(buf, b)] == b,
        index_of_byte(buf, b) >= -1,
        forall|k: int| 0 <= k < index_of_byte(buf, b) ==> buf[k] != b,
        index_of_byte(buf, b) < 0 ==> forall|k: int| 0 <= k < buf.len() ==> buf[k] != b,
    decreases buf.len(),
{
    if buf.len() > 0 && buf[0] != b {
        lemma_index_of_byte_bounds(buf.drop_first(), b);
        let r = index_of_byte(buf.drop_first(), b);
        assert forall|k: int| 0 < k < buf.len() implies buf[k] == buf.drop_first()[k - 1] by {}
    }
}

/// Index of the first `b` in `buf[from..]`, relative to `from`, or -1.
fn find_byte(buf: &Vec<u8>, from: usize, b: u8) -> (r: i64)
    requires
        from <= buf@.len(),
        buf@.len() < i64::MAX,
    ensures
        r == index_of_byte(buf@.skip(from as int), b),
{
    let n = buf.len();
    let mut i = from;
    proof {
        lemma_index_of_byte_bounds(buf@.skip(from as int), b);
    }
    while i < n
        invariant
            from <= i <= n,
            n == buf@.len(),
            n < i64::MAX,
            forall|k: int| from <= k < i ==> buf@[k] != b,
        decreases n - i,
    {
        if buf[i] == b {
            proof {
                let s = buf@.skip(from as int);
                lemma_index_of_byte_bounds(s, b);
                let r = index_of_byte(s, b);
                if r >= 0 && r < i - from {
                    assert(s[r] == buf@[from + r]);
                }
                if r < 0 {
                    assert(s[i - from] == b);
                }
                if r > i - from {
                    assert(s[i - from] == b);
                }
            }
            return (i - from) as i64;
        }
        i = i + 1;
    }
    proof {
        let s = buf@.skip(from as int);
        lemma_index_of_byte_bounds(s, b);
        let r = index_of_byte(s, b);
        if r >= 0 {
            assert(s[r] == buf@[from + r]);
        }
    }
    -1
}

/// Copies `buf[from..to]` into a new vector.
fn copy_range(buf: &Vec<u8>, from: usize, to: usize) -> (r: Vec<u8>)
    requires
        from <= to <= buf@.len(),
    ensures
        r@ == buf@.subrange(from as int, to as int),
{
    let mut r: Vec<u8> = Vec::new();
    let mut i = from;
    while i < to
        invariant
            from <= i <= to <= buf@.len(),
            r@ == buf@.subrange(from as int, i as int),
        decreases to - i,
    {
        r.push(buf[i]);
        assert(r@ =~= buf@.subrange(from as int, i + 1));
        i = i + 1;
    }
    r
}

/// Pulls every complete frame out of the front of the receive buffer, leaving
/// the bytes that may still begin a frame.
pub fn extract_frames(buf: &mut Vec<u8>) -> (r: FrameScan)
    requires
        old(buf)@.len() < i64::MAX,
    ensures
        frame_views(r.frames@) == scan_spec(old(buf)@).0,
        final(buf)@ == scan_spec(old(buf)@).1,
        r.stalled == scan_spec(old(buf)@).2,
{
    let ghost orig = buf@;
    let n = buf.len();
    let mut start: usize = 0;
    let mut frames: Vec<Vec<u8>> = Vec::new();
    let mut stalled = false;
    assert(orig.skip(0) =~= orig);
    loop
        invariant_except_break
            start <= n,
            n == buf@.len(),
            buf@ == orig,
            n < i64::MAX,
            !stalled,
            scan_spec(orig) == (frame_views(frames@) + scan_spec(orig.skip(start as int)).0,
                scan_spec(orig.skip(start as int)).1, scan_spec(orig.skip(start as int)).2),
        ensures
            start <= n,
            buf@ == orig,
            scan_spec(orig) == (frame_views(frames@), orig.skip(start as int), stalled),
        decreases n - start,
    {
        let ghost cur = orig.skip(start as int);
        if n - start < 4 {
            assert(frame_views(frames@) + Seq::<Seq<u8>>::empty() =~= frame_views(frames@));
            break;
        }
        if buf[start] == FRAME_START1 && buf[start + 1] == FRAME_START2 {
            let declared = (buf[start + 2] as usize) * 256 + (buf[start + 3] as usize);
            assert(declared == declared_len(cur));
            if declared == 0 || declared > MAX_FRAME_LEN {
                assert(cur.drop_first() =~= orig.skip(start + 1));
                start = start + 1;
            } else if n - start < 4 + declared {
                assert(frame_views(frames@) + Seq::<Seq<u8>>::empty() =~= frame_views(frames@));
                break;
            } else {
                let frame = copy_range(buf, start + 4, start + 4 + declared);
                assert(frame@ =~= cur.subrange(4, 4 + declared as int));
                assert(cur.skip(4 + declared as int) =~= orig.skip(start + 4 + declared));
                let ghost before = frames@;
                frames.push(frame);
                assert(frame_views(frames@) =~= frame_views(before) + seq![frame@]);
                assert(frame_views(frames@) + scan_spec(orig.skip(start + 4 + declared)).0
                    =~= frame_views(before) + (seq![cur.subrange(4, 4 + declared as int)]
                    + scan_spec(cur.skip(4 + declared as int)).0));
                start = start + 4 + declared;
            }
        } else {
            let pos = find_byte(buf, start, FRAME_START1);
            if pos < 0 {
                start = n;
                assert(orig.skip(n as int) =~= Seq::<u8>::empty());
                assert(frame_views(frames@) + Seq::<Seq<u8>>::empty() =~= frame_views(frames@));
                break;
            } else if pos == 0 {
                stalled = true;
                assert(frame_views(frames@) + Seq::<Seq<u8>>::empty() =~= frame_views(frames@));
                break;
            } else {
                proof {
                    lemma_index_of_byte_bounds(cur, FRAME_START1);
                }
                assert(cur.skip(pos as int) =~= orig.skip(start + pos));
                start = start + pos as usize;
            }
        }
    }
    let rest = copy_range(buf, start, n);
    assert(rest@ =~= orig.skip(start as int));
    *buf = rest;
    FrameScan { frames, stalled }
}


/// Largest payload that the two length bytes can describe.
pub const MAX_ENCODABLE_LEN: usize = 65535;

/// The wire form of one frame: the two header bytes, the big-endian length and
/// the payload.
pub open spec fn encode_spec(payload: Seq<u8>) -> Seq<u8> {
    seq![FRAME_START1, FRAME_START2, (payload.len() / 256) as u8, (payload.len() % 256) as u8]
        + payload
}

/// Frames a payload for the serial link; `None` when the payload is too long
/// for the two length bytes.
pub fn encode_frame(payload: &[u8]) -> (r: Option<Vec<u8>>)
    ensures
        payload@.len() > MAX_ENCODABLE_LEN ==> r is None,
        payload@.len() <= MAX_ENCODABLE_LEN ==> (r matches Some(v) && v@ == encode_spec(payload@)),
{
    let n = payload.len();
    if n > MAX_ENCODABLE_LEN {
        return None;
    }
    let mut out: Vec<u8> = Vec::new();
    out.push(FRAME_START1);
    out.push(FRAME_START2);
    out.push((n / 256) as u8);
    out.push((n % 256) as u8);
    let mut i: usize = 0;
    while i < n
        invariant
            i <= n,
            n == payload@.len(),
            out@ == seq![FRAME_START1, FRAME_START2, (n / 256) as u8, (n % 256) as u8]
                + payload@.take(i as int),
        decreases n - i,
    {
        out.push(payload[i]);
        assert(payload@.take(i + 1) =~= payload@.take(i as int).push(payload@[i as int]));
        assert(out@ =~= seq![FRAME_START1, FRAME_START2, (n / 256) as u8, (n % 256) as u8]
            + payload@.take(i + 1));
        i = i + 1;
    }
    assert(payload@.take(n as int) =~= payload@);
    Some(out)
}

/// A framed payload followed by more bytes scans as that payload followed by
/// whatever the remaining bytes scan as.
pub proof fn lemma_scan_encoded(payload: Seq<u8>, rest: Seq<u8>)
    requires
        1 <= payload.len() <= MAX_FRAME_LEN,
    ensures
        scan_spec(encode_spec(payload) + rest) == (seq![payload] + scan_spec(rest).0, scan_spec(
            rest,
        ).1, scan_spec(rest).2),
{
    let buf = encode_spec(payload) + rest;
    let d = payload.len();
    assert(buf[0] == FRAME_START1);
    assert(buf[1] == FRAME_START2);
    assert(buf[2] == (d / 256) as u8);
    assert(buf[3] == (d % 256) as u8);
    assert(declared_len(buf) == d);
    assert(buf.subrange(4, 4 + d as int) =~= payload);
    assert(buf.skip(4 + d as int) =~= rest);
}

/// The concatenated wire forms of a list of payloads.
pub open spec fn encode_all_spec(payloads: Seq<Seq<u8>>) -> Seq<u8>
    decreases payloads.len(),
{
    if payloads.len() == 0 {
        Seq::empty()
    } else {
        encode_spec(payloads[0]) + encode_all_spec(payloads.drop_first())
    }
}

/// Round trip of the framing: scanning the concatenated wire forms of payloads
/// of 1 to 8192 bytes yields exactly those payloads, leaves nothing behind and
/// never stalls.
pub proof fn lemma_scan_encode_all(payloads: Seq<Seq<u8>>)
    requires
        forall|i: int| 0 <= i < payloads.len() ==> 1 <= #[trigger] payloads[i].len() <= MAX_FRAME_LEN,
    ensures
        scan_spec(encode_all_spec(payloads)) == (payloads, Seq::<u8>::empty(), false),
    decreases payloads.len(),
{
    if payloads.len() == 0 {
        assert(scan_spec(Seq::<u8>::empty()) == (Seq::<Seq<u8>>::empty(), Seq::<u8>::empty(), false));
        assert(payloads =~= Seq::<Seq<u8>>::empty());
    } else {
        let tail = payloads.drop_first();
        assert forall|i: int| 0 <= i < tail.len() implies 1 <= #[trigger] tail[i].len()
            <= MAX_FRAME_LEN by {
            assert(tail[i] == payloads[i + 1]);
        }
        lemma_scan_encode_all(tail);
        lemma_scan_encoded(payloads[0], encode_all_spec(tail));
        assert(seq![payloads[0]] + tail =~= payloads);
    }
}

} // verus!
