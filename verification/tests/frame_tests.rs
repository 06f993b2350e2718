use meshbbs::frame::{encode_frame, extract_frames, FRAME_START1, FRAME_START2, MAX_ENCODABLE_LEN};

#[test]
fn encode_frame_writes_header_and_length() {
    assert_eq!(encode_frame(&[1, 2, 3]), Some(vec![0x94, 0xC3, 0x00, 0x03, 1, 2, 3]));
    let big = vec![7u8; 300];
    let framed = encode_frame(&big).unwrap();
    assert_eq!(&framed[..4], &[FRAME_START1, FRAME_START2, 0x01, 0x2C]);
    assert_eq!(framed.len(), 304);
}

#[test]
fn encode_frame_refuses_oversized_payload() {
    let too_long = vec![0u8; MAX_ENCODABLE_LEN + 1];
    assert_eq!(encode_frame(&too_long), None);
}

#[test]
fn encoded_frames_scan_back_to_their_payloads() {
    let a = vec![1u8, 2, 3];
    let b = vec![9u8; 40];
    let mut buf = encode_frame(&a).unwrap();
    buf.extend(encode_frame(&b).unwrap());
    let scan = extract_frames(&mut buf);
    assert_eq!(scan.frames, vec![a, b]);
    assert!(buf.is_empty());
    assert!(!scan.stalled);
}

#[test]
fn noise_before_a_frame_is_skipped() {
    let p = vec![0x42u8, 0x43];
    let mut buf = vec![0x00, 0x11, 0x22];
    buf.extend(encode_frame(&p).unwrap());
    let scan = extract_frames(&mut buf);
    assert_eq!(scan.frames, vec![p]);
    assert!(buf.is_empty());
}

#[test]
fn noise_without_a_start_byte_is_dropped() {
    let mut buf = vec![0x01, 0x02, 0x03, 0x04, 0x05];
    let scan = extract_frames(&mut buf);
    assert!(scan.frames.is_empty());
    assert!(buf.is_empty());
    assert!(!scan.stalled);
}

#[test]
fn incomplete_frame_stays_buffered() {
    let mut buf = encode_frame(&[5u8; 10]).unwrap();
    buf.truncate(8);
    let before = buf.clone();
    let scan = extract_frames(&mut buf);
    assert!(scan.frames.is_empty());
    assert_eq!(buf, before);
    assert!(!scan.stalled);
}

#[test]
fn zero_length_header_is_skipped() {
    let p = vec![0x10u8];
    let mut buf = vec![0x94, 0xC3, 0x00, 0x00];
    buf.extend(encode_frame(&p).unwrap());
    let scan = extract_frames(&mut buf);
    assert_eq!(scan.frames, vec![p]);
    assert!(buf.is_empty());
}

#[test]
fn start_byte_without_second_header_byte_stalls() {
    let mut buf = vec![0x94, 0x00, 0x01, 0x02];
    let scan = extract_frames(&mut buf);
    assert!(scan.frames.is_empty());
    assert!(scan.stalled);
    assert_eq!(buf, vec![0x94, 0x00, 0x01, 0x02]);
}
