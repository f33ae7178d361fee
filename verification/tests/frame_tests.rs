use protofish::codec::{deserialize_message, serialize_message, Message, Payload};
use protofish::frame::{frame, frame_len, frame_len_admissible, frame_message, unframe,
    MAX_FRAME_SIZE};

#[test]
fn frame_round_trip() {
    let body = b"hello world".to_vec();
    let framed = frame(&body);
    assert_eq!(unframe(&framed), Some(body));
}

#[test]
fn frame_round_trip_empty() {
    let body = Vec::new();
    let framed = frame(&body);
    assert_eq!(framed, vec![0, 0, 0, 0, 0, 0, 0, 0]);
    assert_eq!(unframe(&framed), Some(Vec::new()));
}

#[test]
fn frame_layout_is_little_endian_length() {
    let body = vec![9u8; 258];
    let framed = frame(&body);
    assert_eq!(&framed[0..8], &[2, 1, 0, 0, 0, 0, 0, 0]);
    assert_eq!(framed.len(), 8 + 258);
}

#[test]
fn unframe_rejects_short_buffer() {
    assert_eq!(unframe(&vec![1, 2, 3]), None);
}

#[test]
fn unframe_rejects_wrong_length() {
    let mut framed = frame(&b"abc".to_vec());
    framed.push(0);
    assert_eq!(unframe(&framed), None);
}

#[test]
fn unframe_rejects_over_ceiling_before_allocation() {
    // A length prefix just over the ceiling with no body at all: the
    // reader rejects it from the prefix alone.
    let over = MAX_FRAME_SIZE + 1;
    let mut buf = over.to_le_bytes().to_vec();
    assert!(!frame_len_admissible(frame_len(&buf[0..8])));
    buf.extend(std::iter::repeat(0u8).take(16));
    assert_eq!(unframe(&buf), None);
}

#[test]
fn large_frame_round_trips() {
    // An encoded body over 1 MiB passes under the default ceiling.
    let payload = vec![0x5A; 2 * 1024 * 1024];
    let m = Message { context_id: 3, payload: Payload::Data(payload) };
    let framed = frame_message(&m).expect("2 MiB is under the ceiling");
    assert!(framed.len() > 1024 * 1024);
    let body = unframe(&framed).expect("well-formed frame");
    assert_eq!(deserialize_message(body.as_slice()).as_ref(), Some(&m));
}

#[test]
fn frame_just_over_ceiling_is_rejected() {
    // The encoded message is MAX_FRAME_SIZE + 1 bytes: 8 context-id
    // bytes, 1 tag, 8 length bytes, and the data.
    let data_len = (MAX_FRAME_SIZE as usize + 1) - 17;
    let m = Message { context_id: 3, payload: Payload::Data(vec![0u8; data_len]) };
    assert_eq!(frame_message(&m), None);
}

#[test]
fn frame_at_ceiling_is_accepted() {
    let data_len = (MAX_FRAME_SIZE as usize) - 17;
    let m = Message { context_id: 3, payload: Payload::Data(vec![0u8; data_len]) };
    let framed = frame_message(&m).expect("exactly at the ceiling");
    let body = unframe(&framed).expect("well-formed frame");
    assert_eq!(body.len() as u64, MAX_FRAME_SIZE);
    let got = serialize_message(&m);
    assert_eq!(body, got);
}
