use protofish::codec::{
    deserialize_message, serialize_message, IntegrityType, Message, Payload, Version,
};

fn round_trip(m: Message) {
    let bytes = serialize_message(&m);
    let back = deserialize_message(bytes.as_slice()).expect("canonical encoding must decode");
    assert_eq!(back, m);
}

#[test]
fn round_trip_okay() {
    round_trip(Message { context_id: 0, payload: Payload::Okay });
}

#[test]
fn round_trip_keepalive() {
    round_trip(Message { context_id: 99, payload: Payload::Keepalive });
}

#[test]
fn round_trip_handshake_hello() {
    round_trip(Message {
        context_id: 1,
        payload: Payload::HandshakeHello(Version { major: 1, minor: 0, patch: 0 }),
    });
    round_trip(Message {
        context_id: u64::MAX,
        payload: Payload::HandshakeHello(Version { major: 2, minor: 7, patch: 4294967295 }),
    });
}

#[test]
fn round_trip_handshake_ack() {
    round_trip(Message { context_id: 0, payload: Payload::HandshakeAck });
}

#[test]
fn round_trip_open_sub_stream() {
    round_trip(Message {
        context_id: 4,
        payload: Payload::OpenSubStream(12345, IntegrityType::Reliable),
    });
    round_trip(Message {
        context_id: 4,
        payload: Payload::OpenSubStream(u64::MAX, IntegrityType::Unreliable),
    });
}

#[test]
fn round_trip_data() {
    round_trip(Message { context_id: 8, payload: Payload::Data(Vec::new()) });
    round_trip(Message { context_id: 8, payload: Payload::Data(b"muffinmuffin".to_vec()) });
}

#[test]
fn round_trip_close() {
    round_trip(Message { context_id: 0, payload: Payload::Close(Vec::new()) });
    round_trip(Message { context_id: 3, payload: Payload::Close(b"unsupported major".to_vec()) });
}

#[test]
fn encoding_is_deterministic() {
    let m = Message { context_id: 42, payload: Payload::Data(vec![1, 2, 3]) };
    let n = Message { context_id: 42, payload: Payload::Data(vec![1, 2, 3]) };
    assert_eq!(serialize_message(&m), serialize_message(&n));
}

#[test]
fn exact_bytes_of_keepalive() {
    // 8 little-endian context-id bytes, then the tag byte.
    let m = Message { context_id: 0x0102, payload: Payload::Keepalive };
    let bytes = serialize_message(&m);
    assert_eq!(bytes, vec![0x02, 0x01, 0, 0, 0, 0, 0, 0, 2]);
}

#[test]
fn exact_bytes_of_data() {
    let m = Message { context_id: 1, payload: Payload::Data(vec![0xAA, 0xBB]) };
    let bytes = serialize_message(&m);
    assert_eq!(
        bytes,
        vec![1, 0, 0, 0, 0, 0, 0, 0, 6, 2, 0, 0, 0, 0, 0, 0, 0, 0xAA, 0xBB]
    );
}

#[test]
fn unknown_tag_is_rejected() {
    // A valid message prefix with an unknown payload tag.
    let bytes = vec![0, 0, 0, 0, 0, 0, 0, 0, 250];
    assert_eq!(deserialize_message(bytes.as_slice()), None);
}

#[test]
fn trailing_bytes_are_rejected() {
    let m = Message { context_id: 5, payload: Payload::Okay };
    let mut bytes = serialize_message(&m);
    bytes.push(0);
    assert_eq!(deserialize_message(bytes.as_slice()), None);
}

#[test]
fn short_buffer_is_rejected() {
    assert_eq!(deserialize_message(&[1, 2, 3]), None);
    assert_eq!(deserialize_message(&[]), None);
}

#[test]
fn wrong_length_prefix_is_rejected() {
    // A Data payload whose length prefix claims one byte more than
    // is present.
    let m = Message { context_id: 5, payload: Payload::Data(vec![7, 7]) };
    let mut bytes = serialize_message(&m);
    // length field sits at offset 9 (8 id bytes + tag)
    bytes[9] = 3;
    assert_eq!(deserialize_message(bytes.as_slice()), None);
}

#[test]
fn bad_integrity_byte_is_rejected() {
    let m = Message { context_id: 5, payload: Payload::OpenSubStream(1, IntegrityType::Reliable) };
    let mut bytes = serialize_message(&m);
    let last = bytes.len() - 1;
    bytes[last] = 9;
    assert_eq!(deserialize_message(bytes.as_slice()), None);
}
