use protofish::codec::{
    deserialize_message, serialize_message, IntegrityType, Message, Payload, Version,
};
use protofish::error::ConnectionError;
use protofish::handshake::{
    client_handle_response, client_hello, open_sub_stream_message, parse_open_sub_stream,
    protocol_version, server_handle_hello, unsupported_major_reason, HANDSHAKE_CONTEXT_ID,
};

#[test]
fn version_is_one_zero_zero() {
    assert_eq!(protocol_version(), Version { major: 1, minor: 0, patch: 0 });
}

#[test]
fn handshake_success() {
    // Client sends HandshakeHello{1,0,0}; the server accepts and
    // answers HandshakeAck; the client resolves to an open connection.
    let hello = client_hello();
    assert_eq!(hello.context_id, HANDSHAKE_CONTEXT_ID);
    assert_eq!(
        hello.payload,
        Payload::HandshakeHello(Version { major: 1, minor: 0, patch: 0 })
    );

    // Over the wire and back.
    let wire = serialize_message(&hello);
    let got = deserialize_message(wire.as_slice()).unwrap();

    let (reply, accepted) = server_handle_hello(&got).unwrap();
    assert!(accepted);
    assert_eq!(reply.context_id, HANDSHAKE_CONTEXT_ID);
    assert_eq!(reply.payload, Payload::HandshakeAck);

    let wire = serialize_message(&reply);
    let got = deserialize_message(wire.as_slice()).unwrap();
    assert_eq!(client_handle_response(got), Ok(()));
}

#[test]
fn handshake_version_reject() {
    // Client sends HandshakeHello{2,0,0}; the server answers
    // Close("unsupported major"); the client fails with
    // HandshakeReject.
    let hello = Message {
        context_id: HANDSHAKE_CONTEXT_ID,
        payload: Payload::HandshakeHello(Version { major: 2, minor: 0, patch: 0 }),
    };
    let (reply, accepted) = server_handle_hello(&hello).unwrap();
    assert!(!accepted);
    assert_eq!(reply.payload, Payload::Close(b"unsupported major".to_vec()));

    let wire = serialize_message(&reply);
    let got = deserialize_message(wire.as_slice()).unwrap();
    match client_handle_response(got) {
        Err(ConnectionError::HandshakeReject(reason)) => {
            assert_eq!(reason, b"unsupported major".to_vec());
        }
        other => panic!("expected a handshake rejection, got {:?}", other),
    }
}

#[test]
fn refusal_reason_bytes() {
    assert_eq!(unsupported_major_reason(), b"unsupported major".to_vec());
}

#[test]
fn non_hello_first_message_is_malformed() {
    let m = Message { context_id: HANDSHAKE_CONTEXT_ID, payload: Payload::Keepalive };
    assert_eq!(server_handle_hello(&m), Err(ConnectionError::MalformedMessage));

    let m = Message {
        context_id: 4,
        payload: Payload::HandshakeHello(Version { major: 1, minor: 0, patch: 0 }),
    };
    assert_eq!(server_handle_hello(&m), Err(ConnectionError::MalformedMessage));
}

#[test]
fn unexpected_handshake_response_is_malformed() {
    let m = Message { context_id: HANDSHAKE_CONTEXT_ID, payload: Payload::Okay };
    assert_eq!(client_handle_response(m), Err(ConnectionError::MalformedMessage));

    let m = Message { context_id: 9, payload: Payload::HandshakeAck };
    assert_eq!(client_handle_response(m), Err(ConnectionError::MalformedMessage));
}

#[test]
fn open_sub_stream_announcement_round_trips() {
    let m = open_sub_stream_message(6, 12345, IntegrityType::Reliable);
    assert_eq!(m.context_id, 6);
    let wire = serialize_message(&m);
    let got = deserialize_message(wire.as_slice()).unwrap();
    assert_eq!(
        parse_open_sub_stream(&got.payload),
        Some((12345, IntegrityType::Reliable))
    );
}

#[test]
fn three_distinct_sub_stream_announcements() {
    // Three parallel sub-streams announced on one arbitrary context,
    // each matched back to its own identifier.
    for i in 0..3u64 {
        let m = open_sub_stream_message(2, 100 + i, IntegrityType::Reliable);
        let wire = serialize_message(&m);
        let got = deserialize_message(wire.as_slice()).unwrap();
        assert_eq!(
            parse_open_sub_stream(&got.payload),
            Some((100 + i, IntegrityType::Reliable))
        );
    }
}

#[test]
fn non_announcement_payload_is_not_a_sub_stream() {
    assert_eq!(parse_open_sub_stream(&Payload::Keepalive), None);
    assert_eq!(parse_open_sub_stream(&Payload::Data(vec![5])), None);
}
