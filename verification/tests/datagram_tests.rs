use protofish::codec::StreamId;
use protofish::datagram::{decode_datagram, encode_datagram, u64_from_be_bytes, u64_to_be_bytes};

#[test]
fn test_datagram_encoding() {
    let id: StreamId = 12345;
    let data = b"hello world".to_vec();

    let encoded = encode_datagram(id, &data);
    let (decoded_id, decoded_data) = decode_datagram(&encoded).unwrap();

    assert_eq!(decoded_id, id);
    assert_eq!(decoded_data, data);
}

#[test]
fn test_datagram_decode_too_short() {
    let short_data = vec![1, 2, 3];
    assert!(decode_datagram(&short_data).is_none());
}

#[test]
fn datagram_header_is_big_endian() {
    let encoded = encode_datagram(0x0102030405060708, &Vec::new());
    assert_eq!(encoded, vec![1, 2, 3, 4, 5, 6, 7, 8]);
}

#[test]
fn exactly_eight_bytes_is_an_empty_payload() {
    let encoded = encode_datagram(7, &Vec::new());
    assert_eq!(encoded.len(), 8);
    let (id, payload) = decode_datagram(&encoded).unwrap();
    assert_eq!(id, 7);
    assert!(payload.is_empty());
}

#[test]
fn hundred_byte_payload_round_trips() {
    let data: Vec<u8> = (0..100u8).collect();
    let encoded = encode_datagram(200, &data);
    assert_eq!(encoded.len(), 108);
    let (id, payload) = decode_datagram(&encoded).unwrap();
    assert_eq!(id, 200);
    assert_eq!(payload.len(), 100);
    assert_eq!(payload, data);
}

#[test]
fn be_bytes_round_trip() {
    let bytes = u64_to_be_bytes(u64::MAX - 3);
    assert_eq!(u64_from_be_bytes(bytes.as_slice()), u64::MAX - 3);
    assert_eq!(u64_to_be_bytes(1), vec![0, 0, 0, 0, 0, 0, 0, 1]);
}
