use mp5_usenet::frame::{decode_frame, encode_frame, Decoded, HEADER_LEN, MAX_PAYLOAD};

#[test]
fn encodes_big_endian_header() {
    let bytes = encode_frame(0x0102030405060708, 9, b"hi");
    assert_eq!(
        bytes,
        vec![1, 2, 3, 4, 5, 6, 7, 8, 0, 0, 0, 0, 0, 0, 0, 9, 0, 0, 0, 0, 0, 0, 0, 2, b'h', b'i']
    );
}

#[test]
fn decode_of_encode_roundtrips() {
    let mut bytes = encode_frame(7, 3, b"{\"List\":null}");
    let len = bytes.len();
    bytes.extend_from_slice(&[1, 2, 3]);
    match decode_frame(&bytes) {
        Decoded::Complete { frame, consumed } => {
            assert_eq!(frame.session, 7);
            assert_eq!(frame.index, 3);
            assert_eq!(frame.payload, b"{\"List\":null}".to_vec());
            assert_eq!(consumed, len);
            assert_eq!(encode_frame(frame.session, frame.index, &frame.payload), bytes[..consumed].to_vec());
        }
        _ => panic!("expected a complete frame"),
    }
}

#[test]
fn prefixes_are_incomplete() {
    let bytes = encode_frame(1, 2, b"abc");
    for n in 0..bytes.len() {
        match decode_frame(&bytes[..n]) {
            Decoded::Incomplete { needed } => {
                assert_eq!(needed, if n < HEADER_LEN { HEADER_LEN } else { HEADER_LEN + 3 });
            }
            _ => panic!("prefix of {} bytes should be incomplete", n),
        }
    }
}

#[test]
fn empty_payload_closes() {
    let bytes = encode_frame(1, 2, b"");
    assert!(matches!(decode_frame(&bytes), Decoded::Closed));
}

#[test]
fn payload_longer_than_buffer() {
    let payload = vec![0u8; MAX_PAYLOAD + 1];
    let bytes = encode_frame(1, 2, &payload);
    match decode_frame(&bytes) {
        Decoded::TooLong { len } => assert_eq!(len, (MAX_PAYLOAD + 1) as u64),
        _ => panic!("expected too long"),
    }
    let payload = vec![5u8; MAX_PAYLOAD];
    let bytes = encode_frame(1, 2, &payload);
    assert!(matches!(decode_frame(&bytes), Decoded::Complete { .. }));
}
