use linbridge::frame::{encode_packet, parse_packet, Frame, Packet, PacketError};

#[test]
fn test_fail_to_parse_empty_packet_as_frame() {
    let empty_packet: [u8; 0] = [];

    assert!(parse_packet(&empty_packet).is_err())
}

#[test]
fn test_parse_packet_with_can_padding() {
    let raw_packet: [u8; 16] = [0x31, 0, 0, 0, 3, 0, 0, 0, 10, 20, 30, 0, 0, 0, 0, 0];

    assert_eq!(
        parse_packet(&raw_packet).unwrap(),
        Packet {
            frame: Frame {
                id: 0x31,
                msg: vec![10, 20, 30]
            }
        }
    );
}

#[test]
fn test_parse_request_update_frame() {
    let raw_packet: [u8; 16] = [0x31, 0, 0, 0, 0, 0, 0, 0, 0, 0, 0, 0, 0, 0, 0, 0];

    let frame = parse_packet(&raw_packet).unwrap().frame;
    assert_eq!(frame.id, 0x31);
    assert!(frame.msg.is_empty());
}

#[test]
fn encode_writes_little_endian_header() {
    let f = Frame { id: 0x1234_5678, msg: vec![1, 2, 3] };
    assert_eq!(encode_packet(&f), vec![0x78, 0x56, 0x34, 0x12, 3, 0, 0, 0, 1, 2, 3]);
}

#[test]
fn round_trip_with_padding() {
    let f = Frame { id: 0xDEAD_BEEF, msg: vec![9, 8, 7, 6, 5] };
    let mut bytes = encode_packet(&f);
    bytes.extend_from_slice(&[0xAA, 0xBB, 0xCC]);
    assert_eq!(parse_packet(&bytes).unwrap().frame, f);
}

#[test]
fn round_trip_empty_frame_with_padding() {
    let f = Frame { id: 7, msg: vec![] };
    let mut bytes = encode_packet(&f);
    bytes.extend_from_slice(&[1, 2, 3, 4, 5, 6, 7, 8]);
    assert_eq!(parse_packet(&bytes).unwrap().frame, f);
}

#[test]
fn round_trip_largest_payload() {
    let f = Frame { id: 1, msg: (0..247u32).map(|i| i as u8).collect() };
    let bytes = encode_packet(&f);
    assert_eq!(parse_packet(&bytes).unwrap().frame, f);
}

#[test]
fn short_inputs_are_too_short() {
    for n in 0..8 {
        let bytes = vec![0u8; n];
        assert_eq!(parse_packet(&bytes), Err(PacketError::TooShort));
    }
}

#[test]
fn declared_length_beyond_payload_is_refused() {
    let raw: [u8; 11] = [1, 0, 0, 0, 5, 0, 0, 0, 1, 2, 3];
    assert_eq!(parse_packet(&raw), Err(PacketError::LengthMismatch));
}

#[test]
fn declared_length_without_payload_is_accepted() {
    let raw: [u8; 8] = [0x10, 0x20, 0, 0, 200, 0, 0, 0];
    let frame = parse_packet(&raw).unwrap().frame;
    assert_eq!(frame.id, 0x2010);
    assert!(frame.msg.is_empty());
}

#[test]
fn declared_length_equal_to_payload_keeps_all() {
    let raw: [u8; 10] = [2, 0, 0, 0, 2, 9, 9, 9, 4, 5];
    assert_eq!(parse_packet(&raw).unwrap().frame, Frame { id: 2, msg: vec![4, 5] });
}
