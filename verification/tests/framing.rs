use rtp_tools::rtp::{frame_packet, EncodingError};

#[test]
fn header_layout_is_twelve_bytes_big_endian() {
    let payload: Vec<u8> = vec![1, 2, 3];
    let packet = frame_packet(111, 1337, 1, 10001, true, &payload).unwrap();
    let expected: Vec<u8> = vec![
        0x80, // version 2, no padding, no extension, no csrcs
        0x80 | 111, // marker set over payload type 111
        0x00, 0x01, // sequence number 1
        0x00, 0x00, 0x27, 0x11, // timestamp 10001
        0x00, 0x00, 0x05, 0x39, // ssrc 1337
        1, 2, 3, // the chunk bytes, unchanged
    ];
    assert_eq!(packet, expected);
}

#[test]
fn unmarked_packet_leaves_marker_bit_clear() {
    let payload: Vec<u8> = vec![9];
    let packet = frame_packet(96, 0xDEADBEEF, 0xABCD, 0xCAFEBABE, false, &payload).unwrap();
    assert_eq!(packet[1], 96);
    assert_eq!(&packet[2..4], &[0xAB, 0xCD]);
    assert_eq!(&packet[4..8], &[0xCA, 0xFE, 0xBA, 0xBE]);
    assert_eq!(&packet[8..12], &[0xDE, 0xAD, 0xBE, 0xEF]);
    assert_eq!(&packet[12..], &[9]);
}

#[test]
fn empty_payload_gives_bare_header() {
    let payload: Vec<u8> = Vec::new();
    let packet = frame_packet(0, 0, 0, 0, false, &payload).unwrap();
    assert_eq!(packet, vec![0x80, 0, 0, 0, 0, 0, 0, 0, 0, 0, 0, 0]);
}

#[test]
fn payload_type_above_seven_bits_is_rejected() {
    let payload: Vec<u8> = vec![1];
    let err = frame_packet(128, 1337, 1, 10001, true, &payload).unwrap_err();
    assert_eq!(err, EncodingError::PayloadTypeInvalid);
    let err = frame_packet(255, 1337, 1, 10001, true, &payload).unwrap_err();
    assert_eq!(err, EncodingError::PayloadTypeInvalid);
}
