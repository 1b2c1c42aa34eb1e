use rtp_tools::rtp::EncodingError;
use rtp_tools::transmit::{plan_session, FramingMode, SessionParams, Transmitter, TxStatus};

#[test]
fn default_params_match_the_simplest_session() {
    let p = SessionParams::default();
    assert_eq!(p.payload_type, 111);
    assert_eq!(p.ssrc, 1337);
    assert_eq!(p.initial_seq, 1);
    assert_eq!(p.timestamp_base, 10001);
    assert!(p.marked);
}

#[test]
fn empty_buffer_sends_nothing_and_succeeds() {
    let buffer: Vec<u8> = Vec::new();
    let mut t = plan_session(&buffer, 1316, FramingMode::Timestamped, SessionParams::default())
        .unwrap();
    assert_eq!(t.total_chunks(), 0);
    assert!(t.next_datagram().is_none());
    assert_eq!(t.status(), TxStatus::Done);
    assert_eq!(t.sent_so_far(), 0);
}

#[test]
fn failure_on_chunk_two_of_five_abandons_the_rest() {
    let buffer: Vec<u8> = vec![10, 20, 30, 40, 50];
    let mut t = plan_session(&buffer, 1, FramingMode::Raw, SessionParams::default()).unwrap();
    assert_eq!(t.total_chunks(), 5);

    let first = t.next_datagram().unwrap();
    assert_eq!(first, vec![10]);
    t.record_send(true);

    let second = t.next_datagram().unwrap();
    assert_eq!(second, vec![20]);
    t.record_send(false);

    assert_eq!(t.status(), TxStatus::Failed);
    assert_eq!(t.sent_so_far(), 2);
    assert!(t.next_datagram().is_none());
    assert!(t.next_datagram().is_none());
    assert_eq!(t.sent_so_far(), 2);
    assert_eq!(t.status(), TxStatus::Failed);
}

#[test]
fn sequence_numbers_step_by_one_and_chunks_keep_their_order() {
    let buffer: Vec<u8> = vec![7, 8, 9, 10];
    let mut t = plan_session(&buffer, 1, FramingMode::Timestamped, SessionParams::default())
        .unwrap();
    let mut datagrams: Vec<Vec<u8>> = Vec::new();
    while let Some(d) = t.next_datagram() {
        t.record_send(true);
        datagrams.push(d);
    }
    assert_eq!(t.status(), TxStatus::Done);
    assert_eq!(datagrams.len(), 4);
    for (i, d) in datagrams.iter().enumerate() {
        let seq = u16::from_be_bytes([d[2], d[3]]);
        let ts = u32::from_be_bytes([d[4], d[5], d[6], d[7]]);
        assert_eq!(seq, 1 + i as u16);
        assert_eq!(ts, 10001 + i as u32);
        assert_eq!(&d[12..], &buffer[i..i + 1]);
    }
}

#[test]
fn raw_datagrams_concatenate_back_to_the_buffer() {
    let buffer: Vec<u8> = (0..=255u8).map(|b| b.wrapping_mul(31)).collect();
    let mut t = plan_session(&buffer, 100, FramingMode::Raw, SessionParams::default()).unwrap();
    let mut replay: Vec<u8> = Vec::new();
    let mut count = 0;
    while let Some(d) = t.next_datagram() {
        t.record_send(true);
        replay.extend_from_slice(&d);
        count += 1;
    }
    assert_eq!(count, 3);
    assert_eq!(replay, buffer);
}

#[test]
fn sequence_numbers_wrap_at_the_sixteen_bit_boundary() {
    let buffer: Vec<u8> = vec![1, 2];
    let params = SessionParams { initial_seq: 0xFFFF, ..SessionParams::default() };
    let mut t = plan_session(&buffer, 1, FramingMode::Timestamped, params).unwrap();
    let first = t.next_datagram().unwrap();
    t.record_send(true);
    let second = t.next_datagram().unwrap();
    assert_eq!(u16::from_be_bytes([first[2], first[3]]), 0xFFFF);
    assert_eq!(u16::from_be_bytes([second[2], second[3]]), 0x0000);
}

#[test]
fn timestamped_session_rejects_wide_payload_type() {
    let params = SessionParams { payload_type: 128, ..SessionParams::default() };
    let buffer: Vec<u8> = vec![1];
    let err = plan_session(&buffer, 1, FramingMode::Timestamped, params).unwrap_err();
    assert_eq!(err, EncodingError::PayloadTypeInvalid);
    // Raw framing never builds a header, so the payload type is not checked.
    assert!(plan_session(&buffer, 1, FramingMode::Raw, params).is_ok());
}

#[test]
fn transmitter_over_prechunked_data() {
    let chunks: Vec<Vec<u8>> = vec![vec![1, 2], vec![3]];
    let mut t = Transmitter::new(chunks, FramingMode::Raw, SessionParams::default()).unwrap();
    assert_eq!(t.total_chunks(), 2);
    assert_eq!(t.next_datagram().unwrap(), vec![1, 2]);
    t.record_send(true);
    assert_eq!(t.next_datagram().unwrap(), vec![3]);
    t.record_send(true);
    assert!(t.next_datagram().is_none());
    assert_eq!(t.status(), TxStatus::Done);
    assert_eq!(t.sent_so_far(), 2);
}
