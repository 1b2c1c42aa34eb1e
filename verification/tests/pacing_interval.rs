use rtp_tools::pacing::pacing;

#[test]
fn default_session_interval_is_about_thirteen_point_seven_ms() {
    // 1316 bytes of 16-bit samples: 658 samples at 48 kHz.
    let p = pacing(48000, 16, 1316);
    assert_eq!(p.secs, 0);
    assert_eq!(p.nanos, 13_708_333);
}

#[test]
fn interval_of_exactly_one_second() {
    // 16000 bytes of 16-bit samples: 8000 samples at 8 kHz.
    let p = pacing(8000, 16, 16000);
    assert_eq!(p.secs, 1);
    assert_eq!(p.nanos, 0);
}

#[test]
fn empty_chunk_needs_no_wait() {
    let p = pacing(48000, 16, 0);
    assert_eq!(p.secs, 0);
    assert_eq!(p.nanos, 0);
}

#[test]
fn eight_bit_samples_take_twice_as_long() {
    let wide = pacing(48000, 16, 1316);
    let narrow = pacing(48000, 8, 1316);
    assert_eq!(narrow.secs, 0);
    assert_eq!(narrow.nanos, 2 * wide.nanos);
}
