//! Framing a chunk as a real-time transport packet: a fixed 12-byte header
//! carrying payload type, marker, sequence number, timestamp and
//! synchronization source identifier, followed by the chunk bytes.

use vstd::prelude::*;

verus! {

/// The 12 fixed header bytes of a transport packet: version 2, no padding,
/// no extension, no contributing sources in the first byte; the marker bit
/// over the seven-bit payload type in the second; then the sequence number,
/// the timestamp and the synchronization source identifier, each big-endian.
pub open spec fn rtp_header_bytes(
    payload_type: u8,
    marked: bool,
    sequence: u16,
    timestamp: u32,
    ssrc: u32,
) -> Seq<u8>
    recommends
        payload_type <= 0x7f,
{
    seq![
        0x80u8,
        (payload_type as int + if marked {
            0x80int
        } else {
            0int
        }) as u8,
        (sequence as int / 0x100) as u8,
        (sequence as int % 0x100) as u8,
        (timestamp as int / 0x1000000) as u8,
        (timestamp as int / 0x10000 % 0x100) as u8,
        (timestamp as int / 0x100 % 0x100) as u8,
        (timestamp as int % 0x100) as u8,
        (ssrc as int / 0x1000000) as u8,
        (ssrc as int / 0x10000 % 0x100) as u8,
        (ssrc as int / 0x100 % 0x100) as u8,
        (ssrc as int % 0x100) as u8,
    ]
}

/// Relies on `rtp_rs::RtpPacketBuilder`: for a packet with a payload, no
/// extension, no contributing sources and no padding, `build` fails exactly
/// when the payload type exceeds `0x7f`, and otherwise returns a buffer
/// holding the 12-byte big-endian header followed by the payload bytes.
#[verifier::external_body]
fn rtp_build(
    payload_type: u8,
    ssrc: u32,
    sequence: u16,
    timestamp: u32,
    marked: bool,
    payload: &Vec<u8>,
) -> (r: Option<Vec<u8>>)
    ensures
        r is Some <==> payload_type <= 0x7f,
        r is Some ==> r->Some_0@ == rtp_header_bytes(
            payload_type,
            marked,
            sequence,
            timestamp,
            ssrc,
        ) + payload@,
{
    let built = rtp_rs::RtpPacketBuilder::new()
        .payload_type(payload_type)
        .ssrc(ssrc)
        .sequence(rtp_rs::Seq::from(sequence))
        .timestamp(timestamp)
        .marked(marked)
        .payload(payload.as_slice())
        .build();
    match built {
        Ok(v) => Some(v),
        Err(_) => None,
    }
}

/// Why a chunk could not be framed into a transport packet.
#[derive(Debug, Clone, Copy, PartialEq, Eq, Structural)]
pub enum EncodingError {
    /// The payload type does not fit the seven-bit header field.
    PayloadTypeInvalid,
}

/// Wrap `payload` in a transport header carrying the given metadata.
/// Returns the full datagram bytes — header, then payload, unchanged — and
/// fails exactly when `payload_type` exceeds the seven-bit header field.
pub fn frame_packet(
    payload_type: u8,
    ssrc: u32,
    sequence: u16,
    timestamp: u32,
    marked: bool,
    payload: &Vec<u8>,
) -> (r: Result<Vec<u8>, EncodingError>)
    ensures
        payload_type <= 0x7f ==> (r matches Ok(v) && v@ == rtp_header_bytes(
            payload_type,
            marked,
            sequence,
            timestamp,
            ssrc,
        ) + payload@),
        payload_type > 0x7f ==> (r matches Err(e) && e == EncodingError::PayloadTypeInvalid),
{
    match rtp_build(payload_type, ssrc, sequence, timestamp, marked, payload) {
        Some(v) => Ok(v),
        None => Err(EncodingError::PayloadTypeInvalid),
    }
}

} // verus!
