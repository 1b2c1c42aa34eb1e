//! The transmit session: hands out one datagram per chunk, in strictly
//! increasing chunk-index order, with per-packet sequence numbers and
//! timestamps, and stops for good after the first failed send.

use vstd::prelude::*;
use crate::rtp::{frame_packet, rtp_header_bytes, EncodingError};

verus! {

/// How each chunk is put on the wire.
#[derive(Debug, Clone, Copy, PartialEq, Eq, Structural)]
pub enum FramingMode {
    /// The chunk bytes are sent unmodified.
    Raw,
    /// Each chunk is wrapped in a transport header with an incrementing
    /// sequence number and timestamp.
    Timestamped,
}

/// Framing parameters fixed for a whole transfer session.
#[derive(Debug, Clone, Copy, PartialEq, Eq, Structural)]
pub struct SessionParams {
    /// Seven-bit payload type carried by every packet.
    pub payload_type: u8,
    /// Synchronization source identifier, fixed for the session.
    pub ssrc: u32,
    /// Sequence number of the first packet.
    pub initial_seq: u16,
    /// Timestamp of the first packet.
    pub timestamp_base: u32,
    /// Marker flag applied to every packet.
    pub marked: bool,
}

impl Default for SessionParams {
    /// The default session: payload type 111, source identifier 1337,
    /// sequence numbers from 1, timestamps from 10001, every packet marked.
    fn default() -> (p: Self)
        ensures
            p == (SessionParams {
                payload_type: 111,
                ssrc: 1337,
                initial_seq: 1,
                timestamp_base: 10001,
                marked: true,
            }),
    {
        SessionParams {
            payload_type: 111,
            ssrc: 1337,
            initial_seq: 1,
            timestamp_base: 10001,
            marked: true,
        }
    }
}

/// Sequence number of packet `i` (zero-based): the initial value advanced
/// `i` steps, wrapping at the 16-bit boundary.
pub open spec fn seq_for(initial: u16, i: int) -> u16
    recommends
        i >= 0,
{
    ((initial + i) % 0x10000) as u16
}

/// Timestamp of packet `i` (zero-based): the base advanced one unit per
/// packet, wrapping at the 32-bit boundary.
pub open spec fn ts_for(base: u32, i: int) -> u32
    recommends
        i >= 0,
{
    ((base + i) % 0x1_0000_0000) as u32
}

/// The datagram bytes that carry chunk `i` of a session: the chunk itself
/// under raw framing, or a transport header followed by the chunk.
pub open spec fn datagram_for(
    framing: FramingMode,
    params: SessionParams,
    chunk: Seq<u8>,
    i: int,
) -> Seq<u8>
    recommends
        i >= 0,
{
    match framing {
        FramingMode::Raw => chunk,
        FramingMode::Timestamped => rtp_header_bytes(
            params.payload_type,
            params.marked,
            seq_for(params.initial_seq, i),
            ts_for(params.timestamp_base, i),
            params.ssrc,
        ) + chunk,
    }
}

/// Order-preservation law: the first packet carries the initial sequence
/// number, and the sequence numbers of consecutively emitted packets
/// increase by exactly one, wrapping at the 16-bit boundary, with no gaps.
pub proof fn lemma_sequence_numbers_consecutive(initial: u16, i: int)
    requires
        i >= 0,
    ensures
        seq_for(initial, 0) == initial,
        seq_for(initial, i + 1) == ((seq_for(initial, i) + 1) % 0x10000) as u16,
{
    vstd::arithmetic::div_mod::lemma_small_mod(initial as nat, 0x10000nat);
    vstd::arithmetic::div_mod::lemma_add_mod_noop(initial + i, 1, 0x10000);
    vstd::arithmetic::div_mod::lemma_small_mod(1nat, 0x10000nat);
}

/// Where a transmit session stands.
#[derive(Debug, Clone, Copy, PartialEq, Eq, Structural)]
pub enum TxStatus {
    /// Chunks are still being handed out.
    Sending,
    /// Every chunk was handed out and acknowledged as sent.
    Done,
    /// A send failed; the rest of the stream was abandoned.
    Failed,
}

/// A one-shot transmit session over an already-chunked buffer: datagrams
/// come out one per chunk, in index order, and the first recorded send
/// failure aborts the remainder.
#[derive(Debug)]
pub struct Transmitter {
    chunks: Vec<Vec<u8>>,
    framing: FramingMode,
    params: SessionParams,
    next_index: usize,
    status: TxStatus,
}

impl Transmitter {
    /// The chunk sequence this session emits, in index order.
    pub closed spec fn chunks_view(&self) -> Seq<Seq<u8>> {
        self.chunks@.map_values(|c: Vec<u8>| c@)
    }

    /// The session's framing mode.
    pub closed spec fn framing_spec(&self) -> FramingMode {
        self.framing
    }

    /// The session's fixed framing parameters.
    pub closed spec fn params_spec(&self) -> SessionParams {
        self.params
    }

    /// How many datagrams were handed out so far.
    pub closed spec fn sent(&self) -> int {
        self.next_index as int
    }

    /// Where the session stands.
    pub closed spec fn status_spec(&self) -> TxStatus {
        self.status
    }

    /// Total number of chunks in the session.
    pub open spec fn total(&self) -> int {
        self.chunks_view().len() as int
    }

    /// Session invariant: progress never passes the chunk count, a
    /// timestamped session carries a valid payload type, and `Done` means
    /// every chunk went out.
    pub open spec fn wf(&self) -> bool {
        &&& self.sent() <= self.total()
        &&& self.framing_spec() == FramingMode::Timestamped ==> self.params_spec().payload_type
            <= 0x7f
        &&& self.status_spec() == TxStatus::Done ==> self.sent() == self.total()
    }

    /// Open a session over `chunks`. Fails exactly when timestamped framing
    /// is asked for with a payload type that does not fit the seven-bit
    /// header field.
    pub fn new(chunks: Vec<Vec<u8>>, framing: FramingMode, params: SessionParams) -> (r: Result<
        Transmitter,
        EncodingError,
    >)
        ensures
            r is Ok <==> (framing == FramingMode::Raw || params.payload_type <= 0x7f),
            r matches Ok(t) ==> {
                &&& t.wf()
                &&& t.chunks_view() == chunks@.map_values(|c: Vec<u8>| c@)
                &&& t.framing_spec() == framing
                &&& t.params_spec() == params
                &&& t.sent() == 0
                &&& t.status_spec() == TxStatus::Sending
            },
            r matches Err(e) ==> e == EncodingError::PayloadTypeInvalid,
    {
        let needs_header = match framing {
            FramingMode::Raw => false,
            FramingMode::Timestamped => true,
        };
        if needs_header && params.payload_type > 0x7f {
            Err(EncodingError::PayloadTypeInvalid)
        } else {
            Ok(Transmitter { chunks, framing, params, next_index: 0, status: TxStatus::Sending })
        }
    }

    /// Hand out the next datagram: chunk `i` becomes datagram `i`, so chunk
    /// `i` always precedes chunk `i + 1` in the emitted stream. Returns
    /// `None` — moving a finished session to `Done` — once every chunk has
    /// been handed out, and after a recorded failure.
    pub fn next_datagram(&mut self) -> (r: Option<Vec<u8>>)
        requires
            old(self).wf(),
        ensures
            final(self).wf(),
            final(self).chunks_view() == old(self).chunks_view(),
            final(self).framing_spec() == old(self).framing_spec(),
            final(self).params_spec() == old(self).params_spec(),
            old(self).status_spec() == TxStatus::Sending && old(self).sent() < old(self).total()
                ==> {
                &&& r matches Some(v) && v@ == datagram_for(
                    old(self).framing_spec(),
                    old(self).params_spec(),
                    old(self).chunks_view()[old(self).sent()],
                    old(self).sent(),
                )
                &&& final(self).sent() == old(self).sent() + 1
                &&& final(self).status_spec() == TxStatus::Sending
            },
            old(self).status_spec() == TxStatus::Sending && old(self).sent() == old(self).total()
                ==> {
                &&& r is None
                &&& final(self).sent() == old(self).sent()
                &&& final(self).status_spec() == TxStatus::Done
            },
            old(self).status_spec() != TxStatus::Sending ==> r is None && *final(self) == *old(
                self,
            ),
    {
        match self.status {
            TxStatus::Sending => {},
            _ => {
                return None;
            },
        }
        if self.next_index == self.chunks.len() {
            self.status = TxStatus::Done;
            return None;
        }
        let i = self.next_index;
        let bytes: Vec<u8> = match self.framing {
            FramingMode::Raw => {
                let copy = self.chunks[i].clone();
                proof {
                    assert forall|k: int| 0 <= k < self.chunks@[i as int]@.len() implies copy@[k]
                        == self.chunks@[i as int]@[k] by {
                        assert(cloned::<u8>(self.chunks@[i as int]@[k], copy@[k]));
                    }
                    assert(copy@ =~= self.chunks@[i as int]@);
                }
                copy
            },
            FramingMode::Timestamped => {
                let sequence = wrapped_seq(self.params.initial_seq, i);
                let stamp = wrapped_ts(self.params.timestamp_base, i);
                let framed = frame_packet(
                    self.params.payload_type,
                    self.params.ssrc,
                    sequence,
                    stamp,
                    self.params.marked,
                    &self.chunks[i],
                );
                framed.unwrap()
            },
        };
        self.next_index = i + 1;
        Some(bytes)
    }

    /// Record the transport's verdict on the datagram last handed out: a
    /// failed send moves the session to `Failed`, after which nothing more
    /// is handed out; a successful send changes nothing.
    pub fn record_send(&mut self, ok: bool)
        requires
            old(self).wf(),
        ensures
            final(self).wf(),
            final(self).chunks_view() == old(self).chunks_view(),
            final(self).framing_spec() == old(self).framing_spec(),
            final(self).params_spec() == old(self).params_spec(),
            final(self).sent() == old(self).sent(),
            ok ==> *final(self) == *old(self),
            !ok ==> final(self).status_spec() == TxStatus::Failed,
    {
        if !ok {
            self.status = TxStatus::Failed;
        }
    }

    /// Total number of chunks in the session.
    pub fn total_chunks(&self) -> (n: usize)
        ensures
            n as int == self.total(),
    {
        self.chunks.len()
    }

    /// How many datagrams were handed out so far.
    pub fn sent_so_far(&self) -> (n: usize)
        ensures
            n as int == self.sent(),
    {
        self.next_index
    }

    /// Where the session stands.
    pub fn status(&self) -> (s: TxStatus)
        ensures
            s == self.status_spec(),
    {
        self.status
    }
}

/// Split `buffer` into chunks of at most `header_len` bytes and open a
/// transmit session over them: the compute side of playing a buffer to a
/// peer. Fails exactly when timestamped framing is asked for with a payload
/// type that does not fit the seven-bit header field.
pub fn plan_session(
    buffer: &Vec<u8>,
    header_len: usize,
    framing: FramingMode,
    params: SessionParams,
) -> (r: Result<Transmitter, EncodingError>)
    requires
        header_len > 0,
    ensures
        r is Ok <==> (framing == FramingMode::Raw || params.payload_type <= 0x7f),
        r matches Ok(t) ==> {
            &&& t.wf()
            &&& t.chunks_view() == crate::chunker::chunks_of(buffer@, header_len as int)
            &&& t.total() == crate::chunker::chunk_count(buffer@.len() as int, header_len as int)
            &&& t.framing_spec() == framing
            &&& t.params_spec() == params
            &&& t.sent() == 0
            &&& t.status_spec() == TxStatus::Sending
        },
        r matches Err(e) ==> e == EncodingError::PayloadTypeInvalid,
{
    let chunks = crate::chunker::chunk(buffer, header_len);
    proof {
        assert(chunks@.map_values(|c: Vec<u8>| c@) =~= crate::chunker::chunks_of(
            buffer@,
            header_len as int,
        ));
    }
    Transmitter::new(chunks, framing, params)
}

/// Sequence number of packet `i`, computed with 16-bit wraparound.
fn wrapped_seq(initial: u16, i: usize) -> (s: u16)
    ensures
        s == seq_for(initial, i as int),
{
    let sum: u64 = initial as u64 + (i as u64) % 0x10000;
    proof {
        vstd::arithmetic::div_mod::lemma_add_mod_noop(initial as int, i as int, 0x10000);
        vstd::arithmetic::div_mod::lemma_small_mod(initial as nat, 0x10000nat);
        vstd::arithmetic::div_mod::lemma_mod_bound(i as int, 0x10000);
        vstd::arithmetic::div_mod::lemma_mod_bound(sum as int, 0x10000);
    }
    (sum % 0x10000) as u16
}

/// Timestamp of packet `i`, computed with 32-bit wraparound.
fn wrapped_ts(base: u32, i: usize) -> (t: u32)
    ensures
        t == ts_for(base, i as int),
{
    let sum: u128 = base as u128 + (i as u128) % 0x1_0000_0000;
    proof {
        vstd::arithmetic::div_mod::lemma_add_mod_noop(base as int, i as int, 0x1_0000_0000);
        vstd::arithmetic::div_mod::lemma_small_mod(base as nat, 0x1_0000_0000nat);
        vstd::arithmetic::div_mod::lemma_mod_bound(i as int, 0x1_0000_0000);
        vstd::arithmetic::div_mod::lemma_mod_bound(sum as int, 0x1_0000_0000);
    }
    (sum % 0x1_0000_0000) as u32
}

} // verus!
