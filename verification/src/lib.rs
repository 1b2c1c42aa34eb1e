//! Splitting a byte buffer into MTU-bounded chunks and emitting them as a
//! paced stream of datagrams, optionally framed with a real-time transport
//! header carrying a sequence number, a timestamp and a source identifier.

pub mod chunker;
pub mod pacing;
pub mod rtp;
pub mod transmit;
