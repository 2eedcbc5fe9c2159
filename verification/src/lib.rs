//! A point-to-point bulk-data transfer core: a payload is split into
//! fixed-size chunks, each chunk is framed as a raw UDP datagram with a
//! session header, and a sentinel frame marks the end of the transfer.
//! The transfer driver is a verified state machine; the surrounding
//! process performs the actual channel I/O and feeds the outcomes back.

pub mod digits;
pub mod frame;
pub mod ipv4;
pub mod tasks;
pub mod transfer;

use vstd::prelude::*;

verus! {

/// Number of bytes of payload carried by one data frame, at most.
pub const CHUNK_SIZE: usize = 1024;

/// Sequence-field value reserved for the end-of-transfer frame.
pub const END_SIG: u64 = 0xFFFF_FFFF_FFFF_FFFF;

} // verus!
