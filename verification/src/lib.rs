//! Asynchronous Serial Host version 2 (`ASHv2`).
//!
//! Frame encoding and decoding, byte stuffing, payload randomization, CRC
//! checking and the host-side link state of the `ASHv2` protocol.
use vstd::prelude::*;

pub mod baud_rate;
pub mod buffers;
pub mod code;
pub mod crc;
pub mod error;
pub mod format;
pub mod packet;
pub mod protocol;
pub mod read_frame;
pub mod request;
pub mod seq_num;
pub mod status;
pub mod write_frame;

verus! {

/// The protocol version of `ASHv2`.
pub const VERSION: u8 = 0x02;

} // verus!
