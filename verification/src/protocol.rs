//! Protocol definitions for the communication layer.
use vstd::prelude::*;

pub mod ash_chunks;
pub mod buffers;
pub mod connect;
pub mod control_byte;
pub mod input;
pub mod listener;
pub mod output;
pub mod randomization;
pub mod reset_response;
pub mod response;
pub mod state;
pub mod stuffing;
pub mod task_queue;
pub mod transmitter;
pub mod worker;

pub use buffers::Buffers;
pub use control_byte::{ControlByte, CANCEL, ESCAPE, FLAG, SUBSTITUTE, WAKE, X_OFF, X_ON};
pub use listener::Listener;
pub use randomization::{Mask, MaskGenerator};
pub use reset_response::ResetResponse;
pub use response::{Event, HandleResult, Handler};
pub use state::State;
pub use stuffing::Stuffing;
pub use task_queue::TaskQueue;
pub use transmitter::Transmitter;
pub use worker::Worker;

verus! {

} // verus!
