//! Requests to the transceiver.
use vstd::prelude::*;

verus! {

/// A request to the transceiver: send a payload, or shut down.
#[derive(Debug, PartialEq, Eq)]
pub enum Request {
    /// Send the payload to the NCP.
    Data(Box<[u8]>),
    /// Shut the transceiver down.
    Shutdown,
}

} // verus!
