//! Events delivered to the handler of a pending command, and the handler's answers.
use crate::error::Error;
use vstd::prelude::*;

verus! {

/// Result of handling an event.
#[derive(Clone, Copy, Debug, PartialEq, Eq, Structural)]
pub enum HandleResult {
    /// The handler processed the data and does not expect any more data.
    Completed,
    /// The handler processed the data and expects more data.
    Continue,
    /// The handler could not process the data and cannot continue.
    Failed,
    /// The handler could not process the data and expects more data.
    Reject,
}

/// Events sent to a [`Handler`].
#[derive(Clone, Debug, PartialEq, Eq)]
pub enum Event<T> {
    /// The requested payload has been transmitted completely.
    TransmissionCompleted,
    /// Data has been received for the handler.
    DataReceived(T),
}

/// Handles the events of a command; implemented by the users of the host.
pub trait Handler<T> {
    /// Handles the incoming event and returns an appropriate result.
    fn handle(&self, event: Event<Result<T, Error>>) -> HandleResult;

    /// Aborts the current transaction with an error.
    fn abort(&self, error: Error);

    /// Wakes the task that awaits the command's completion.
    fn wake(&self);
}

} // verus!
