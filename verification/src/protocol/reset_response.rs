//! The response to a reset command: it completes once the reset has been transmitted
//! and its result has arrived, in either order.
use crate::error::Error;
use crate::protocol::response::{Event, HandleResult};
use vstd::prelude::*;

verus! {

/// The state of a pending reset command.
#[derive(Clone, Copy, Debug, PartialEq, Eq)]
pub struct ResetResponse {
    /// The result, once it has arrived.
    pub result: Option<Result<(), Error>>,
    /// Whether the reset has been transmitted completely.
    pub transmission_complete: bool,
}

impl ResetResponse {
    /// Creates a response that has neither a result nor a completed transmission.
    pub fn new() -> (res: Self)
        ensures
            res == (ResetResponse { result: None, transmission_complete: false }),
    {
        Self { result: None, transmission_complete: false }
    }

    /// Handles an event; the second value tells whether the waiting task is to be woken.
    ///
    /// The first result that arrives is kept and later ones are rejected; the response
    /// completes, waking the task, when it has both a result and a completed transmission.
    pub fn handle(&mut self, event: Event<Result<(), Error>>) -> (res: (HandleResult, bool))
        ensures
            match event {
                Event::TransmissionCompleted => {
                    &&& final(self).transmission_complete
                    &&& final(self).result == old(self).result
                    &&& res == (if old(self).result is Some {
                        (HandleResult::Completed, true)
                    } else {
                        (HandleResult::Continue, false)
                    })
                },
                Event::DataReceived(data) => {
                    &&& final(self).transmission_complete == old(self).transmission_complete
                    &&& old(self).result is Some ==> res == (HandleResult::Reject, false)
                        && final(self).result == old(self).result
                    &&& old(self).result is None ==> final(self).result == Some(data) && res == (
                    if old(self).transmission_complete {
                        (HandleResult::Completed, true)
                    } else {
                        (HandleResult::Continue, false)
                    })
                },
            },
    {
        match event {
            Event::TransmissionCompleted => {
                self.transmission_complete = true;
                if self.result.is_some() {
                    (HandleResult::Completed, true)
                } else {
                    (HandleResult::Continue, false)
                }
            },
            Event::DataReceived(data) => {
                if self.result.is_some() {
                    (HandleResult::Reject, false)
                } else {
                    self.result = Some(data);
                    if self.transmission_complete {
                        (HandleResult::Completed, true)
                    } else {
                        (HandleResult::Continue, false)
                    }
                }
            },
        }
    }

    /// Aborts the command: its result becomes the error.
    pub fn abort(&mut self, error: Error)
        ensures
            final(self).result == Some(Err::<(), Error>(error)),
            final(self).transmission_complete == old(self).transmission_complete,
    {
        self.result = Some(Err(error));
    }

    /// Takes the result if it has arrived; otherwise the command is still pending.
    pub fn poll(&mut self) -> (res: Option<Result<(), Error>>)
        ensures
            res == old(self).result,
            final(self).result is None,
            final(self).transmission_complete == old(self).transmission_complete,
    {
        self.result.take()
    }
}

impl Default for ResetResponse {
    fn default() -> (res: Self)
        ensures
            res == (ResetResponse { result: None, transmission_complete: false }),
    {
        Self::new()
    }
}

} // verus!
