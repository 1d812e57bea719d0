//! The input and output buffers of the host.
use crate::protocol::input::Input;
use crate::protocol::output::Output;
use vstd::prelude::*;

verus! {

/// The received and the sent frames, with the raw bytes of the frames in transit.
#[derive(Debug)]
pub struct Buffers {
    pub input: Input,
    pub output: Output,
}

impl Buffers {
    /// Creates empty buffers.
    pub fn new() -> (res: Self)
        ensures
            res.input@.data.len() == 0,
            res.input@.buffer.len() == 0,
            res.output@.data.len() == 0,
            res.output@.retransmit.len() == 0,
            res.output@.buffer.len() == 0,
    {
        Self { input: Input::new(), output: Output::new() }
    }

    /// Empties all buffers.
    pub fn clear(&mut self)
        ensures
            final(self).input@.data.len() == 0,
            final(self).input@.buffer.len() == 0,
            final(self).output@.data.len() == 0,
            final(self).output@.retransmit.len() == 0,
            final(self).output@.buffer.len() == 0,
    {
        self.input.clear();
        self.output.clear();
    }
}

impl Default for Buffers {
    fn default() -> (res: Self)
        ensures
            res.input@.data.len() == 0,
            res.input@.buffer.len() == 0,
            res.output@.data.len() == 0,
            res.output@.retransmit.len() == 0,
            res.output@.buffer.len() == 0,
    {
        Self::new()
    }
}

} // verus!
