//! Reading frames from a byte stream: control bytes are interpreted, the bytes of a
//! frame are collected up to the flag byte and then unstuffed.
use crate::buffers::{
    frame_buffer_as_slice, frame_buffer_clear, frame_buffer_push, frame_bytes, FrameBuffer,
    FRAME_BUFFER_SIZE,
};
use crate::error::FrameError;
use crate::protocol::control_byte::{CANCEL, ESCAPE, FLAG, SUBSTITUTE, WAKE, X_OFF, X_ON};
use crate::protocol::stuffing::{spec_unstuff, Stuffing};
use vstd::prelude::*;

verus! {

/// The state of a frame reader between two bytes.
pub struct ReaderState {
    /// The bytes of the frame in progress.
    pub buffer: Seq<u8>,
    /// Whether a SUBSTITUTE byte has marked the frame in progress as corrupt.
    pub error: bool,
}

/// What reading one byte leads to.
#[derive(Clone, Copy, Debug, PartialEq, Eq, Structural)]
pub enum ReadStep {
    /// The frame is not complete yet.
    Pending,
    /// A frame is complete; the buffer holds its unstuffed bytes.
    Frame,
    /// The buffer cannot hold the byte.
    Overflow,
}

/// The empty reader state.
pub open spec fn initial_state() -> ReaderState {
    ReaderState { buffer: Seq::empty(), error: false }
}

/// The effect of one byte on the reader state.
pub open spec fn spec_step(state: ReaderState, byte: u8) -> (ReaderState, ReadStep) {
    if byte == CANCEL {
        (initial_state(), ReadStep::Pending)
    } else if byte == FLAG {
        if !state.error && state.buffer.len() > 0 {
            (ReaderState { buffer: spec_unstuff(state.buffer), error: false }, ReadStep::Frame)
        } else {
            (initial_state(), ReadStep::Pending)
        }
    } else if byte == SUBSTITUTE {
        (ReaderState { buffer: state.buffer, error: true }, ReadStep::Pending)
    } else if byte == X_ON || byte == X_OFF {
        (state, ReadStep::Pending)
    } else if byte == WAKE && state.buffer.len() == 0 {
        (state, ReadStep::Pending)
    } else if state.buffer.len() < FRAME_BUFFER_SIZE {
        (ReaderState { buffer: state.buffer.push(byte), error: state.error }, ReadStep::Pending)
    } else {
        (state, ReadStep::Overflow)
    }
}

/// Feeds bytes to the reader until a frame is complete, the buffer overflows or the
/// bytes run out; returns the final state, the last step and the number of bytes read.
pub open spec fn spec_run(state: ReaderState, bytes: Seq<u8>) -> (ReaderState, ReadStep, nat)
    decreases bytes.len(),
{
    if bytes.len() == 0 {
        (state, ReadStep::Pending, 0)
    } else {
        let (next, step) = spec_step(state, bytes[0]);
        if step == ReadStep::Pending {
            let (last, last_step, n) = spec_run(next, bytes.drop_first());
            (last, last_step, n + 1)
        } else {
            (next, step, 1)
        }
    }
}

/// Reads one byte into the frame buffer.
pub fn read_byte(buffer: &mut FrameBuffer, error: &mut bool, byte: u8) -> (res: ReadStep)
    ensures
        ({
            let (next, step) = spec_step(
                ReaderState { buffer: frame_bytes(*old(buffer)), error: *old(error) },
                byte,
            );
            &&& res == step
            &&& frame_bytes(*final(buffer)) == next.buffer
            &&& *final(error) == next.error
        }),
        byte == X_ON || byte == X_OFF ==> res == ReadStep::Pending && frame_bytes(*final(buffer))
            == frame_bytes(*old(buffer)) && *final(error) == *old(error),
{
    let _ = frame_buffer_as_slice(buffer);
    if byte == CANCEL {
        frame_buffer_clear(buffer);
        *error = false;
        ReadStep::Pending
    } else if byte == FLAG {
        if !*error && frame_buffer_as_slice(buffer).len() > 0 {
            buffer.unstuff();
            *error = false;
            ReadStep::Frame
        } else {
            frame_buffer_clear(buffer);
            *error = false;
            ReadStep::Pending
        }
    } else if byte == SUBSTITUTE {
        *error = true;
        ReadStep::Pending
    } else if byte == X_ON || byte == X_OFF {
        ReadStep::Pending
    } else if byte == WAKE && frame_buffer_as_slice(buffer).len() == 0 {
        ReadStep::Pending
    } else {
        match frame_buffer_push(buffer, byte) {
            Ok(()) => ReadStep::Pending,
            Err(_) => ReadStep::Overflow,
        }
    }
}

/// Reads a frame from `bytes` into `buffer`, which is cleared first: on success the
/// buffer holds the unstuffed frame and the number of bytes read is returned.
pub fn read_frame(bytes: &[u8], buffer: &mut FrameBuffer) -> (res: Result<usize, FrameError>)
    ensures
        ({
            let (last, step, n) = spec_run(initial_state(), bytes@);
            &&& step == ReadStep::Frame ==> res == Ok::<usize, FrameError>(n as usize)
                && frame_bytes(*final(buffer)) == last.buffer
            &&& step == ReadStep::Overflow ==> res == Err::<usize, FrameError>(
                FrameError::BufferOverflow,
            )
            &&& step == ReadStep::Pending ==> res == Err::<usize, FrameError>(
                FrameError::UnexpectedEof,
            )
        }),
{
    frame_buffer_clear(buffer);
    let mut error = false;
    let mut i: usize = 0;
    assert(bytes@.skip(0) =~= bytes@);
    assert(ReaderState { buffer: frame_bytes(*buffer), error } == initial_state());
    while i < bytes.len()
        invariant
            i <= bytes@.len(),
            spec_run(initial_state(), bytes@) == ({
                let (last, step, n) = spec_run(
                    ReaderState { buffer: frame_bytes(*buffer), error },
                    bytes@.skip(i as int),
                );
                (last, step, (n + i) as nat)
            }),
        decreases bytes@.len() - i,
    {
        let ghost state = ReaderState { buffer: frame_bytes(*buffer), error };
        let ghost rest = bytes@.skip(i as int);
        assert(rest[0] == bytes@[i as int]);
        assert(rest.drop_first() =~= bytes@.skip(i + 1));
        let step = read_byte(buffer, &mut error, bytes[i]);
        i = i + 1;
        match step {
            ReadStep::Frame => {
                return Ok(i);
            },
            ReadStep::Overflow => {
                return Err(FrameError::BufferOverflow);
            },
            ReadStep::Pending => {},
        }
    }
    assert(bytes@.skip(i as int) =~= Seq::<u8>::empty());
    Err(FrameError::UnexpectedEof)
}

/// Flow-control bytes never enter a frame: inserting an XON or XOFF byte anywhere in a
/// stream leaves the reader's final state and last step as they were; the byte counts
/// as read if it comes before the frame ends.
pub proof fn lemma_flow_control_ignored(state: ReaderState, bytes: Seq<u8>, i: int, c: u8)
    requires
        c == X_ON || c == X_OFF,
        0 <= i <= bytes.len(),
    ensures
        ({
            let (last, step, n) = spec_run(state, bytes);
            let (last2, step2, n2) = spec_run(state, bytes.insert(i, c));
            &&& last2 == last
            &&& step2 == step
            &&& n2 == if i < n || step == ReadStep::Pending {
                n + 1
            } else {
                n
            }
        }),
    decreases bytes.len(),
{
    let inserted = bytes.insert(i, c);
    if i == 0 {
        assert(inserted[0] == c);
        assert(inserted.drop_first() =~= bytes);
    } else {
        assert(inserted[0] == bytes[0]);
        assert(inserted.drop_first() =~= bytes.drop_first().insert(i - 1, c));
        let (next, step) = spec_step(state, bytes[0]);
        if step == ReadStep::Pending {
            lemma_flow_control_ignored(next, bytes.drop_first(), i - 1, c);
        }
    }
}

/// A CANCEL byte discards the frame in progress: after bytes that complete no frame and
/// do not overflow the buffer, a CANCEL byte makes the reader go on as if it started
/// afresh on the bytes that follow it.
pub proof fn lemma_cancel_restarts(state: ReaderState, bytes: Seq<u8>, rest: Seq<u8>)
    requires
        spec_run(state, bytes).1 == ReadStep::Pending,
    ensures
        ({
            let (last, step, n) = spec_run(state, bytes + seq![CANCEL] + rest);
            let (last2, step2, n2) = spec_run(initial_state(), rest);
            &&& last == last2
            &&& step == step2
            &&& n == bytes.len() + 1 + n2
        }),
    decreases bytes.len(),
{
    let all = bytes + seq![CANCEL] + rest;
    if bytes.len() == 0 {
        assert(all[0] == CANCEL);
        assert(all.drop_first() =~= rest);
    } else {
        assert(all[0] == bytes[0]);
        assert(all.drop_first() =~= bytes.drop_first() + seq![CANCEL] + rest);
        let (next, step) = spec_step(state, bytes[0]);
        lemma_cancel_restarts(next, bytes.drop_first(), rest);
    }
}

} // verus!
