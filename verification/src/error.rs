//! Errors of the library.
use vstd::prelude::*;

verus! {

/// Errors that arise when decoding, encoding or buffering frames.
#[derive(Clone, Copy, Debug, PartialEq, Eq, Structural, Hash)]
pub enum FrameError {
    /// The buffer holds no header byte.
    MissingHeader,
    /// The header byte belongs to no frame type.
    UnknownHeader(u8),
    /// The buffer does not have the size of the frame type.
    InvalidBufferSize { expected: usize, found: usize },
    /// The buffer is shorter than the frame type requires.
    BufferTooSmall { expected: usize, found: usize },
    /// The buffer is longer than the frame type allows.
    BufferTooLarge { expected: usize, found: usize },
    /// The payload of a DATA frame is shorter than the minimum.
    PayloadTooSmall { min: usize, found: usize },
    /// The payload of a DATA frame is longer than the maximum.
    PayloadTooLarge { max: usize, found: usize },
    /// A fixed-capacity buffer cannot hold the bytes.
    BufferOverflow,
    /// The byte stream ended before a frame was complete.
    UnexpectedEof,
}

/// The kinds of I/O errors that the protocol logic tells apart.
#[derive(Clone, Copy, Debug, PartialEq, Eq, Structural, Hash)]
pub enum IoErrorKind {
    /// An operation timed out.
    TimedOut,
    /// The byte stream ended unexpectedly.
    UnexpectedEof,
    /// The other side of a channel or port is gone.
    BrokenPipe,
    /// A buffer ran out of space.
    OutOfMemory,
    /// The data was invalid.
    InvalidData,
    /// Any other I/O error.
    Other,
}

/// Errors of the `ASHv2` host.
#[derive(Clone, Copy, Debug, PartialEq, Eq, Structural, Hash)]
pub enum Error {
    /// An I/O error of the given kind.
    Io(IoErrorKind),
    /// A frame could not be decoded or encoded.
    Frame(FrameError),
    /// The host was terminated during a transaction.
    Terminated,
    /// The worker is not running.
    WorkerNotRunning,
    /// The host is already running.
    AlreadyRunning,
    /// The connection could not be initialized.
    InitializationFailed,
    /// The transaction was aborted.
    Aborted,
    /// The bytes cannot be distributed across chunks of valid sizes.
    CannotFindViableChunkSize(usize),
    /// A frame was retransmitted too often.
    MaxRetransmitsExceeded,
}

impl From<FrameError> for Error {
    fn from(error: FrameError) -> (res: Error) {
        Error::Frame(error)
    }
}

impl vstd::std_specs::convert::FromSpecImpl<FrameError> for Error {
    open spec fn obeys_from_spec() -> bool {
        true
    }

    open spec fn from_spec(error: FrameError) -> Error {
        Error::Frame(error)
    }
}

} // verus!
