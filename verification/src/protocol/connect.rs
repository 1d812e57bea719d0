//! The decisions of establishing a connection: the host sends RST frames until the NCP
//! answers with an RSTACK frame, giving up after a number of attempts.
//!
//! The caller sends the frames, reads the answers and measures the time; these functions
//! decide what comes next.
use crate::packet::{Packet, PacketView};
use crate::protocol::state::NANOS_PER_MILLI;
use crate::VERSION;
use vstd::prelude::*;

verus! {

/// The time the NCP has to answer an RST frame, in nanoseconds.
pub const T_RSTACK_MAX: u64 = 3200 * NANOS_PER_MILLI;

/// The number of attempts to establish a connection.
pub const MAX_STARTUP_ATTEMPTS: u8 = 5;

/// What follows a read while waiting for the answer to an RST frame.
#[derive(Clone, Copy, Debug, PartialEq, Eq, Structural)]
pub enum ConnectStep {
    /// The NCP acknowledged the reset with `ASHv2`: the connection is up.
    Connected,
    /// The NCP acknowledged the reset with another protocol version.
    Unsupported,
    /// Send the RST frame again.
    Resend,
    /// Keep waiting for an answer.
    Wait,
}

/// The step after a read at time `now`, the first RST having been sent at `start`: an
/// RSTACK frame ends the attempts, any other frame calls for a new RST; with no frame,
/// a new RST is sent once the answer is overdue, or if the clock went backwards.
pub open spec fn spec_connect_step(start: u64, now: u64, received: Option<PacketView>) -> ConnectStep {
    match received {
        Some(PacketView::RstAck(rst_ack)) => if rst_ack.version == VERSION {
            ConnectStep::Connected
        } else {
            ConnectStep::Unsupported
        },
        Some(_) => ConnectStep::Resend,
        None => if now < start || now - start > T_RSTACK_MAX {
            ConnectStep::Resend
        } else {
            ConnectStep::Wait
        },
    }
}

/// Decides the step after a read at time `now` while connecting, the first RST having
/// been sent at `start`; `received` is the frame read, if one arrived in time.
pub fn connect_step(start: u64, now: u64, received: &Option<Packet>) -> (res: ConnectStep)
    ensures
        res == spec_connect_step(
            start,
            now,
            match received {
                Some(p) => Some(p@),
                None => None,
            },
        ),
{
    match received {
        Some(Packet::RstAck(rst_ack)) => if rst_ack.is_ash_v2() {
            ConnectStep::Connected
        } else {
            ConnectStep::Unsupported
        },
        Some(_) => ConnectStep::Resend,
        None => if now < start || now - start > T_RSTACK_MAX {
            ConnectStep::Resend
        } else {
            ConnectStep::Wait
        },
    }
}

/// What follows a pause while waiting for the NCP to acknowledge a reset.
#[derive(Clone, Copy, Debug, PartialEq, Eq, Structural)]
pub enum WaitOutcome {
    /// The connection is up.
    Connected,
    /// Keep waiting.
    KeepWaiting,
    /// The clock went backwards: restart the measurement from now.
    ClockJumped,
    /// The answer is overdue: this attempt failed.
    TimedOut,
}

/// The outcome of a pause at time `now`, the RST having been sent at `start`.
pub open spec fn spec_wait_outcome(connected: bool, start: u64, now: u64) -> WaitOutcome {
    if connected {
        WaitOutcome::Connected
    } else if now < start {
        WaitOutcome::ClockJumped
    } else if now - start > T_RSTACK_MAX {
        WaitOutcome::TimedOut
    } else {
        WaitOutcome::KeepWaiting
    }
}

/// Decides what follows a pause at time `now` while waiting for the connection, the RST
/// having been sent at `start`.
pub fn wait_outcome(connected: bool, start: u64, now: u64) -> (res: WaitOutcome)
    ensures
        res == spec_wait_outcome(connected, start, now),
{
    if connected {
        WaitOutcome::Connected
    } else if now < start {
        WaitOutcome::ClockJumped
    } else if now - start > T_RSTACK_MAX {
        WaitOutcome::TimedOut
    } else {
        WaitOutcome::KeepWaiting
    }
}

/// The attempt after a failed attempt with number `attempt` (counted from one), or
/// nothing if the attempts are used up.
pub fn next_attempt(attempt: u8) -> (res: Option<u8>)
    ensures
        attempt < MAX_STARTUP_ATTEMPTS ==> res == Some((attempt + 1) as u8),
        attempt >= MAX_STARTUP_ATTEMPTS ==> res is None,
{
    if attempt < MAX_STARTUP_ATTEMPTS {
        Some(attempt + 1)
    } else {
        None
    }
}

} // verus!
