//! The link state of the host: sequence numbers, the reject condition and the
//! adaptive acknowledgement timeout.
use crate::error::{Error, IoErrorKind};
use crate::seq_num::{next_three_bit_number, wrap3};
use core::ops::RangeInclusive;
use vstd::prelude::*;

verus! {

/// Nanoseconds per millisecond.
pub const NANOS_PER_MILLI: u64 = 1_000_000;
/// The initial acknowledgement timeout, in nanoseconds.
pub const T_RX_ACK_INIT: u64 = 1600 * NANOS_PER_MILLI;
/// The largest acknowledgement timeout, in nanoseconds.
pub const T_RX_ACK_MAX: u64 = 3200 * NANOS_PER_MILLI;
/// The smallest acknowledgement timeout, in nanoseconds.
pub const T_RX_ACK_MIN: u64 = 400 * NANOS_PER_MILLI;
/// The time the NCP is given to become ready again, in nanoseconds.
pub const T_REMOTE_NOTRDY: u64 = 1000 * NANOS_PER_MILLI;
/// The number of timeouts tolerated in a row.
pub const MAX_TIMEOUTS: u32 = 4;

/// The plain contents of a `State`.
pub struct StateView {
    pub initialized: bool,
    pub frame_number: u8,
    pub last_received_frame_number: Option<u8>,
    pub last_sent_ack: u8,
    pub reject: bool,
    pub may_transmit: bool,
    pub t_rx_ack: u64,
    pub timeouts: u32,
}

/// `x` clamped to `[low, high]`.
pub open spec fn clamp(x: int, low: int, high: int) -> int {
    if x < low {
        low
    } else if x > high {
        high
    } else {
        x
    }
}

/// The acknowledgement timeout after an acknowledgement that took `duration`
/// nanoseconds, or after a timeout if there is none.
pub open spec fn spec_next_t_rx_ack(t_rx_ack: u64, last_ack_duration: Option<u64>) -> u64 {
    clamp(
        match last_ack_duration {
            Some(duration) => t_rx_ack * 7 / 8 + duration / 2,
            None => t_rx_ack * 2,
        },
        T_RX_ACK_MIN as int,
        T_RX_ACK_MAX as int,
    ) as u64
}

/// The ACK number for a last received frame number: the next expected frame.
pub open spec fn spec_ack_number(last_received_frame_number: Option<u8>) -> u8 {
    match last_received_frame_number {
        Some(n) => wrap3(n + 1),
        None => 0,
    }
}

/// The link state of the host.
#[derive(Debug, PartialEq, Eq, Structural)]
pub struct State {
    initialized: bool,
    frame_number: u8,
    last_received_frame_number: Option<u8>,
    last_sent_ack: u8,
    reject: bool,
    may_transmit: bool,
    t_rx_ack: u64,
    timeouts: u32,
}

impl View for State {
    type V = StateView;

    closed spec fn view(&self) -> StateView {
        StateView {
            initialized: self.initialized,
            frame_number: self.frame_number,
            last_received_frame_number: self.last_received_frame_number,
            last_sent_ack: self.last_sent_ack,
            reject: self.reject,
            may_transmit: self.may_transmit,
            t_rx_ack: self.t_rx_ack,
            timeouts: self.timeouts,
        }
    }
}

impl State {
    /// The acknowledgement timeout stays within its bounds, and the timeout counter
    /// does not exceed its maximum.
    #[verifier::type_invariant]
    spec fn inv(self) -> bool {
        &&& T_RX_ACK_MIN <= self.t_rx_ack <= T_RX_ACK_MAX
        &&& self.timeouts <= MAX_TIMEOUTS
    }

    /// The number of the next frame expected from the NCP.
    pub fn ack_number(&self) -> (res: u8)
        ensures
            res == spec_ack_number(self@.last_received_frame_number),
    {
        match self.last_received_frame_number {
            Some(last_received_frame_number) => next_three_bit_number(last_received_frame_number),
            None => 0,
        }
    }

    /// Counts a read timeout: the first timeouts in a row yield a growing delay after
    /// which to retry; other errors, and a timeout beyond the maximum (which resets the
    /// count), are handed back.
    pub fn handle_error(&mut self, error: Error) -> (res: Result<u64, Error>)
        ensures
            error == Error::Io(IoErrorKind::TimedOut) && old(self)@.timeouts < MAX_TIMEOUTS ==> {
                &&& final(self)@.timeouts == old(self)@.timeouts + 1
                &&& res == Ok::<u64, Error>((T_REMOTE_NOTRDY * final(self)@.timeouts) as u64)
            },
            error == Error::Io(IoErrorKind::TimedOut) && old(self)@.timeouts >= MAX_TIMEOUTS ==> {
                &&& final(self)@.timeouts == 0
                &&& res == Err::<u64, Error>(error)
            },
            error != Error::Io(IoErrorKind::TimedOut) ==> {
                &&& final(self)@.timeouts == old(self)@.timeouts
                &&& res == Err::<u64, Error>(error)
            },
            final(self)@.initialized == old(self)@.initialized,
            final(self)@.frame_number == old(self)@.frame_number,
            final(self)@.last_received_frame_number == old(self)@.last_received_frame_number,
            final(self)@.last_sent_ack == old(self)@.last_sent_ack,
            final(self)@.reject == old(self)@.reject,
            final(self)@.may_transmit == old(self)@.may_transmit,
            final(self)@.t_rx_ack == old(self)@.t_rx_ack,
    {
        proof {
            use_type_invariant(&*self);
        }
        if let Error::Io(IoErrorKind::TimedOut) = error {
            if self.timeouts < MAX_TIMEOUTS {
                self.timeouts = self.timeouts + 1;
                return Ok(T_REMOTE_NOTRDY * (self.timeouts as u64));
            }
            self.timeouts = 0;
        }
        Err(error)
    }

    /// Whether the connection has been initialized.
    pub fn initialized(&self) -> (res: bool)
        ensures
            res == self@.initialized,
    {
        self.initialized
    }

    /// Whether the reject condition is set.
    pub fn is_rejecting(&self) -> (res: bool)
        ensures
            res == self@.reject,
    {
        self.reject
    }

    /// Whether the NCP allows transmission.
    pub fn may_transmit(&self) -> (res: bool)
        ensures
            res == self@.may_transmit,
    {
        self.may_transmit
    }

    /// The number of the last frame received in sequence, if any.
    pub fn last_received_frame_number(&self) -> (res: Option<u8>)
        ensures
            res == self@.last_received_frame_number,
    {
        self.last_received_frame_number
    }

    /// Returns the frame number for the next DATA frame and advances it.
    pub fn next_frame_number(&mut self) -> (res: u8)
        ensures
            res == old(self)@.frame_number,
            final(self)@ == (StateView {
                frame_number: wrap3(old(self)@.frame_number + 1),
                ..old(self)@
            }),
    {
        proof {
            use_type_invariant(&*self);
        }
        let frame_number = self.frame_number;
        self.frame_number = next_three_bit_number(self.frame_number);
        frame_number
    }

    /// The ACK numbers not yet sent: from the one after the last sent ACK up to the
    /// current ACK number. The range is empty when it would wrap around.
    pub fn pending_acks(&self) -> (res: RangeInclusive<u8>)
        ensures
            ({
                let first = wrap3(self@.last_sent_ack + 1);
                let last = spec_ack_number(self@.last_received_frame_number);
                if first == 0 && last == 7 {
                    res@.start == last && res@.end == first
                } else {
                    res@.start == first && res@.end == last
                }
            }),
            res@.exhausted == false,
    {
        let first = next_three_bit_number(self.last_sent_ack);
        let last = self.ack_number();
        if first == 0 && last == 7 {
            RangeInclusive::new(last, first)
        } else {
            RangeInclusive::new(first, last)
        }
    }

    /// The ACK numbers not yet sent, in the order they are to be sent.
    pub fn pending_ack_numbers(&self) -> (res: Vec<u8>)
        ensures
            ({
                let first = wrap3(self@.last_sent_ack + 1);
                let last = spec_ack_number(self@.last_received_frame_number);
                if first == 0 && last == 7 || first > last {
                    res@.len() == 0
                } else {
                    &&& res@.len() == last - first + 1
                    &&& forall|i: int| 0 <= i < res@.len() ==> #[trigger] res@[i] == first + i
                }
            }),
    {
        let first = next_three_bit_number(self.last_sent_ack);
        let last = self.ack_number();
        let mut res: Vec<u8> = Vec::new();
        if first == 0 && last == 7 || first > last {
            return res;
        }
        let mut n = first;
        while n <= last
            invariant
                first <= n <= last + 1,
                last < 8,
                res@.len() == n - first,
                forall|i: int| 0 <= i < res@.len() ==> #[trigger] res@[i] == first + i,
            decreases last + 1 - n,
        {
            res.push(n);
            n = n + 1;
        }
        res
    }

    /// Resets the state to that of a new connection.
    pub fn reset(&mut self)
        ensures
            final(self)@ == State::default_view(),
    {
        proof {
            use_type_invariant(&*self);
        }
        self.initialized = false;
        self.frame_number = 0;
        self.last_received_frame_number = None;
        self.last_sent_ack = 0;
        self.reject = false;
        self.may_transmit = true;
        self.t_rx_ack = T_RX_ACK_INIT;
        self.timeouts = 0;
    }

    /// The state of a new connection.
    pub open spec fn default_view() -> StateView {
        StateView {
            initialized: false,
            frame_number: 0,
            last_received_frame_number: None,
            last_sent_ack: 0,
            reject: false,
            may_transmit: true,
            t_rx_ack: T_RX_ACK_INIT,
            timeouts: 0,
        }
    }

    /// Marks the connection as initialized.
    pub fn set_initialized(&mut self)
        ensures
            final(self)@ == (StateView { initialized: true, ..old(self)@ }),
    {
        proof {
            use_type_invariant(&*self);
        }
        self.initialized = true;
    }

    /// Records the number of the last frame received in sequence.
    pub fn set_last_received_frame_number(&mut self, frame_number: u8)
        ensures
            final(self)@ == (StateView {
                last_received_frame_number: Some(frame_number),
                ..old(self)@
            }),
    {
        proof {
            use_type_invariant(&*self);
        }
        self.last_received_frame_number = Some(frame_number);
    }

    /// Records the last ACK number sent.
    pub fn set_last_sent_ack(&mut self, ack_num: u8)
        ensures
            final(self)@ == (StateView { last_sent_ack: ack_num, ..old(self)@ }),
    {
        proof {
            use_type_invariant(&*self);
        }
        self.last_sent_ack = ack_num;
    }

    /// Sets or clears the reject condition.
    pub fn set_rejecting(&mut self, reject: bool)
        ensures
            final(self)@ == (StateView { reject, ..old(self)@ }),
    {
        proof {
            use_type_invariant(&*self);
        }
        self.reject = reject;
    }

    /// Records whether the NCP allows transmission.
    pub fn set_may_transmit(&mut self, transmit: bool)
        ensures
            final(self)@ == (StateView { may_transmit: transmit, ..old(self)@ }),
    {
        proof {
            use_type_invariant(&*self);
        }
        self.may_transmit = transmit;
    }

    /// The acknowledgement timeout, in nanoseconds.
    pub fn t_rx_ack(&self) -> (res: u64)
        ensures
            res == self@.t_rx_ack,
            T_RX_ACK_MIN <= res <= T_RX_ACK_MAX,
    {
        proof {
            use_type_invariant(self);
        }
        self.t_rx_ack
    }

    /// Adapts the acknowledgement timeout:
    /// after an acknowledgement that took `last_ack_duration` nanoseconds it becomes
    /// 7/8 of the old timeout plus half that duration, after a timeout it doubles; it is
    /// kept within its bounds.
    pub fn update_t_rx_ack(&mut self, last_ack_duration: Option<u64>)
        ensures
            final(self)@ == (StateView {
                t_rx_ack: spec_next_t_rx_ack(old(self)@.t_rx_ack, last_ack_duration),
                ..old(self)@
            }),
    {
        proof {
            use_type_invariant(&*self);
        }
        let t = match last_ack_duration {
            Some(duration) => self.t_rx_ack * 7 / 8 + duration / 2,
            None => self.t_rx_ack * 2,
        };
        self.t_rx_ack = if t < T_RX_ACK_MIN {
            T_RX_ACK_MIN
        } else if t > T_RX_ACK_MAX {
            T_RX_ACK_MAX
        } else {
            t
        };
    }
}

impl Default for State {
    fn default() -> (res: Self)
        ensures
            res@ == State::default_view(),
    {
        Self {
            initialized: false,
            frame_number: 0,
            last_received_frame_number: None,
            last_sent_ack: 0,
            reject: false,
            may_transmit: true,
            t_rx_ack: T_RX_ACK_INIT,
            timeouts: 0,
        }
    }
}

/// Whatever the acknowledgement took, and after a timeout, the adapted timeout stays
/// within its bounds.
pub proof fn lemma_t_rx_ack_bounds(t_rx_ack: u64, last_ack_duration: Option<u64>)
    ensures
        T_RX_ACK_MIN <= spec_next_t_rx_ack(t_rx_ack, last_ack_duration) <= T_RX_ACK_MAX,
{
}

} // verus!
