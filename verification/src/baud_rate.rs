//! The baud rates of the NCP's serial interface.
use vstd::prelude::*;

verus! {

/// The baud rate of the serial interface, named by the flow control it goes with.
#[derive(Clone, Copy, Debug, PartialEq, Eq, Structural, Hash)]
pub enum BaudRate {
    /// RTS/CTS flow control: 115200 baud.
    RstCts,
    /// XON/XOFF flow control: 57600 baud.
    XonXoff,
}

impl BaudRate {
    /// The rate in baud.
    pub open spec fn value(self) -> u32 {
        match self {
            BaudRate::RstCts => 115_200,
            BaudRate::XonXoff => 57_600,
        }
    }
}

impl From<BaudRate> for u32 {
    fn from(baud_rate: BaudRate) -> (res: u32) {
        match baud_rate {
            BaudRate::RstCts => 115_200,
            BaudRate::XonXoff => 57_600,
        }
    }
}

impl vstd::std_specs::convert::FromSpecImpl<BaudRate> for u32 {
    open spec fn obeys_from_spec() -> bool {
        true
    }

    open spec fn from_spec(baud_rate: BaudRate) -> u32 {
        baud_rate.value()
    }
}

} // verus!
