//! Control bytes of the `ASHv2` protocol.
use vstd::prelude::*;

verus! {

/// Escape byte to escape special characters.
pub const ESCAPE: u8 = 0x7D;
/// Flag byte that ends a frame.
pub const FLAG: u8 = 0x7E;
/// XON byte to resume transmission.
pub const X_ON: u8 = 0x11;
/// XOFF byte to pause transmission.
pub const X_OFF: u8 = 0x13;
/// Substitute byte that marks a low-level communication error.
pub const SUBSTITUTE: u8 = 0x18;
/// Cancel byte that discards the frame in progress.
pub const CANCEL: u8 = 0x1A;
/// Wake byte to wake up the receiver.
pub const WAKE: u8 = 0xFF;

/// Control bytes used in the `ASHv2` protocol.
#[derive(Clone, Copy, Debug, PartialEq, Eq, Structural, Hash)]
pub enum ControlByte {
    /// Flag byte to initiate the end of a frame.
    Flag,
    /// XON byte to resume transmission.
    Xon,
    /// XOFF byte to pause transmission.
    Xoff,
    /// Substitute byte to indicate an error.
    Substitute,
    /// Cancel byte to cancel a frame.
    Cancel,
    /// Wake byte to wake up the receiver.
    Wake,
}

impl ControlByte {
    /// The byte value of the control byte.
    pub open spec fn value(self) -> u8 {
        match self {
            ControlByte::Flag => FLAG,
            ControlByte::Xon => X_ON,
            ControlByte::Xoff => X_OFF,
            ControlByte::Substitute => SUBSTITUTE,
            ControlByte::Cancel => CANCEL,
            ControlByte::Wake => WAKE,
        }
    }

    /// The control byte with the given value, if any.
    pub open spec fn from_value(byte: u8) -> Option<ControlByte> {
        if byte == FLAG {
            Some(ControlByte::Flag)
        } else if byte == X_ON {
            Some(ControlByte::Xon)
        } else if byte == X_OFF {
            Some(ControlByte::Xoff)
        } else if byte == SUBSTITUTE {
            Some(ControlByte::Substitute)
        } else if byte == CANCEL {
            Some(ControlByte::Cancel)
        } else if byte == WAKE {
            Some(ControlByte::Wake)
        } else {
            None
        }
    }

    /// Converting a control byte to its value and back gives the control byte.
    pub proof fn lemma_roundtrip(self)
        ensures
            ControlByte::from_value(self.value()) == Some(self),
    {
    }

    /// Returns the byte value.
    pub fn to_u8(self) -> (res: u8)
        ensures
            res == self.value(),
    {
        match self {
            ControlByte::Flag => FLAG,
            ControlByte::Xon => X_ON,
            ControlByte::Xoff => X_OFF,
            ControlByte::Substitute => SUBSTITUTE,
            ControlByte::Cancel => CANCEL,
            ControlByte::Wake => WAKE,
        }
    }
}

impl From<ControlByte> for u8 {
    fn from(byte: ControlByte) -> (res: u8) {
        byte.to_u8()
    }
}

impl vstd::std_specs::convert::FromSpecImpl<ControlByte> for u8 {
    open spec fn obeys_from_spec() -> bool {
        true
    }

    open spec fn from_spec(byte: ControlByte) -> u8 {
        byte.value()
    }
}

impl TryFrom<u8> for ControlByte {
    type Error = u8;

    /// Hands the value back if it is no control byte.
    fn try_from(value: u8) -> (res: Result<Self, u8>) {
        if value == FLAG {
            Ok(ControlByte::Flag)
        } else if value == X_ON {
            Ok(ControlByte::Xon)
        } else if value == X_OFF {
            Ok(ControlByte::Xoff)
        } else if value == SUBSTITUTE {
            Ok(ControlByte::Substitute)
        } else if value == CANCEL {
            Ok(ControlByte::Cancel)
        } else if value == WAKE {
            Ok(ControlByte::Wake)
        } else {
            Err(value)
        }
    }
}

impl vstd::std_specs::convert::TryFromSpecImpl<u8> for ControlByte {
    open spec fn obeys_try_from_spec() -> bool {
        true
    }

    open spec fn try_from_spec(value: u8) -> Result<Self, u8> {
        match ControlByte::from_value(value) {
            Some(byte) => Ok(byte),
            None => Err(value),
        }
    }
}

} // verus!
