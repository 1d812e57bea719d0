//! Reset and error codes reported by the NCP in RSTACK and ERROR frames.
use vstd::prelude::*;

verus! {

/// Reason codes for resets and errors.
#[derive(Clone, Copy, Debug, PartialEq, Eq, Structural, Hash)]
pub enum Code {
    /// Reset: unknown reason.
    UnknownReason,
    /// Reset: external.
    External,
    /// Reset: power-on.
    PowerOn,
    /// Reset: watchdog.
    Watchdog,
    /// Reset: assert.
    Assert,
    /// Reset: boot loader.
    Bootloader,
    /// Reset: software.
    Software,
    /// Error: exceeded maximum ACK timeout count.
    ExceededMaximumAckTimeoutCount,
    /// Chip-specific error reset code.
    ChipSpecific,
}

impl Code {
    /// The byte that encodes the code.
    pub open spec fn value(self) -> u8 {
        match self {
            Code::UnknownReason => 0x00,
            Code::External => 0x01,
            Code::PowerOn => 0x02,
            Code::Watchdog => 0x03,
            Code::Assert => 0x06,
            Code::Bootloader => 0x09,
            Code::Software => 0x0B,
            Code::ExceededMaximumAckTimeoutCount => 0x51,
            Code::ChipSpecific => 0x80,
        }
    }

    /// The code that a byte encodes, if any.
    pub open spec fn from_value(byte: u8) -> Option<Code> {
        if byte == 0x00 {
            Some(Code::UnknownReason)
        } else if byte == 0x01 {
            Some(Code::External)
        } else if byte == 0x02 {
            Some(Code::PowerOn)
        } else if byte == 0x03 {
            Some(Code::Watchdog)
        } else if byte == 0x06 {
            Some(Code::Assert)
        } else if byte == 0x09 {
            Some(Code::Bootloader)
        } else if byte == 0x0B {
            Some(Code::Software)
        } else if byte == 0x51 {
            Some(Code::ExceededMaximumAckTimeoutCount)
        } else if byte == 0x80 {
            Some(Code::ChipSpecific)
        } else {
            None
        }
    }

    /// Decoding the byte of a code gives the code back.
    pub proof fn lemma_roundtrip(self)
        ensures
            Code::from_value(self.value()) == Some(self),
    {
    }

    /// Encodes the code as a byte.
    pub fn to_u8(self) -> (res: u8)
        ensures
            res == self.value(),
    {
        match self {
            Code::UnknownReason => 0x00,
            Code::External => 0x01,
            Code::PowerOn => 0x02,
            Code::Watchdog => 0x03,
            Code::Assert => 0x06,
            Code::Bootloader => 0x09,
            Code::Software => 0x0B,
            Code::ExceededMaximumAckTimeoutCount => 0x51,
            Code::ChipSpecific => 0x80,
        }
    }

    /// Decodes a byte, handing it back if it encodes no code.
    pub fn from_u8(byte: u8) -> (res: Result<Code, u8>)
        ensures
            res == (match Code::from_value(byte) {
                Some(code) => Ok(code),
                None => Err(byte),
            }),
    {
        if byte == 0x00 {
            Ok(Code::UnknownReason)
        } else if byte == 0x01 {
            Ok(Code::External)
        } else if byte == 0x02 {
            Ok(Code::PowerOn)
        } else if byte == 0x03 {
            Ok(Code::Watchdog)
        } else if byte == 0x06 {
            Ok(Code::Assert)
        } else if byte == 0x09 {
            Ok(Code::Bootloader)
        } else if byte == 0x0B {
            Ok(Code::Software)
        } else if byte == 0x51 {
            Ok(Code::ExceededMaximumAckTimeoutCount)
        } else if byte == 0x80 {
            Ok(Code::ChipSpecific)
        } else {
            Err(byte)
        }
    }
}

impl TryFrom<u8> for Code {
    type Error = u8;

    fn try_from(byte: u8) -> (res: Result<Code, u8>) {
        Code::from_u8(byte)
    }
}

impl vstd::std_specs::convert::TryFromSpecImpl<u8> for Code {
    open spec fn obeys_try_from_spec() -> bool {
        true
    }

    open spec fn try_from_spec(byte: u8) -> Result<Code, u8> {
        match Code::from_value(byte) {
            Some(code) => Ok(code),
            None => Err(byte),
        }
    }
}

impl From<Code> for u8 {
    fn from(code: Code) -> (res: u8) {
        code.to_u8()
    }
}

impl vstd::std_specs::convert::FromSpecImpl<Code> for u8 {
    open spec fn obeys_from_spec() -> bool {
        true
    }

    open spec fn from_spec(code: Code) -> u8 {
        code.value()
    }
}

} // verus!
