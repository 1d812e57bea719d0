//! ERROR frames.
use crate::code::Code;
use crate::crc::{checksum, spec_crc};
use crate::error::FrameError;
use crate::packet::{be_u16, hi_byte, lo_byte, u16_from_be_bytes, u16_hi_byte, u16_lo_byte};
use crate::VERSION;
use crate::format::{push_hex, spec_hex};
use vstd::string::StringExecFns;
use vstd::prelude::*;

verus! {

/// Informs the host that the NCP has entered the FAILED state, and why.
#[derive(Clone, Copy, Debug, PartialEq, Eq, Structural, Hash)]
pub struct Error {
    pub header: u8,
    pub version: u8,
    pub code: u8,
    pub crc: u16,
}

impl Error {
    /// The text form of the frame.
    pub open spec fn spec_text(self) -> Seq<char> {
        seq!['E', 'R', 'R', 'O', 'R', '('] + spec_hex(self.version) + seq![',', ' ']
            + spec_hex(self.code) + seq![')']
    }

    pub const HEADER: u8 = 0xC2;
    pub const SIZE: usize = 5;

    /// The bytes of the frame: header, version, error code and big-endian CRC.
    pub open spec fn spec_bytes(self) -> Seq<u8> {
        seq![self.header, self.version, self.code, hi_byte(self.crc), lo_byte(self.crc)]
    }

    /// The checksum over header, version and error code.
    pub open spec fn spec_calculate_crc(self) -> u16 {
        spec_crc(seq![self.header, self.version, self.code])
    }

    /// The result of parsing a buffer as a ERROR frame.
    pub open spec fn spec_parse(buffer: Seq<u8>) -> Result<Error, FrameError> {
        if buffer.len() < Error::SIZE {
            Err(
                FrameError::BufferTooSmall { expected: Error::SIZE, found: buffer.len() as usize },
            )
        } else if buffer.len() > Error::SIZE {
            Err(
                FrameError::BufferTooLarge { expected: Error::SIZE, found: buffer.len() as usize },
            )
        } else {
            Ok(
                Error {
                    header: buffer[0],
                    version: buffer[1],
                    code: buffer[2],
                    crc: be_u16(buffer[3], buffer[4]),
                },
            )
        }
    }

    /// Creates a new `ASHv2` ERROR frame with a valid checksum.
    pub fn new(code: u8) -> (res: Self)
        ensures
            res.header == Error::HEADER,
            res.version == VERSION,
            res.code == code,
            res.crc == res.spec_calculate_crc(),
    {
        let bytes: [u8; 3] = [Self::HEADER, VERSION, code];
        assert(bytes@ =~= seq![Error::HEADER, VERSION, code]);
        Self { header: Self::HEADER, version: VERSION, code, crc: checksum(&bytes) }
    }

    /// Returns the protocol version.
    ///
    /// This is statically set to `0x02` (2) for `ASHv2`.
    pub fn version(&self) -> (res: u8)
        ensures
            res == self.version,
    {
        self.version
    }

    /// Verifies that this is indeed `ASHv2`.
    pub fn is_ash_v2(&self) -> (res: bool)
        ensures
            res == (self.version == VERSION),
    {
        self.version == VERSION
    }

    /// Returns the error code, or the raw byte if it encodes no known code.
    pub fn code(&self) -> (res: Result<Code, u8>)
        ensures
            res == (match Code::from_value(self.code) {
                Some(code) => Ok(code),
                None => Err(self.code),
            }),
    {
        Code::from_u8(self.code)
    }

    /// Returns the header byte.
    pub fn header(&self) -> (res: u8)
        ensures
            res == self.header,
    {
        self.header
    }

    /// Returns the transmitted checksum.
    pub fn crc(&self) -> (res: u16)
        ensures
            res == self.crc,
    {
        self.crc
    }

    /// Computes the checksum over header, version and error code.
    pub fn calculate_crc(&self) -> (res: u16)
        ensures
            res == self.spec_calculate_crc(),
    {
        let bytes: [u8; 3] = [self.header, self.version, self.code];
        assert(bytes@ =~= seq![self.header, self.version, self.code]);
        checksum(&bytes)
    }

    /// Whether the transmitted checksum matches the computed one.
    pub fn is_crc_valid(&self) -> (res: bool)
        ensures
            res == (self.crc == self.spec_calculate_crc()),
    {
        self.crc == self.calculate_crc()
    }

    /// Returns the bytes of the frame.
    pub fn bytes(&self) -> (res: Vec<u8>)
        ensures
            res@ == self.spec_bytes(),
    {
        let res = vec![
            self.header,
            self.version,
            self.code,
            u16_hi_byte(self.crc),
            u16_lo_byte(self.crc),
        ];
        assert(res@ =~= self.spec_bytes());
        res
    }

    /// Parses a ERROR frame from exactly five bytes.
    pub fn from_bytes(buffer: &[u8]) -> (res: Result<Self, FrameError>)
        ensures
            res == Error::spec_parse(buffer@),
    {
        if buffer.len() < Self::SIZE {
            Err(FrameError::BufferTooSmall { expected: Self::SIZE, found: buffer.len() })
        } else if buffer.len() > Self::SIZE {
            Err(FrameError::BufferTooLarge { expected: Self::SIZE, found: buffer.len() })
        } else {
            Ok(
                Self {
                    header: buffer[0],
                    version: buffer[1],
                    code: buffer[2],
                    crc: u16_from_be_bytes(buffer[3], buffer[4]),
                },
            )
        }
    }

    /// The text form of the frame: `ERROR(`, the version and the error code in
    /// hexadecimal, separated by a comma and a space, then `)`.
    pub fn to_string(&self) -> (res: String)
        ensures
            res@ == self.spec_text(),
    {
        proof {
            reveal_strlit("ERROR(");
            reveal_strlit(", ");
            reveal_strlit(")");
        }
        let mut s = String::from_str("ERROR(");
        push_hex(&mut s, self.version);
        s.append(", ");
        push_hex(&mut s, self.code);
        s.append(")");
        s
    }

}

impl From<Code> for Error {
    fn from(code: Code) -> (res: Self) {
        Self::new(code.to_u8())
    }
}

impl vstd::std_specs::convert::FromSpecImpl<Code> for Error {
    open spec fn obeys_from_spec() -> bool {
        true
    }

    open spec fn from_spec(code: Code) -> Error {
        Error {
            header: Error::HEADER,
            version: VERSION,
            code: code.value(),
            crc: spec_crc(seq![Error::HEADER, VERSION, code.value()]),
        }
    }
}

impl<'a> TryFrom<&'a [u8]> for Error {
    type Error = FrameError;

    fn try_from(buffer: &'a [u8]) -> (res: Result<Self, FrameError>) {
        Self::from_bytes(buffer)
    }
}

impl<'a> vstd::std_specs::convert::TryFromSpecImpl<&'a [u8]> for Error {
    open spec fn obeys_try_from_spec() -> bool {
        true
    }

    open spec fn try_from_spec(buffer: &'a [u8]) -> Result<Self, FrameError> {
        Error::spec_parse(buffer@)
    }
}

/// Parsing the bytes of a ERROR frame gives the frame back.
pub proof fn lemma_error_roundtrip(error: Error)
    ensures
        Error::spec_parse(error.spec_bytes()) == Ok::<Error, FrameError>(error),
{
    crate::packet::lemma_be_u16(error.crc, 0, 0);
}

/// A buffer that parses as a ERROR frame consists of that frame's bytes.
pub proof fn lemma_error_parse_bytes(buffer: Seq<u8>)
    ensures
        Error::spec_parse(buffer) matches Ok(error) ==> error.spec_bytes() == buffer,
{
    if buffer.len() == Error::SIZE {
        crate::packet::lemma_be_u16(0, buffer[3], buffer[4]);
        assert(Error::spec_parse(buffer).unwrap().spec_bytes() =~= buffer);
    }
}

} // verus!
