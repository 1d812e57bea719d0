//! RST frames.
use crate::crc::{checksum, spec_crc};
use crate::error::FrameError;
use crate::packet::{be_u16, hi_byte, lo_byte, u16_from_be_bytes, u16_hi_byte, u16_lo_byte};
use vstd::string::StringExecFns;
use vstd::prelude::*;

verus! {

/// Requests the NCP to perform a software reset (valid even if the NCP is in the FAILED state).
#[derive(Clone, Copy, Debug, PartialEq, Eq, Structural, Hash)]
pub struct Rst {
    pub header: u8,
    pub crc: u16,
}

impl Rst {
    /// The text form of the frame.
    pub open spec fn spec_text(self) -> Seq<char> {
        seq!['R', 'S', 'T', '(', ')']
    }

    pub const CRC: u16 = 0x38BC;
    pub const HEADER: u8 = 0xC0;
    pub const SIZE: usize = 3;

    /// The bytes of the frame: header and big-endian CRC.
    pub open spec fn spec_bytes(self) -> Seq<u8> {
        seq![self.header, hi_byte(self.crc), lo_byte(self.crc)]
    }

    /// The checksum over the header.
    pub open spec fn spec_calculate_crc(self) -> u16 {
        spec_crc(seq![self.header])
    }

    /// The result of parsing a buffer as a RST frame.
    pub open spec fn spec_parse(buffer: Seq<u8>) -> Result<Rst, FrameError> {
        if buffer.len() == Rst::SIZE {
            Ok(Rst { header: buffer[0], crc: be_u16(buffer[1], buffer[2]) })
        } else {
            Err(FrameError::InvalidBufferSize { expected: Rst::SIZE, found: buffer.len() as usize })
        }
    }

    /// Creates a new RST frame.
    pub fn new() -> (res: Self)
        ensures
            res == (Rst { header: Rst::HEADER, crc: Rst::CRC }),
    {
        Self { header: Self::HEADER, crc: Self::CRC }
    }

    /// Returns the header byte.
    pub fn header(&self) -> (res: u8)
        ensures
            res == self.header,
    {
        self.header
    }

    /// Returns the transmitted checksum.
    pub fn crc(&self) -> (res: u16)
        ensures
            res == self.crc,
    {
        self.crc
    }

    /// Computes the checksum over the header.
    pub fn calculate_crc(&self) -> (res: u16)
        ensures
            res == self.spec_calculate_crc(),
    {
        let bytes: [u8; 1] = [self.header];
        assert(bytes@ =~= seq![self.header]);
        checksum(&bytes)
    }

    /// Whether the transmitted checksum matches the computed one.
    pub fn is_crc_valid(&self) -> (res: bool)
        ensures
            res == (self.crc == self.spec_calculate_crc()),
    {
        self.crc == self.calculate_crc()
    }

    /// Returns the bytes of the frame.
    pub fn bytes(&self) -> (res: Vec<u8>)
        ensures
            res@ == self.spec_bytes(),
    {
        let res = vec![self.header, u16_hi_byte(self.crc), u16_lo_byte(self.crc)];
        assert(res@ =~= self.spec_bytes());
        res
    }

    /// Parses a RST frame from exactly three bytes.
    pub fn from_bytes(buffer: &[u8]) -> (res: Result<Self, FrameError>)
        ensures
            res == Rst::spec_parse(buffer@),
    {
        if buffer.len() == Self::SIZE {
            Ok(Self { header: buffer[0], crc: u16_from_be_bytes(buffer[1], buffer[2]) })
        } else {
            Err(FrameError::InvalidBufferSize { expected: Self::SIZE, found: buffer.len() })
        }
    }

    /// The text form of the frame: `RST()`.
    pub fn to_string(&self) -> (res: String)
        ensures
            res@ == self.spec_text(),
    {
        proof {
            reveal_strlit("RST()");
        }
        String::from_str("RST()")
    }

}

impl Default for Rst {
    fn default() -> (res: Self)
        ensures
            res == (Rst { header: Rst::HEADER, crc: Rst::CRC }),
    {
        Self::new()
    }
}

impl<'a> TryFrom<&'a [u8]> for Rst {
    type Error = FrameError;

    fn try_from(buffer: &'a [u8]) -> (res: Result<Self, FrameError>) {
        Self::from_bytes(buffer)
    }
}

impl<'a> vstd::std_specs::convert::TryFromSpecImpl<&'a [u8]> for Rst {
    open spec fn obeys_try_from_spec() -> bool {
        true
    }

    open spec fn try_from_spec(buffer: &'a [u8]) -> Result<Self, FrameError> {
        Rst::spec_parse(buffer@)
    }
}

/// Parsing the bytes of a RST frame gives the frame back.
pub proof fn lemma_rst_roundtrip(rst: Rst)
    ensures
        Rst::spec_parse(rst.spec_bytes()) == Ok::<Rst, FrameError>(rst),
{
    crate::packet::lemma_be_u16(rst.crc, 0, 0);
}

/// A buffer that parses as a RST frame consists of that frame's bytes.
pub proof fn lemma_rst_parse_bytes(buffer: Seq<u8>)
    ensures
        Rst::spec_parse(buffer) matches Ok(rst) ==> rst.spec_bytes() == buffer,
{
    if buffer.len() == Rst::SIZE {
        crate::packet::lemma_be_u16(0, buffer[1], buffer[2]);
        assert(Rst::spec_parse(buffer).unwrap().spec_bytes() =~= buffer);
    }
}

} // verus!
