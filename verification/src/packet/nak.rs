//! NAK frames.
use crate::crc::{checksum, spec_crc};
use crate::error::FrameError;
use crate::packet::{be_u16, hi_byte, lo_byte, u16_from_be_bytes, u16_hi_byte, u16_lo_byte};
use crate::format::{push_decimal, spec_decimal};
use vstd::string::StringExecFns;
use vstd::prelude::*;

verus! {

/// The not-ready bit of the header.
pub const NOT_READY: u8 = 0x08;
/// The fixed bits of a NAK header.
pub const HEADER_PREFIX: u8 = 0xA0;

/// Rejects a DATA frame and reports the next expected frame number.
#[derive(Clone, Copy, Debug, PartialEq, Eq, Structural, Hash)]
pub struct Nak {
    pub header: u8,
    pub crc: u16,
}

impl Nak {
    /// The text form of the frame.
    pub open spec fn spec_text(self) -> Seq<char> {
        seq!['N', 'A', 'K', '('] + spec_decimal((self.header % 8) as u8) + seq![
            ')',
            if self.header & NOT_READY == 0 {
                '+'
            } else {
                '-'
            },
        ]
    }

    pub const SIZE: usize = 3;

    /// The bytes of the frame: header and big-endian CRC.
    pub open spec fn spec_bytes(self) -> Seq<u8> {
        seq![self.header, hi_byte(self.crc), lo_byte(self.crc)]
    }

    /// The checksum over the header.
    pub open spec fn spec_calculate_crc(self) -> u16 {
        spec_crc(seq![self.header])
    }

    /// The result of parsing a buffer as a NAK frame.
    pub open spec fn spec_parse(buffer: Seq<u8>) -> Result<Nak, FrameError> {
        if buffer.len() == Nak::SIZE {
            Ok(Nak { header: buffer[0], crc: be_u16(buffer[1], buffer[2]) })
        } else {
            Err(FrameError::InvalidBufferSize { expected: Nak::SIZE, found: buffer.len() as usize })
        }
    }

    /// Creates a new NAK frame with a valid checksum.
    pub fn new(header: u8) -> (res: Self)
        ensures
            res.header == header,
            res.crc == res.spec_calculate_crc(),
    {
        let bytes: [u8; 1] = [header];
        assert(bytes@ =~= seq![header]);
        Self { header, crc: checksum(&bytes) }
    }

    /// Creates a new NAK frame for the ACK number `ack_num` (modulo eight).
    pub fn from_ack_num(ack_num: u8) -> (res: Self)
        ensures
            res.header == HEADER_PREFIX + ack_num % 8,
            res.crc == res.spec_calculate_crc(),
    {
        Self::new(HEADER_PREFIX + (ack_num % 0x08))
    }

    /// Determines whether the ready flag is set, i.e. the not-ready bit is clear.
    pub fn ready(&self) -> (res: bool)
        ensures
            res == (self.header & NOT_READY == 0),
    {
        self.header & NOT_READY == 0
    }

    /// Returns the acknowledgement number.
    pub fn ack_num(&self) -> (res: u8)
        ensures
            res == self.header % 8,
    {
        self.header % 0x08
    }

    /// Returns the header byte.
    pub fn header(&self) -> (res: u8)
        ensures
            res == self.header,
    {
        self.header
    }

    /// Returns the transmitted checksum.
    pub fn crc(&self) -> (res: u16)
        ensures
            res == self.crc,
    {
        self.crc
    }

    /// Computes the checksum over the header.
    pub fn calculate_crc(&self) -> (res: u16)
        ensures
            res == self.spec_calculate_crc(),
    {
        let bytes: [u8; 1] = [self.header];
        assert(bytes@ =~= seq![self.header]);
        checksum(&bytes)
    }

    /// Whether the transmitted checksum matches the computed one.
    pub fn is_crc_valid(&self) -> (res: bool)
        ensures
            res == (self.crc == self.spec_calculate_crc()),
    {
        self.crc == self.calculate_crc()
    }

    /// Whether the header has the NAK prefix.
    pub fn is_header_valid(&self) -> (res: bool)
        ensures
            res == (self.header & 0xF0 == 0xA0),
    {
        (self.header & 0xF0) == 0xA0
    }

    /// Whether both header and checksum are valid.
    pub fn is_valid(&self) -> (res: bool)
        ensures
            res == (self.header & 0xF0 == 0xA0 && self.crc == self.spec_calculate_crc()),
    {
        self.is_header_valid() && self.is_crc_valid()
    }

    /// Returns the bytes of the frame.
    pub fn bytes(&self) -> (res: Vec<u8>)
        ensures
            res@ == self.spec_bytes(),
    {
        let res = vec![self.header, u16_hi_byte(self.crc), u16_lo_byte(self.crc)];
        assert(res@ =~= self.spec_bytes());
        res
    }

    /// Parses a NAK frame from exactly three bytes.
    pub fn from_bytes(buffer: &[u8]) -> (res: Result<Self, FrameError>)
        ensures
            res == Nak::spec_parse(buffer@),
    {
        if buffer.len() == Self::SIZE {
            Ok(Self { header: buffer[0], crc: u16_from_be_bytes(buffer[1], buffer[2]) })
        } else {
            Err(FrameError::InvalidBufferSize { expected: Self::SIZE, found: buffer.len() })
        }
    }

    /// The text form of the frame: `NAK(`, the ACK number, `)`, then `+` if the NCP is
    /// ready and `-` if not.
    pub fn to_string(&self) -> (res: String)
        ensures
            res@ == self.spec_text(),
    {
        proof {
            reveal_strlit("NAK(");
            reveal_strlit(")-");
            reveal_strlit(")+");
        }
        let mut s = String::from_str("NAK(");
        push_decimal(&mut s, self.ack_num());
        if self.ready() {
            s.append(")+");
        } else {
            s.append(")-");
        }
        s
    }

}

impl<'a> TryFrom<&'a [u8]> for Nak {
    type Error = FrameError;

    fn try_from(buffer: &'a [u8]) -> (res: Result<Self, FrameError>) {
        Self::from_bytes(buffer)
    }
}

impl<'a> vstd::std_specs::convert::TryFromSpecImpl<&'a [u8]> for Nak {
    open spec fn obeys_try_from_spec() -> bool {
        true
    }

    open spec fn try_from_spec(buffer: &'a [u8]) -> Result<Self, FrameError> {
        Nak::spec_parse(buffer@)
    }
}

/// Parsing the bytes of a NAK frame gives the frame back.
pub proof fn lemma_nak_roundtrip(nak: Nak)
    ensures
        Nak::spec_parse(nak.spec_bytes()) == Ok::<Nak, FrameError>(nak),
{
    crate::packet::lemma_be_u16(nak.crc, 0, 0);
}

/// A buffer that parses as a NAK frame consists of that frame's bytes.
pub proof fn lemma_nak_parse_bytes(buffer: Seq<u8>)
    ensures
        Nak::spec_parse(buffer) matches Ok(nak) ==> nak.spec_bytes() == buffer,
{
    if buffer.len() == Nak::SIZE {
        crate::packet::lemma_be_u16(0, buffer[1], buffer[2]);
        assert(Nak::spec_parse(buffer).unwrap().spec_bytes() =~= buffer);
    }
}

/// A NAK frame made from a number carries that number modulo eight and a valid header:
/// `from_ack_num` and `ack_num` agree for every byte.
pub proof fn lemma_from_ack_num(ack_num: u8)
    ensures
        ((HEADER_PREFIX + ack_num % 8) as u8) % 8 == ack_num % 8,
        ((HEADER_PREFIX + ack_num % 8) as u8) & 0xF0u8 == 0xA0u8,
{
    let n = ack_num % 8;
    assert(n < 8);
    let h = (HEADER_PREFIX + n) as u8;
    assert(h == 0xA0 + n);
    assert(n < 8 ==> ((0xA0u8 + n) as u8) & 0xF0u8 == 0xA0u8) by (bit_vector);
}

} // verus!
