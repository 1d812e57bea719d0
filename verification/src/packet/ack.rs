//! ACK frames.
use crate::crc::{checksum, spec_crc};
use crate::error::FrameError;
use crate::packet::headers;
use crate::packet::{be_u16, hi_byte, lo_byte, u16_from_be_bytes, u16_hi_byte, u16_lo_byte};
use crate::format::{push_decimal, spec_decimal};
use vstd::string::StringExecFns;
use vstd::prelude::*;

verus! {

/// Acknowledges the receipt of DATA frames up to, but excluding, its ACK number.
#[derive(Clone, Copy, Debug, PartialEq, Eq, Structural, Hash)]
pub struct Ack {
    pub header: headers::Ack,
    pub crc: u16,
}

impl Ack {
    /// The text form of the frame.
    pub open spec fn spec_text(self) -> Seq<char> {
        seq!['A', 'C', 'K', '('] + spec_decimal((self.header@ % 8) as u8) + seq![
            ')',
            if self.header@ & 0x08u8 != 0 {
                '-'
            } else {
                '+'
            },
        ]
    }

    pub const SIZE: usize = 3;

    /// The bytes of the frame: header and big-endian CRC.
    pub open spec fn spec_bytes(self) -> Seq<u8> {
        seq![self.header@, hi_byte(self.crc), lo_byte(self.crc)]
    }

    /// The checksum over the header.
    pub open spec fn spec_calculate_crc(self) -> u16 {
        spec_crc(seq![self.header@])
    }

    /// The result of parsing a buffer as an ACK frame.
    pub open spec fn spec_parse(buffer: Seq<u8>) -> Result<Ack, FrameError> {
        if buffer.len() < Ack::SIZE {
            Err(FrameError::BufferTooSmall { expected: Ack::SIZE, found: buffer.len() as usize })
        } else if buffer.len() > Ack::SIZE {
            Err(FrameError::BufferTooLarge { expected: Ack::SIZE, found: buffer.len() as usize })
        } else {
            Ok(
                Ack {
                    header: headers::Ack::spec_from_bits(buffer[0]),
                    crc: be_u16(buffer[1], buffer[2]),
                },
            )
        }
    }

    /// Creates a new ACK frame with a valid checksum.
    pub fn new(header: headers::Ack) -> (res: Self)
        ensures
            res.header == header,
            res.crc == res.spec_calculate_crc(),
    {
        let bytes: [u8; 1] = [header.bits()];
        assert(bytes@ =~= seq![header@]);
        Self { header, crc: checksum(&bytes) }
    }

    /// Creates a new ACK frame acknowledging frames up to `ack_num` (modulo eight),
    /// with the not-ready flag cleared.
    pub fn from_ack_num(ack_num: u8) -> (res: Self)
        ensures
            res.header@ == headers::spec_ack_bits(ack_num, false, false),
            res.crc == res.spec_calculate_crc(),
            res.header@ % 8 == ack_num % 8,
            res.header@ & 0x08u8 == 0,
    {
        proof {
            headers::lemma_ack_bits(ack_num, false, false);
            let b = headers::spec_ack_bits(ack_num, false, false);
            assert(b & 0x07u8 == b % 8) by (bit_vector);
        }
        Self::new(headers::Ack::new(ack_num, false, false))
    }

    /// Whether the not-ready flag is set.
    pub fn not_ready(&self) -> (res: bool)
        ensures
            res == (self.header@ & 0x08u8 != 0),
    {
        self.header.not_ready()
    }

    /// Returns the acknowledgement number.
    pub fn ack_num(&self) -> (res: u8)
        ensures
            res == self.header@ % 8,
    {
        self.header.ack_num()
    }

    /// Returns the header byte.
    pub fn header(&self) -> (res: u8)
        ensures
            res == self.header@,
    {
        self.header.bits()
    }

    /// Returns the transmitted checksum.
    pub fn crc(&self) -> (res: u16)
        ensures
            res == self.crc,
    {
        self.crc
    }

    /// Computes the checksum over the header.
    pub fn calculate_crc(&self) -> (res: u16)
        ensures
            res == self.spec_calculate_crc(),
    {
        let bytes: [u8; 1] = [self.header.bits()];
        assert(bytes@ =~= seq![self.header@]);
        checksum(&bytes)
    }

    /// Whether the transmitted checksum matches the computed one.
    pub fn is_crc_valid(&self) -> (res: bool)
        ensures
            res == (self.crc == self.spec_calculate_crc()),
    {
        self.crc == self.calculate_crc()
    }

    /// Returns the bytes of the frame.
    pub fn bytes(&self) -> (res: Vec<u8>)
        ensures
            res@ == self.spec_bytes(),
    {
        let res = vec![self.header.bits(), u16_hi_byte(self.crc), u16_lo_byte(self.crc)];
        assert(res@ =~= self.spec_bytes());
        res
    }

    /// Parses an ACK frame from exactly three bytes.
    pub fn from_bytes(buffer: &[u8]) -> (res: Result<Self, FrameError>)
        ensures
            res == Ack::spec_parse(buffer@),
    {
        if buffer.len() < Self::SIZE {
            Err(FrameError::BufferTooSmall { expected: Self::SIZE, found: buffer.len() })
        } else if buffer.len() > Self::SIZE {
            Err(FrameError::BufferTooLarge { expected: Self::SIZE, found: buffer.len() })
        } else {
            Ok(
                Self {
                    header: headers::Ack::from_bits_retain(buffer[0]),
                    crc: u16_from_be_bytes(buffer[1], buffer[2]),
                },
            )
        }
    }

    /// The text form of the frame: `ACK(`, the ACK number, `)`, then `+` if the NCP is
    /// ready and `-` if not.
    pub fn to_string(&self) -> (res: String)
        ensures
            res@ == self.spec_text(),
    {
        proof {
            reveal_strlit("ACK(");
            reveal_strlit(")-");
            reveal_strlit(")+");
        }
        let mut s = String::from_str("ACK(");
        push_decimal(&mut s, self.ack_num());
        if self.not_ready() {
            s.append(")-");
        } else {
            s.append(")+");
        }
        s
    }

}

impl<'a> TryFrom<&'a [u8]> for Ack {
    type Error = FrameError;

    fn try_from(buffer: &'a [u8]) -> (res: Result<Self, FrameError>) {
        Self::from_bytes(buffer)
    }
}

impl<'a> vstd::std_specs::convert::TryFromSpecImpl<&'a [u8]> for Ack {
    open spec fn obeys_try_from_spec() -> bool {
        true
    }

    open spec fn try_from_spec(buffer: &'a [u8]) -> Result<Self, FrameError> {
        Ack::spec_parse(buffer@)
    }
}

/// Parsing the bytes of an ACK frame gives the frame back.
pub proof fn lemma_ack_roundtrip(ack: Ack)
    ensures
        Ack::spec_parse(ack.spec_bytes()) == Ok::<Ack, FrameError>(ack),
{
    crate::packet::lemma_be_u16(ack.crc, 0, 0);
    headers::Ack::lemma_from_bits(ack.header);
}

/// A buffer that parses as an ACK frame consists of that frame's bytes.
pub proof fn lemma_ack_parse_bytes(buffer: Seq<u8>)
    ensures
        Ack::spec_parse(buffer) matches Ok(ack) ==> ack.spec_bytes() == buffer,
{
    if buffer.len() == Ack::SIZE {
        crate::packet::lemma_be_u16(0, buffer[1], buffer[2]);
        headers::Ack::lemma_bits_of(buffer[0]);
        assert(Ack::spec_parse(buffer).unwrap().spec_bytes() =~= buffer);
    }
}

/// An ACK frame made from a number carries that number modulo eight, with the ready flag
/// set: `from_ack_num` and `ack_num` agree for every byte.
pub proof fn lemma_from_ack_num(ack_num: u8)
    ensures
        headers::spec_ack_bits(ack_num, false, false) % 8 == ack_num % 8,
        headers::spec_ack_bits(ack_num, false, false) & 0x08u8 == 0,
{
    headers::lemma_ack_bits(ack_num, false, false);
    let b = headers::spec_ack_bits(ack_num, false, false);
    assert(b & 0x07u8 == b % 8) by (bit_vector);
}

} // verus!
