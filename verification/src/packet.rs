//! The frames of the `ASHv2` protocol.
use crate::error::FrameError;
use vstd::prelude::*;


pub mod ack;
pub mod data;
pub mod error;
pub mod headers;
pub mod nak;
pub mod rst;
pub mod rst_ack;

pub use ack::Ack;
pub use data::{Data, DataView};
pub use error::Error;
pub use nak::Nak;
pub use rst::Rst;
pub use rst_ack::RstAck;



verus! {

/// The high byte of a 16 bit number.
pub open spec fn hi_byte(n: u16) -> u8 {
    (n >> 8u16) as u8
}

/// The low byte of a 16 bit number.
pub open spec fn lo_byte(n: u16) -> u8 {
    (n & 0xFFu16) as u8
}

/// The 16 bit number with the given big-endian bytes.
pub open spec fn be_u16(hi: u8, lo: u8) -> u16 {
    ((hi as u16) << 8u16) | (lo as u16)
}

/// Splitting a number into big-endian bytes and joining them again are inverse.
pub proof fn lemma_be_u16(n: u16, hi: u8, lo: u8)
    ensures
        be_u16(hi_byte(n), lo_byte(n)) == n,
        hi_byte(be_u16(hi, lo)) == hi,
        lo_byte(be_u16(hi, lo)) == lo,
{
    assert((((n >> 8u16) as u8) as u16) << 8u16 | (((n & 0xFFu16) as u8) as u16) == n)
        by (bit_vector);
    assert(((((hi as u16) << 8u16) | (lo as u16)) >> 8u16) as u8 == hi) by (bit_vector);
    assert(((((hi as u16) << 8u16) | (lo as u16)) & 0xFFu16) as u8 == lo) by (bit_vector);
}

/// Joins big-endian bytes into a 16 bit number.
pub fn u16_from_be_bytes(hi: u8, lo: u8) -> (res: u16)
    ensures
        res == be_u16(hi, lo),
{
    ((hi as u16) << 8u16) | (lo as u16)
}

/// The high byte of a 16 bit number.
pub fn u16_hi_byte(n: u16) -> (res: u8)
    ensures
        res == hi_byte(n),
{
    (n >> 8u16) as u8
}

/// The low byte of a 16 bit number.
pub fn u16_lo_byte(n: u16) -> (res: u8)
    ensures
        res == lo_byte(n),
{
    (n & 0xFFu16) as u8
}

/// Appends the bytes of a slice to a vector.
pub fn append_bytes(v: &mut Vec<u8>, bytes: &[u8])
    ensures
        final(v)@ == old(v)@ + bytes@,
{
    let ghost start = v@;
    let mut i: usize = 0;
    while i < bytes.len()
        invariant
            i <= bytes@.len(),
            v@ == start + bytes@.take(i as int),
        decreases bytes@.len() - i,
    {
        v.push(bytes[i]);
        i = i + 1;
        assert(v@ =~= start + bytes@.take(i as int));
    }
    assert(bytes@.take(i as int) =~= bytes@);
}

/// A frame of any type.
#[derive(Clone, Debug, PartialEq, Eq)]
pub enum Packet {
    /// ACK frame
    Ack(Ack),
    /// DATA frame
    Data(Data),
    /// ERROR frame
    Error(Error),
    /// NAK frame
    Nak(Nak),
    /// RST frame
    Rst(Rst),
    /// RSTACK frame
    RstAck(RstAck),
}

/// The plain contents of a frame of any type.
pub enum PacketView {
    Ack(Ack),
    Data(DataView),
    Error(Error),
    Nak(Nak),
    Rst(Rst),
    RstAck(RstAck),
}

impl View for Packet {
    type V = PacketView;

    open spec fn view(&self) -> PacketView {
        match self {
            Packet::Ack(ack) => PacketView::Ack(*ack),
            Packet::Data(data) => PacketView::Data(data@),
            Packet::Error(error) => PacketView::Error(*error),
            Packet::Nak(nak) => PacketView::Nak(*nak),
            Packet::Rst(rst) => PacketView::Rst(*rst),
            Packet::RstAck(rst_ack) => PacketView::RstAck(*rst_ack),
        }
    }
}

/// Whether a header byte introduces a DATA frame.
pub open spec fn is_data_header(header: u8) -> bool {
    header & 0x80u8 == 0
}

/// Whether a header byte introduces an ACK frame.
pub open spec fn is_ack_header(header: u8) -> bool {
    header & 0x80u8 != 0 && header & 0x60u8 == 0
}

/// Whether a header byte introduces a NAK frame.
pub open spec fn is_nak_header(header: u8) -> bool {
    header & 0x80u8 != 0 && header & 0x60u8 == 0x20
}

impl PacketView {
    /// The bytes of the frame.
    pub open spec fn spec_bytes(self) -> Seq<u8> {
        match self {
            PacketView::Ack(ack) => ack.spec_bytes(),
            PacketView::Data(data) => data.spec_bytes(),
            PacketView::Error(error) => error.spec_bytes(),
            PacketView::Nak(nak) => nak.spec_bytes(),
            PacketView::Rst(rst) => rst.spec_bytes(),
            PacketView::RstAck(rst_ack) => rst_ack.spec_bytes(),
        }
    }

    /// Whether the transmitted checksum matches the computed one.
    pub open spec fn spec_is_crc_valid(self) -> bool {
        match self {
            PacketView::Ack(ack) => ack.crc == ack.spec_calculate_crc(),
            PacketView::Data(data) => data.crc == data.spec_calculate_crc(),
            PacketView::Error(error) => error.crc == error.spec_calculate_crc(),
            PacketView::Nak(nak) => nak.crc == nak.spec_calculate_crc(),
            PacketView::Rst(rst) => rst.crc == rst.spec_calculate_crc(),
            PacketView::RstAck(rst_ack) => rst_ack.crc == rst_ack.spec_calculate_crc(),
        }
    }

    /// Whether the header byte identifies the frame's type, and a DATA payload has an
    /// admissible size: exactly the frames that parsing can produce.
    pub open spec fn wf(self) -> bool {
        match self {
            PacketView::Ack(ack) => is_ack_header(ack.header@),
            PacketView::Data(data) => is_data_header(data.header) && Data::MIN_PAYLOAD_SIZE
                <= data.payload.len() <= Data::MAX_PAYLOAD_SIZE,
            PacketView::Error(error) => error.header == Error::HEADER,
            PacketView::Nak(nak) => is_nak_header(nak.header),
            PacketView::Rst(rst) => rst.header == Rst::HEADER,
            PacketView::RstAck(rst_ack) => rst_ack.header == RstAck::HEADER,
        }
    }

    /// The result of parsing a buffer as a frame of the type its header names.
    pub open spec fn spec_parse(buffer: Seq<u8>) -> Result<PacketView, FrameError> {
        if buffer.len() == 0 {
            Err(FrameError::MissingHeader)
        } else if buffer[0] == Rst::HEADER {
            match Rst::spec_parse(buffer) {
                Ok(rst) => Ok(PacketView::Rst(rst)),
                Err(e) => Err(e),
            }
        } else if buffer[0] == RstAck::HEADER {
            match RstAck::spec_parse(buffer) {
                Ok(rst_ack) => Ok(PacketView::RstAck(rst_ack)),
                Err(e) => Err(e),
            }
        } else if buffer[0] == Error::HEADER {
            match Error::spec_parse(buffer) {
                Ok(error) => Ok(PacketView::Error(error)),
                Err(e) => Err(e),
            }
        } else if is_data_header(buffer[0]) {
            match Data::spec_parse(buffer) {
                Ok(data) => Ok(PacketView::Data(data)),
                Err(e) => Err(e),
            }
        } else if is_ack_header(buffer[0]) {
            match Ack::spec_parse(buffer) {
                Ok(ack) => Ok(PacketView::Ack(ack)),
                Err(e) => Err(e),
            }
        } else if is_nak_header(buffer[0]) {
            match Nak::spec_parse(buffer) {
                Ok(nak) => Ok(PacketView::Nak(nak)),
                Err(e) => Err(e),
            }
        } else {
            Err(FrameError::UnknownHeader(buffer[0]))
        }
    }
}

impl Packet {
    /// Parses a frame, choosing the frame type by the header byte.
    pub fn from_bytes(buffer: &[u8]) -> (res: Result<Packet, FrameError>)
        ensures
            res matches Ok(packet) ==> PacketView::spec_parse(buffer@) == Ok::<
                PacketView,
                FrameError,
            >(packet@),
            res matches Err(e) ==> PacketView::spec_parse(buffer@) == Err::<PacketView, FrameError>(
                e,
            ),
    {
        if buffer.len() == 0 {
            return Err(FrameError::MissingHeader);
        }
        let header = buffer[0];
        if header == Rst::HEADER {
            match Rst::from_bytes(buffer) {
                Ok(rst) => Ok(Packet::Rst(rst)),
                Err(e) => Err(e),
            }
        } else if header == RstAck::HEADER {
            match RstAck::from_bytes(buffer) {
                Ok(rst_ack) => Ok(Packet::RstAck(rst_ack)),
                Err(e) => Err(e),
            }
        } else if header == Error::HEADER {
            match Error::from_bytes(buffer) {
                Ok(error) => Ok(Packet::Error(error)),
                Err(e) => Err(e),
            }
        } else if header & 0x80 == 0x00 {
            match Data::from_bytes(buffer) {
                Ok(data) => Ok(Packet::Data(data)),
                Err(e) => Err(e),
            }
        } else if header & 0x60 == 0x00 {
            match Ack::from_bytes(buffer) {
                Ok(ack) => Ok(Packet::Ack(ack)),
                Err(e) => Err(e),
            }
        } else if header & 0x60 == 0x20 {
            match Nak::from_bytes(buffer) {
                Ok(nak) => Ok(Packet::Nak(nak)),
                Err(e) => Err(e),
            }
        } else {
            Err(FrameError::UnknownHeader(header))
        }
    }

    /// Whether the transmitted checksum matches the computed one.
    pub fn is_crc_valid(&self) -> (res: bool)
        ensures
            res == self@.spec_is_crc_valid(),
    {
        match self {
            Packet::Ack(ack) => ack.is_crc_valid(),
            Packet::Data(data) => data.is_crc_valid(),
            Packet::Error(error) => error.is_crc_valid(),
            Packet::Nak(nak) => nak.is_crc_valid(),
            Packet::Rst(rst) => rst.is_crc_valid(),
            Packet::RstAck(rst_ack) => rst_ack.is_crc_valid(),
        }
    }

    /// Returns the bytes of the frame.
    pub fn bytes(&self) -> (res: Vec<u8>)
        ensures
            res@ == self@.spec_bytes(),
    {
        match self {
            Packet::Ack(ack) => ack.bytes(),
            Packet::Data(data) => data.bytes(),
            Packet::Error(error) => error.bytes(),
            Packet::Nak(nak) => nak.bytes(),
            Packet::Rst(rst) => rst.bytes(),
            Packet::RstAck(rst_ack) => rst_ack.bytes(),
        }
    }

    /// The text form of the frame, that of its type.
    pub fn to_string(&self) -> (res: String)
        ensures
            res@ == match self {
                Packet::Ack(ack) => ack.spec_text(),
                Packet::Data(data) => data@.spec_text(),
                Packet::Error(error) => error.spec_text(),
                Packet::Nak(nak) => nak.spec_text(),
                Packet::Rst(rst) => rst.spec_text(),
                Packet::RstAck(rst_ack) => rst_ack.spec_text(),
            },
    {
        match self {
            Packet::Ack(ack) => ack.to_string(),
            Packet::Data(data) => data.to_string(),
            Packet::Error(error) => error.to_string(),
            Packet::Nak(nak) => nak.to_string(),
            Packet::Rst(rst) => rst.to_string(),
            Packet::RstAck(rst_ack) => rst_ack.to_string(),
        }
    }
}

impl<'a> TryFrom<&'a [u8]> for Packet {
    type Error = FrameError;

    fn try_from(buffer: &'a [u8]) -> (res: Result<Self, FrameError>)
        ensures
            res matches Ok(packet) ==> PacketView::spec_parse(buffer@) == Ok::<
                PacketView,
                FrameError,
            >(packet@),
            res matches Err(e) ==> PacketView::spec_parse(buffer@) == Err::<PacketView, FrameError>(
                e,
            ),
    {
        Self::from_bytes(buffer)
    }
}

/// The result of `try_from` may hold a payload buffer, which no spec value can name; the
/// conversion's own contract states what it returns.
impl<'a> vstd::std_specs::convert::TryFromSpecImpl<&'a [u8]> for Packet {
    open spec fn obeys_try_from_spec() -> bool {
        false
    }

    open spec fn try_from_spec(buffer: &'a [u8]) -> Result<Self, FrameError> {
        arbitrary()
    }
}

/// Parsing the bytes of a well-formed frame gives the frame back.
pub proof fn lemma_packet_roundtrip(packet: PacketView)
    requires
        packet.wf(),
    ensures
        PacketView::spec_parse(packet.spec_bytes()) == Ok::<PacketView, FrameError>(packet),
{
    match packet {
        PacketView::Ack(ack) => {
            ack::lemma_ack_roundtrip(ack);
            let h = ack.header@;
            assert(is_ack_header(h) ==> h != 0xC0u8 && h != 0xC1u8 && h != 0xC2u8 && !is_data_header(h))
                by (bit_vector);
        },
        PacketView::Data(data) => {
            data::lemma_data_roundtrip(data);
            let h = data.header;
            assert(is_data_header(h) ==> h != 0xC0u8 && h != 0xC1u8 && h != 0xC2u8) by (bit_vector);
        },
        PacketView::Error(error) => {
            error::lemma_error_roundtrip(error);
        },
        PacketView::Nak(nak) => {
            nak::lemma_nak_roundtrip(nak);
            let h = nak.header;
            assert(is_nak_header(h) ==> h != 0xC0u8 && h != 0xC1u8 && h != 0xC2u8 && !is_data_header(h)
                && !is_ack_header(h)) by (bit_vector);
        },
        PacketView::Rst(rst) => {
            rst::lemma_rst_roundtrip(rst);
        },
        PacketView::RstAck(rst_ack) => {
            rst_ack::lemma_rst_ack_roundtrip(rst_ack);
        },
    }
}

/// A buffer that parses as a frame consists of that frame's bytes, and the frame is
/// well-formed.
pub proof fn lemma_packet_parse_bytes(buffer: Seq<u8>)
    ensures
        PacketView::spec_parse(buffer) matches Ok(packet) ==> packet.spec_bytes() == buffer
            && packet.wf(),
{
    ack::lemma_ack_parse_bytes(buffer);
    data::lemma_data_parse_bytes(buffer);
    error::lemma_error_parse_bytes(buffer);
    nak::lemma_nak_parse_bytes(buffer);
    rst::lemma_rst_parse_bytes(buffer);
    rst_ack::lemma_rst_ack_parse_bytes(buffer);
    if buffer.len() > 0 {
        headers::Ack::lemma_bits_of(buffer[0]);
    }
}

} // verus!
