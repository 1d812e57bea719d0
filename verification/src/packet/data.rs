//! DATA frames.
use crate::buffers::{
    frame_buffer_extend_from_slice, frame_buffer_push, frame_bytes, payload_as_slice,
    payload_bytes, payload_from_slice, FrameBuffer, Payload, FRAME_BUFFER_SIZE, MAX_PAYLOAD_SIZE,
};
use crate::crc::{checksum, spec_crc};
use crate::error::FrameError;
use crate::packet::headers;
use crate::packet::{
    append_bytes, be_u16, hi_byte, lo_byte, u16_from_be_bytes, u16_hi_byte, u16_lo_byte,
};
use crate::protocol::randomization::{masked, spec_masked};
use crate::seq_num::SeqNum;
use crate::format::{push_decimal, spec_decimal};
use vstd::string::StringExecFns;
use vstd::prelude::*;

verus! {

/// The plain contents of a DATA frame.
pub struct DataView {
    pub header: u8,
    pub payload: Seq<u8>,
    pub crc: u16,
}

impl DataView {
    /// The text form of the frame.
    pub open spec fn spec_text(self) -> Seq<char> {
        seq!['D', 'A', 'T', 'A', '('] + spec_decimal((self.header >> 4u8) & 0x07u8)
            + seq![',', ' '] + spec_decimal(self.header & 0x07u8) + seq![',', ' ']
            + spec_decimal(if self.header & 0x08u8 != 0 { 1u8 } else { 0u8 }) + seq![')']
    }

    /// The bytes of the frame: header, payload and big-endian CRC.
    pub open spec fn spec_bytes(self) -> Seq<u8> {
        seq![self.header] + self.payload + seq![hi_byte(self.crc), lo_byte(self.crc)]
    }

    /// The checksum over header and payload.
    pub open spec fn spec_calculate_crc(self) -> u16 {
        spec_crc(seq![self.header] + self.payload)
    }
}

/// A DATA frame carrying a (masked) payload.
#[derive(Clone, Debug, PartialEq, Eq)]
pub struct Data {
    pub header: headers::Data,
    pub payload: Payload,
    pub crc: u16,
}

impl View for Data {
    type V = DataView;

    open spec fn view(&self) -> DataView {
        DataView { header: self.header@, payload: payload_bytes(self.payload), crc: self.crc }
    }
}

impl Data {
    const HEADER_SIZE: usize = 1;
    const CRC_CHECKSUM_SIZE: usize = 2;
    pub const METADATA_SIZE: usize = 3;
    pub const MIN_PAYLOAD_SIZE: usize = 3;
    pub const MAX_PAYLOAD_SIZE: usize = 128;
    pub const BUFFER_SIZE: usize = 131;

    /// The result of parsing a buffer as a DATA frame.
    pub open spec fn spec_parse(buffer: Seq<u8>) -> Result<DataView, FrameError> {
        if buffer.len() < Data::METADATA_SIZE {
            Err(
                FrameError::BufferTooSmall {
                    expected: Data::METADATA_SIZE,
                    found: buffer.len() as usize,
                },
            )
        } else if buffer.len() - Data::METADATA_SIZE < Data::MIN_PAYLOAD_SIZE {
            Err(
                FrameError::PayloadTooSmall {
                    min: Data::MIN_PAYLOAD_SIZE,
                    found: (buffer.len() - Data::METADATA_SIZE) as usize,
                },
            )
        } else if buffer.len() - Data::METADATA_SIZE > Data::MAX_PAYLOAD_SIZE {
            Err(
                FrameError::PayloadTooLarge {
                    max: Data::MAX_PAYLOAD_SIZE,
                    found: (buffer.len() - Data::METADATA_SIZE) as usize,
                },
            )
        } else {
            Ok(
                DataView {
                    header: buffer[0],
                    payload: buffer.subrange(1, buffer.len() - 2),
                    crc: be_u16(buffer[buffer.len() - 2], buffer[buffer.len() - 1]),
                },
            )
        }
    }

    /// Creates a new DATA frame: the payload is masked and a valid checksum is computed.
    pub fn new(frame_num: SeqNum, payload: Payload, ack_num: SeqNum) -> (res: Self)
        ensures
            res@.header == headers::spec_data_bits(frame_num.value(), false, ack_num.value()),
            res@.payload == spec_masked(payload_bytes(payload)),
            res.crc == res@.spec_calculate_crc(),
    {
        let header = headers::Data::new(frame_num.as_u8(), false, ack_num.as_u8());
        let masked_payload = masked(payload_as_slice(&payload));
        let crc = Self::crc_of(header.bits(), masked_payload.as_slice());
        match payload_from_slice(masked_payload.as_slice()) {
            Ok(masked_payload) => Self { header, payload: masked_payload, crc },
            Err(()) => Self { header, payload, crc },
        }
    }

    fn crc_of(header: u8, payload: &[u8]) -> (res: u16)
        ensures
            res == spec_crc(seq![header] + payload@),
    {
        let mut bytes: Vec<u8> = Vec::new();
        bytes.push(header);
        append_bytes(&mut bytes, payload);
        assert(bytes@ =~= seq![header] + payload@);
        checksum(bytes.as_slice())
    }

    /// Returns the frame number.
    pub fn frame_num(&self) -> (res: SeqNum)
        ensures
            res.value() == (self@.header >> 4u8) & 0x07u8,
    {
        SeqNum::from_u8_lossy(self.header.frame_num())
    }

    /// Returns the acknowledgment number.
    pub fn ack_num(&self) -> (res: SeqNum)
        ensures
            res.value() == self@.header & 0x07u8,
    {
        SeqNum::from_u8_lossy(self.header.ack_num())
    }

    /// Returns the retransmit flag.
    pub fn is_retransmission(&self) -> (res: bool)
        ensures
            res == (self@.header & 0x08u8 != 0),
    {
        self.header.is_retransmission()
    }

    /// Sets the retransmit flag and recomputes the checksum.
    pub fn set_is_retransmission(&mut self, is_retransmission: bool)
        ensures
            final(self)@.header == (if is_retransmission {
                old(self)@.header | 0x08u8
            } else {
                old(self)@.header & 0xF7u8
            }),
            final(self)@.payload == old(self)@.payload,
            final(self).crc == final(self)@.spec_calculate_crc(),
    {
        self.header.set_retransmission(is_retransmission);
        self.crc = self.calculate_crc();
    }

    /// Consumes the frame and returns its (masked) payload.
    pub fn into_payload(self) -> (res: Payload)
        ensures
            payload_bytes(res) == self@.payload,
    {
        self.payload
    }

    /// Returns the (masked) payload bytes.
    pub fn payload(&self) -> (res: &[u8])
        ensures
            res@ == self@.payload,
            res@.len() <= MAX_PAYLOAD_SIZE,
    {
        payload_as_slice(&self.payload)
    }

    /// Returns the payload with the masking removed.
    pub fn unmasked_payload(&self) -> (res: Vec<u8>)
        ensures
            res@ == spec_masked(self@.payload),
    {
        masked(payload_as_slice(&self.payload))
    }

    /// Returns the header byte.
    pub fn header(&self) -> (res: u8)
        ensures
            res == self@.header,
    {
        self.header.bits()
    }

    /// Returns the transmitted checksum.
    pub fn crc(&self) -> (res: u16)
        ensures
            res == self.crc,
    {
        self.crc
    }

    /// Computes the checksum over header and payload.
    pub fn calculate_crc(&self) -> (res: u16)
        ensures
            res == self@.spec_calculate_crc(),
    {
        Self::crc_of(self.header.bits(), payload_as_slice(&self.payload))
    }

    /// Whether the transmitted checksum matches the computed one.
    pub fn is_crc_valid(&self) -> (res: bool)
        ensures
            res == (self.crc == self@.spec_calculate_crc()),
    {
        self.crc == self.calculate_crc()
    }

    /// Returns the bytes of the frame.
    pub fn bytes(&self) -> (res: Vec<u8>)
        ensures
            res@ == self@.spec_bytes(),
    {
        let mut res: Vec<u8> = Vec::new();
        res.push(self.header.bits());
        append_bytes(&mut res, payload_as_slice(&self.payload));
        res.push(u16_hi_byte(self.crc));
        res.push(u16_lo_byte(self.crc));
        assert(res@ =~= self@.spec_bytes());
        res
    }

    /// Appends the bytes of the frame to `buffer`: header, then payload, then checksum,
    /// stopping at the first part that does not fit.
    pub fn buffer(&self, buffer: &mut FrameBuffer) -> (res: Result<(), ()>)
        ensures
            res is Ok <==> frame_bytes(*old(buffer)).len() + self@.spec_bytes().len()
                <= FRAME_BUFFER_SIZE,
            res is Ok ==> frame_bytes(*final(buffer)) == frame_bytes(*old(buffer))
                + self@.spec_bytes(),
            res is Err ==> frame_bytes(*final(buffer)) == frame_bytes(*old(buffer))
                + self@.spec_bytes().take(
                if frame_bytes(*old(buffer)).len() >= FRAME_BUFFER_SIZE {
                    0
                } else if frame_bytes(*old(buffer)).len() + 1 + self@.payload.len()
                    > FRAME_BUFFER_SIZE {
                    1
                } else {
                    1 + self@.payload.len() as int
                },
            ),
    {
        let ghost start = frame_bytes(*buffer);
        let ghost all = self@.spec_bytes();
        if frame_buffer_push(buffer, self.header.bits()).is_err() {
            assert(all.take(0) =~= Seq::<u8>::empty());
            assert(frame_bytes(*buffer) =~= start + all.take(0));
            return Err(());
        }
        assert(frame_bytes(*buffer) =~= start + all.take(1));
        if frame_buffer_extend_from_slice(buffer, payload_as_slice(&self.payload)).is_err() {
            return Err(());
        }
        let ghost k: int = 1 + self@.payload.len() as int;
        assert(frame_bytes(*buffer) =~= start + all.take(k));
        let crc_bytes: [u8; 2] = [u16_hi_byte(self.crc), u16_lo_byte(self.crc)];
        let r = frame_buffer_extend_from_slice(buffer, &crc_bytes);
        assert(all.take(k) + crc_bytes@ =~= all);
        r
    }

    /// Parses a DATA frame: a header, three to 128 payload bytes and a checksum.
    pub fn from_bytes(buffer: &[u8]) -> (res: Result<Self, FrameError>)
        ensures
            res matches Ok(data) ==> Data::spec_parse(buffer@) == Ok::<DataView, FrameError>(
                data@,
            ),
            res matches Err(e) ==> Data::spec_parse(buffer@) == Err::<DataView, FrameError>(e),
    {
        let len = buffer.len();
        if len < Self::METADATA_SIZE {
            return Err(FrameError::BufferTooSmall { expected: Self::METADATA_SIZE, found: len });
        }
        let payload_len = len - Self::METADATA_SIZE;
        if payload_len < Self::MIN_PAYLOAD_SIZE {
            return Err(FrameError::PayloadTooSmall { min: Self::MIN_PAYLOAD_SIZE, found: payload_len });
        }
        if payload_len > Self::MAX_PAYLOAD_SIZE {
            return Err(FrameError::PayloadTooLarge { max: Self::MAX_PAYLOAD_SIZE, found: payload_len });
        }
        let payload_bytes_slice = slice_subrange(buffer, 1, len - 2);
        match payload_from_slice(payload_bytes_slice.as_slice()) {
            Ok(payload) => Ok(
                Self {
                    header: headers::Data::from_bits_retain(buffer[0]),
                    payload,
                    crc: u16_from_be_bytes(buffer[len - 2], buffer[len - 1]),
                },
            ),
            Err(()) => Err(FrameError::PayloadTooLarge { max: Self::MAX_PAYLOAD_SIZE, found: payload_len }),
        }
    }

    /// The text form of the frame: `DATA(`, the frame number, the ACK number and the
    /// retransmission flag as `0` or `1`, separated by a comma and a space, then `)`.
    pub fn to_string(&self) -> (res: String)
        ensures
            res@ == self@.spec_text(),
    {
        proof {
            reveal_strlit("DATA(");
            reveal_strlit(", ");
            reveal_strlit(")");
        }
        let mut s = String::from_str("DATA(");
        push_decimal(&mut s, self.frame_num().as_u8());
        s.append(", ");
        push_decimal(&mut s, self.ack_num().as_u8());
        s.append(", ");
        push_decimal(&mut s, if self.is_retransmission() { 1 } else { 0 });
        s.append(")");
        s
    }

}

/// Copies `bytes[start..end]` into a new vector.
pub fn slice_subrange(bytes: &[u8], start: usize, end: usize) -> (res: Vec<u8>)
    requires
        start <= end <= bytes@.len(),
    ensures
        res@ == bytes@.subrange(start as int, end as int),
{
    let mut res: Vec<u8> = Vec::new();
    let mut i = start;
    while i < end
        invariant
            start <= i <= end,
            end <= bytes@.len(),
            res@ == bytes@.subrange(start as int, i as int),
        decreases end - i,
    {
        res.push(bytes[i]);
        i = i + 1;
        assert(res@ =~= bytes@.subrange(start as int, i as int));
    }
    res
}

impl<'a> TryFrom<&'a [u8]> for Data {
    type Error = FrameError;

    fn try_from(buffer: &'a [u8]) -> (res: Result<Self, FrameError>)
        ensures
            match res {
                Ok(data) => Data::spec_parse(buffer@) == Ok::<DataView, FrameError>(data@),
                Err(e) => Data::spec_parse(buffer@) == Err::<DataView, FrameError>(e),
            },
    {
        Self::from_bytes(buffer)
    }
}

/// The result of `try_from` holds a payload buffer, which no spec value can name; the
/// conversion's own contract states what it returns.
impl<'a> vstd::std_specs::convert::TryFromSpecImpl<&'a [u8]> for Data {
    open spec fn obeys_try_from_spec() -> bool {
        false
    }

    open spec fn try_from_spec(buffer: &'a [u8]) -> Result<Self, FrameError> {
        arbitrary()
    }
}

/// Parsing the bytes of a DATA frame whose payload has an admissible size gives the
/// frame back.
pub proof fn lemma_data_roundtrip(data: DataView)
    requires
        Data::MIN_PAYLOAD_SIZE <= data.payload.len() <= Data::MAX_PAYLOAD_SIZE,
    ensures
        Data::spec_parse(data.spec_bytes()) == Ok::<DataView, FrameError>(data),
{
    crate::packet::lemma_be_u16(data.crc, 0, 0);
    let b = data.spec_bytes();
    assert(b.subrange(1, b.len() - 2) =~= data.payload);
}

/// A buffer that parses as a DATA frame consists of that frame's bytes, and the
/// payload has an admissible size.
pub proof fn lemma_data_parse_bytes(buffer: Seq<u8>)
    ensures
        Data::spec_parse(buffer) matches Ok(data) ==> data.spec_bytes() == buffer
            && Data::MIN_PAYLOAD_SIZE <= data.payload.len() <= Data::MAX_PAYLOAD_SIZE,
{
    if let Ok(data) = Data::spec_parse(buffer) {
        crate::packet::lemma_be_u16(0, buffer[buffer.len() - 2], buffer[buffer.len() - 1]);
        assert(data.spec_bytes() =~= buffer);
    }
}

} // verus!
