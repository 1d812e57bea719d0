//! RSTACK frames.
use crate::code::Code;
use crate::crc::{checksum, spec_crc};
use crate::error::FrameError;
use crate::buffers::{frame_buffer_extend_from_slice, frame_buffer_push, frame_bytes, FrameBuffer, FRAME_BUFFER_SIZE};
use crate::packet::{be_u16, hi_byte, lo_byte, u16_from_be_bytes, u16_hi_byte, u16_lo_byte};
use crate::VERSION;
use crate::format::{push_hex, spec_hex};
use vstd::string::StringExecFns;
use vstd::prelude::*;

verus! {

/// Informs the host that the NCP has reset, and why.
#[derive(Clone, Copy, Debug, PartialEq, Eq, Structural, Hash)]
pub struct RstAck {
    pub header: u8,
    pub version: u8,
    pub reset_code: u8,
    pub crc: u16,
}

impl RstAck {
    /// The text form of the frame.
    pub open spec fn spec_text(self) -> Seq<char> {
        seq!['R', 'S', 'T', 'A', 'C', 'K', '('] + spec_hex(self.version) + seq![
            ',',
            ' ',
        ] + spec_hex(self.reset_code) + seq![')']
    }

    pub const HEADER: u8 = 0xC1;
    pub const SIZE: usize = 5;

    /// The bytes of the frame: header, version, reset code and big-endian CRC.
    pub open spec fn spec_bytes(self) -> Seq<u8> {
        seq![self.header, self.version, self.reset_code, hi_byte(self.crc), lo_byte(self.crc)]
    }

    /// The checksum over header, version and reset code.
    pub open spec fn spec_calculate_crc(self) -> u16 {
        spec_crc(seq![self.header, self.version, self.reset_code])
    }

    /// The result of parsing a buffer as a RSTACK frame.
    pub open spec fn spec_parse(buffer: Seq<u8>) -> Result<RstAck, FrameError> {
        if buffer.len() < RstAck::SIZE {
            Err(
                FrameError::BufferTooSmall { expected: RstAck::SIZE, found: buffer.len() as usize },
            )
        } else if buffer.len() > RstAck::SIZE {
            Err(
                FrameError::BufferTooLarge { expected: RstAck::SIZE, found: buffer.len() as usize },
            )
        } else {
            Ok(
                RstAck {
                    header: buffer[0],
                    version: buffer[1],
                    reset_code: buffer[2],
                    crc: be_u16(buffer[3], buffer[4]),
                },
            )
        }
    }

    /// Creates a new `ASHv2` RSTACK frame with a valid checksum.
    pub fn new(reset_code: u8) -> (res: Self)
        ensures
            res.header == RstAck::HEADER,
            res.version == VERSION,
            res.reset_code == reset_code,
            res.crc == res.spec_calculate_crc(),
    {
        let bytes: [u8; 3] = [Self::HEADER, VERSION, reset_code];
        assert(bytes@ =~= seq![RstAck::HEADER, VERSION, reset_code]);
        Self { header: Self::HEADER, version: VERSION, reset_code, crc: checksum(&bytes) }
    }

    /// Returns the protocol version.
    ///
    /// This is statically set to `0x02` (2) for `ASHv2`.
    pub fn version(&self) -> (res: u8)
        ensures
            res == self.version,
    {
        self.version
    }

    /// Verifies that this is indeed `ASHv2`.
    pub fn is_ash_v2(&self) -> (res: bool)
        ensures
            res == (self.version == VERSION),
    {
        self.version == VERSION
    }

    /// Returns the reset code, or the raw byte if it encodes no known code.
    pub fn code(&self) -> (res: Result<Code, u8>)
        ensures
            res == (match Code::from_value(self.reset_code) {
                Some(code) => Ok(code),
                None => Err(self.reset_code),
            }),
    {
        Code::from_u8(self.reset_code)
    }

    /// Returns the header byte.
    pub fn header(&self) -> (res: u8)
        ensures
            res == self.header,
    {
        self.header
    }

    /// Returns the transmitted checksum.
    pub fn crc(&self) -> (res: u16)
        ensures
            res == self.crc,
    {
        self.crc
    }

    /// Computes the checksum over header, version and reset code.
    pub fn calculate_crc(&self) -> (res: u16)
        ensures
            res == self.spec_calculate_crc(),
    {
        let bytes: [u8; 3] = [self.header, self.version, self.reset_code];
        assert(bytes@ =~= seq![self.header, self.version, self.reset_code]);
        checksum(&bytes)
    }

    /// Whether the transmitted checksum matches the computed one.
    pub fn is_crc_valid(&self) -> (res: bool)
        ensures
            res == (self.crc == self.spec_calculate_crc()),
    {
        self.crc == self.calculate_crc()
    }

    /// Returns the bytes of the frame.
    pub fn bytes(&self) -> (res: Vec<u8>)
        ensures
            res@ == self.spec_bytes(),
    {
        let res = vec![
            self.header,
            self.version,
            self.reset_code,
            u16_hi_byte(self.crc),
            u16_lo_byte(self.crc),
        ];
        assert(res@ =~= self.spec_bytes());
        res
    }

    /// Parses a RSTACK frame from exactly five bytes.
    pub fn from_bytes(buffer: &[u8]) -> (res: Result<Self, FrameError>)
        ensures
            res == RstAck::spec_parse(buffer@),
    {
        if buffer.len() < Self::SIZE {
            Err(FrameError::BufferTooSmall { expected: Self::SIZE, found: buffer.len() })
        } else if buffer.len() > Self::SIZE {
            Err(FrameError::BufferTooLarge { expected: Self::SIZE, found: buffer.len() })
        } else {
            Ok(
                Self {
                    header: buffer[0],
                    version: buffer[1],
                    reset_code: buffer[2],
                    crc: u16_from_be_bytes(buffer[3], buffer[4]),
                },
            )
        }
    }

    /// The text form of the frame: `RSTACK(`, the version and the reset code in
    /// hexadecimal, separated by a comma and a space, then `)`.
    pub fn to_string(&self) -> (res: String)
        ensures
            res@ == self.spec_text(),
    {
        proof {
            reveal_strlit("RSTACK(");
            reveal_strlit(", ");
            reveal_strlit(")");
        }
        let mut s = String::from_str("RSTACK(");
        push_hex(&mut s, self.version);
        s.append(", ");
        push_hex(&mut s, self.reset_code);
        s.append(")");
        s
    }

    /// Appends the bytes of the frame to `buffer`: header, version and reset code one by
    /// one, then the checksum, stopping at the first that does not fit.
    pub fn buffer(&self, buffer: &mut FrameBuffer) -> (res: Result<(), ()>)
        ensures
            res is Ok <==> frame_bytes(*old(buffer)).len() + RstAck::SIZE <= FRAME_BUFFER_SIZE,
            res is Ok ==> frame_bytes(*final(buffer)) == frame_bytes(*old(buffer))
                + self.spec_bytes(),
            res is Err ==> frame_bytes(*final(buffer)) == frame_bytes(*old(buffer))
                + self.spec_bytes().take(
                if frame_bytes(*old(buffer)).len() + 3 <= FRAME_BUFFER_SIZE {
                    3
                } else if frame_bytes(*old(buffer)).len() >= FRAME_BUFFER_SIZE {
                    0
                } else {
                    FRAME_BUFFER_SIZE - frame_bytes(*old(buffer)).len()
                },
            ),
    {
        let ghost start = frame_bytes(*buffer);
        let ghost all = self.spec_bytes();
        if frame_buffer_push(buffer, self.header).is_err() {
            assert(frame_bytes(*buffer) =~= start + all.take(0));
            return Err(());
        }
        assert(frame_bytes(*buffer) =~= start + all.take(1));
        if frame_buffer_push(buffer, self.version).is_err() {
            return Err(());
        }
        assert(frame_bytes(*buffer) =~= start + all.take(2));
        if frame_buffer_push(buffer, self.reset_code).is_err() {
            return Err(());
        }
        assert(frame_bytes(*buffer) =~= start + all.take(3));
        let crc_bytes: [u8; 2] = [u16_hi_byte(self.crc), u16_lo_byte(self.crc)];
        let r = frame_buffer_extend_from_slice(buffer, &crc_bytes);
        assert(all.take(3) + crc_bytes@ =~= all);
        r
    }
}

impl From<Code> for RstAck {
    fn from(code: Code) -> (res: Self) {
        Self::new(code.to_u8())
    }
}

impl vstd::std_specs::convert::FromSpecImpl<Code> for RstAck {
    open spec fn obeys_from_spec() -> bool {
        true
    }

    open spec fn from_spec(code: Code) -> RstAck {
        RstAck {
            header: RstAck::HEADER,
            version: VERSION,
            reset_code: code.value(),
            crc: spec_crc(seq![RstAck::HEADER, VERSION, code.value()]),
        }
    }
}

impl<'a> TryFrom<&'a [u8]> for RstAck {
    type Error = FrameError;

    fn try_from(buffer: &'a [u8]) -> (res: Result<Self, FrameError>) {
        Self::from_bytes(buffer)
    }
}

impl<'a> vstd::std_specs::convert::TryFromSpecImpl<&'a [u8]> for RstAck {
    open spec fn obeys_try_from_spec() -> bool {
        true
    }

    open spec fn try_from_spec(buffer: &'a [u8]) -> Result<Self, FrameError> {
        RstAck::spec_parse(buffer@)
    }
}

/// Parsing the bytes of a RSTACK frame gives the frame back.
pub proof fn lemma_rst_ack_roundtrip(rst_ack: RstAck)
    ensures
        RstAck::spec_parse(rst_ack.spec_bytes()) == Ok::<RstAck, FrameError>(rst_ack),
{
    crate::packet::lemma_be_u16(rst_ack.crc, 0, 0);
}

/// A buffer that parses as a RSTACK frame consists of that frame's bytes.
pub proof fn lemma_rst_ack_parse_bytes(buffer: Seq<u8>)
    ensures
        RstAck::spec_parse(buffer) matches Ok(rst_ack) ==> rst_ack.spec_bytes() == buffer,
{
    if buffer.len() == RstAck::SIZE {
        crate::packet::lemma_be_u16(0, buffer[3], buffer[4]);
        assert(RstAck::spec_parse(buffer).unwrap().spec_bytes() =~= buffer);
    }
}

} // verus!
