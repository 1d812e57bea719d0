//! Header bytes of the frames whose header is not a constant.
use vstd::prelude::*;

verus! {

/// The header byte of an ACK frame.
#[derive(Clone, Copy, Debug, PartialEq, Eq, Structural, Hash)]
pub struct Ack(u8);

impl View for Ack {
    type V = u8;

    closed spec fn view(&self) -> u8 {
        self.0
    }
}

/// The bits of an ACK header built from its fields.
pub open spec fn spec_ack_bits(ack_num: u8, n_rdy: bool, reserved: bool) -> u8 {
    (0x80u8 | (ack_num & 0x07u8)) | (if n_rdy { 0x08u8 } else { 0u8 }) | (if reserved {
        0x10u8
    } else {
        0u8
    })
}

impl Ack {
    /// The header with the given raw byte.
    pub closed spec fn spec_from_bits(bits: u8) -> Ack {
        Ack(bits)
    }

    /// A header is determined by its raw byte.
    pub proof fn lemma_from_bits(h: Ack)
        ensures
            Ack::spec_from_bits(h@) == h,
    {
    }

    /// The raw byte of a header built from a byte is that byte.
    pub proof fn lemma_bits_of(bits: u8)
        ensures
            Ack::spec_from_bits(bits)@ == bits,
    {
    }

    pub const DEFAULT: u8 = 0b1000_0000;
    pub const RESERVED: u8 = 0b0001_0000;
    pub const NOT_READY: u8 = 0b0000_1000;
    pub const ACK_NUM: u8 = 0b0000_0111;

    /// Builds the header from an ACK number and the not-ready and reserved flags.
    pub fn new(ack_num: u8, n_rdy: bool, reserved: bool) -> (res: Self)
        ensures
            res@ == spec_ack_bits(ack_num, n_rdy, reserved),
    {
        Self(
            (0x80u8 | (ack_num & 0x07u8)) | (if n_rdy { 0x08u8 } else { 0u8 }) | (if reserved {
                0x10u8
            } else {
                0u8
            }),
        )
    }

    /// Wraps a raw header byte, keeping every bit.
    pub fn from_bits_retain(bits: u8) -> (res: Self)
        ensures
            res@ == bits,
            res == Self::spec_from_bits(bits),
    {
        Self(bits)
    }

    /// The raw header byte.
    pub fn bits(self) -> (res: u8)
        ensures
            res == self@,
    {
        self.0
    }

    /// Whether the not-ready flag is set.
    pub fn not_ready(self) -> (res: bool)
        ensures
            res == (self@ & 0x08u8 != 0),
    {
        self.0 & Self::NOT_READY != 0
    }

    /// Returns the ACK number.
    pub fn ack_num(self) -> (res: u8)
        ensures
            res == self@ & 0x07u8,
            res == self@ % 8,
    {
        let bits = self.0;
        assert(bits & 0x07u8 == bits % 8) by (bit_vector);
        bits & Self::ACK_NUM
    }
}

/// The bits of a NAK header built from its fields.
pub open spec fn spec_nak_bits(ack_num: u8, n_rdy: bool, reserved: bool) -> u8 {
    (0xA0u8 | (ack_num & 0x07u8)) | (if n_rdy { 0x08u8 } else { 0u8 }) | (if reserved {
        0x10u8
    } else {
        0u8
    })
}

/// The header byte of a NAK frame.
#[derive(Clone, Copy, Debug, PartialEq, Eq, Structural, Hash)]
pub struct Nak(u8);

impl View for Nak {
    type V = u8;

    closed spec fn view(&self) -> u8 {
        self.0
    }
}

impl Nak {
    /// The header with the given raw byte.
    pub closed spec fn spec_from_bits(bits: u8) -> Nak {
        Nak(bits)
    }

    /// A header is determined by its raw byte.
    pub proof fn lemma_from_bits(h: Nak)
        ensures
            Nak::spec_from_bits(h@) == h,
    {
    }

    /// The raw byte of a header built from a byte is that byte.
    pub proof fn lemma_bits_of(bits: u8)
        ensures
            Nak::spec_from_bits(bits)@ == bits,
    {
    }

    pub const DEFAULT: u8 = 0b1010_0000;
    pub const RESERVED: u8 = 0b0001_0000;
    pub const NOT_READY: u8 = 0b0000_1000;
    pub const ACK_NUM: u8 = 0b0000_0111;

    /// Builds the header from an ACK number and the not-ready and reserved flags.
    pub fn new(ack_num: u8, n_rdy: bool, reserved: bool) -> (res: Self)
        ensures
            res@ == spec_nak_bits(ack_num, n_rdy, reserved),
    {
        Self(
            (0xA0u8 | (ack_num & 0x07u8)) | (if n_rdy { 0x08u8 } else { 0u8 }) | (if reserved {
                0x10u8
            } else {
                0u8
            }),
        )
    }

    /// Wraps a raw header byte, keeping every bit.
    pub fn from_bits_retain(bits: u8) -> (res: Self)
        ensures
            res@ == bits,
            res == Self::spec_from_bits(bits),
    {
        Self(bits)
    }

    /// The raw header byte.
    pub fn bits(self) -> (res: u8)
        ensures
            res == self@,
    {
        self.0
    }

    /// Returns the ACK number.
    pub fn ack_num(self) -> (res: u8)
        ensures
            res == self@ & 0x07u8,
            res == self@ % 8,
    {
        let bits = self.0;
        assert(bits & 0x07u8 == bits % 8) by (bit_vector);
        bits & Self::ACK_NUM
    }
}

/// The bits of a DATA header built from its fields.
pub open spec fn spec_data_bits(frame_num: u8, retransmit: bool, ack_num: u8) -> u8 {
    (((frame_num << 4u8) & 0x70u8) | (if retransmit { 0x08u8 } else { 0u8 })) | (ack_num & 0x07u8)
}

/// The header byte of a DATA frame.
#[derive(Clone, Copy, Debug, PartialEq, Eq, Structural, Hash)]
pub struct Data(u8);

impl View for Data {
    type V = u8;

    closed spec fn view(&self) -> u8 {
        self.0
    }
}

impl Data {
    /// The header with the given raw byte.
    pub closed spec fn spec_from_bits(bits: u8) -> Data {
        Data(bits)
    }

    /// A header is determined by its raw byte.
    pub proof fn lemma_from_bits(h: Data)
        ensures
            Data::spec_from_bits(h@) == h,
    {
    }

    /// The raw byte of a header built from a byte is that byte.
    pub proof fn lemma_bits_of(bits: u8)
        ensures
            Data::spec_from_bits(bits)@ == bits,
    {
    }

    pub const DEFAULT: u8 = 0b0000_0000;
    pub const FRAME_NUM: u8 = 0b0111_0000;
    pub const RETRANSMIT: u8 = 0b0000_1000;
    pub const ACK_NUM: u8 = 0b0000_0111;
    const FRAME_NUM_OFFSET: u8 = 4;

    /// Builds the header from a frame number, the retransmit flag and an ACK number.
    pub fn new(frame_num: u8, retransmit: bool, ack_num: u8) -> (res: Self)
        ensures
            res@ == spec_data_bits(frame_num, retransmit, ack_num),
            res@ & 0x80u8 == 0,
    {
        let bits: u8 = (((frame_num << 4u8) & 0x70u8) | (if retransmit { 0x08u8 } else { 0u8 })) | (
        ack_num & 0x07u8);
        assert(spec_data_bits(frame_num, retransmit, ack_num) & 0x80u8 == 0) by (bit_vector);
        Self(bits)
    }

    /// Wraps a raw header byte, keeping every bit.
    pub fn from_bits_retain(bits: u8) -> (res: Self)
        ensures
            res@ == bits,
            res == Self::spec_from_bits(bits),
    {
        Self(bits)
    }

    /// The raw header byte.
    pub fn bits(self) -> (res: u8)
        ensures
            res == self@,
    {
        self.0
    }

    /// Returns the frame number.
    pub fn frame_num(self) -> (res: u8)
        ensures
            res == (self@ >> 4u8) & 0x07u8,
            res < 8,
    {
        let bits = self.0;
        assert((bits & 0x70u8) >> 4u8 == (bits >> 4u8) & 0x07u8) by (bit_vector);
        assert((bits >> 4u8) & 0x07u8 < 8) by (bit_vector);
        (bits & Self::FRAME_NUM) >> Self::FRAME_NUM_OFFSET
    }

    /// Whether the retransmit flag is set.
    pub fn is_retransmission(self) -> (res: bool)
        ensures
            res == (self@ & 0x08u8 != 0),
    {
        self.0 & Self::RETRANSMIT != 0
    }

    /// Sets or clears the retransmit flag, keeping every other bit.
    pub fn set_retransmission(&mut self, retransmit: bool)
        ensures
            final(self)@ == (if retransmit {
                old(self)@ | 0x08u8
            } else {
                old(self)@ & 0xF7u8
            }),
    {
        if retransmit {
            self.0 = self.0 | 0x08u8;
        } else {
            self.0 = self.0 & 0xF7u8;
        }
    }

    /// Returns the ACK number.
    pub fn ack_num(self) -> (res: u8)
        ensures
            res == self@ & 0x07u8,
            res < 8,
    {
        let bits = self.0;
        assert(bits & 0x07u8 < 8) by (bit_vector);
        bits & Self::ACK_NUM
    }
}

/// The ACK number of a header built by `Ack::new` is the given number modulo eight.
pub proof fn lemma_ack_bits(ack_num: u8, n_rdy: bool, reserved: bool)
    ensures
        spec_ack_bits(ack_num, n_rdy, reserved) & 0x07u8 == ack_num % 8,
        (spec_ack_bits(ack_num, n_rdy, reserved) & 0x08u8 != 0) == n_rdy,
        spec_ack_bits(ack_num, n_rdy, reserved) & 0xE0u8 == 0x80u8,
{
    assert(spec_ack_bits(ack_num, n_rdy, reserved) & 0x07u8 == ack_num % 8) by (bit_vector);
    assert((spec_ack_bits(ack_num, n_rdy, reserved) & 0x08u8 != 0) == n_rdy) by (bit_vector);
    assert(spec_ack_bits(ack_num, n_rdy, reserved) & 0xE0u8 == 0x80u8) by (bit_vector);
}

/// The ACK number of a header built by `Nak::new` is the given number modulo eight.
pub proof fn lemma_nak_bits(ack_num: u8, n_rdy: bool, reserved: bool)
    ensures
        spec_nak_bits(ack_num, n_rdy, reserved) & 0x07u8 == ack_num % 8,
        (spec_nak_bits(ack_num, n_rdy, reserved) & 0x08u8 != 0) == n_rdy,
        spec_nak_bits(ack_num, n_rdy, reserved) & 0xE0u8 == 0xA0u8,
{
    assert(spec_nak_bits(ack_num, n_rdy, reserved) & 0x07u8 == ack_num % 8) by (bit_vector);
    assert((spec_nak_bits(ack_num, n_rdy, reserved) & 0x08u8 != 0) == n_rdy) by (bit_vector);
    assert(spec_nak_bits(ack_num, n_rdy, reserved) & 0xE0u8 == 0xA0u8) by (bit_vector);
}

/// The fields of a header built by `Data::new` read back as the given fields
/// (numbers modulo eight).
pub proof fn lemma_data_bits(frame_num: u8, retransmit: bool, ack_num: u8)
    ensures
        (spec_data_bits(frame_num, retransmit, ack_num) >> 4u8) & 0x07u8 == frame_num % 8,
        (spec_data_bits(frame_num, retransmit, ack_num) & 0x08u8 != 0) == retransmit,
        spec_data_bits(frame_num, retransmit, ack_num) & 0x07u8 == ack_num % 8,
{
    assert((spec_data_bits(frame_num, retransmit, ack_num) >> 4u8) & 0x07u8 == frame_num % 8)
        by (bit_vector);
    assert((spec_data_bits(frame_num, retransmit, ack_num) & 0x08u8 != 0) == retransmit)
        by (bit_vector);
    assert(spec_data_bits(frame_num, retransmit, ack_num) & 0x07u8 == ack_num % 8)
        by (bit_vector);
}

} // verus!
