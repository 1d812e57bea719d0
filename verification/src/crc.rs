//! The CRC-16 checksum used by `ASHv2` frames (CRC-CCITT, polynomial `0x1021`,
//! initial value `0xFFFF`, no reflection, no final XOR).
use vstd::prelude::*;

verus! {

/// The generator polynomial.
pub const POLYNOMIAL: u16 = 0x1021;

/// The initial value of the shift register.
pub const INITIAL: u16 = 0xFFFF;

/// One shift of the register.
pub open spec fn spec_shift(c: u16) -> u16 {
    if c & 0x8000u16 != 0 {
        ((c << 1u16) ^ POLYNOMIAL) as u16
    } else {
        (c << 1u16) as u16
    }
}

/// `n` shifts of the register.
pub open spec fn spec_shifts(c: u16, n: nat) -> u16
    decreases n,
{
    if n == 0 {
        c
    } else {
        spec_shifts(spec_shift(c), (n - 1) as nat)
    }
}

/// The register after feeding one byte.
pub open spec fn spec_update(c: u16, byte: u8) -> u16 {
    spec_shifts(c ^ ((byte as u16) << 8u16), 8)
}

/// The checksum of a byte sequence.
pub open spec fn spec_crc(bytes: Seq<u8>) -> u16
    decreases bytes.len(),
{
    if bytes.len() == 0 {
        INITIAL
    } else {
        spec_update(spec_crc(bytes.drop_last()), bytes.last())
    }
}

fn update(crc: u16, byte: u8) -> (res: u16)
    ensures
        res == spec_update(crc, byte),
{
    let mut c: u16 = crc ^ ((byte as u16) << 8u16);
    let ghost start = c;
    let mut i: usize = 0;
    while i < 8
        invariant
            i <= 8,
            spec_shifts(start, 8) == spec_shifts(c, (8 - i) as nat),
        decreases 8 - i,
    {
        if c & 0x8000u16 != 0 {
            c = (c << 1u16) ^ POLYNOMIAL;
        } else {
            c = c << 1u16;
        }
        i = i + 1;
    }
    c
}

/// Computes the checksum of `bytes`.
pub fn checksum(bytes: &[u8]) -> (res: u16)
    ensures
        res == spec_crc(bytes@),
{
    let mut crc: u16 = INITIAL;
    let mut i: usize = 0;
    while i < bytes.len()
        invariant
            i <= bytes@.len(),
            crc == spec_crc(bytes@.take(i as int)),
        decreases bytes@.len() - i,
    {
        assert(bytes@.take(i + 1).drop_last() =~= bytes@.take(i as int));
        crc = update(crc, bytes[i]);
        i = i + 1;
    }
    assert(bytes@.take(i as int) =~= bytes@);
    crc
}

} // verus!
