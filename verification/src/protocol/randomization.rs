//! Randomization for masking the payload bytes of DATA frames.
use vstd::prelude::*;

verus! {

/// One step of the pseudo-random sequence.
pub open spec fn spec_step(random: u8, flag_bit: u8, mask: u8) -> u8 {
    if random & flag_bit != 0 {
        (random >> 1u8) ^ mask
    } else {
        random >> 1u8
    }
}

/// The generator register after `n` steps from `seed`.
pub open spec fn spec_state(seed: u8, flag_bit: u8, mask: u8, n: nat) -> u8
    decreases n,
{
    if n == 0 {
        seed
    } else {
        spec_step(spec_state(seed, flag_bit, mask, (n - 1) as nat), flag_bit, mask)
    }
}

/// The `i`-th number of the default sequence, which masks the `i`-th payload byte.
pub open spec fn mask_byte(i: nat) -> u8 {
    spec_state(
        MaskGenerator::DEFAULT_SEED,
        MaskGenerator::DEFAULT_FLAG_BIT,
        MaskGenerator::DEFAULT_MASK,
        i,
    )
}

/// The bytes XOR-ed with the default pseudo-random sequence.
pub open spec fn spec_masked(bytes: Seq<u8>) -> Seq<u8> {
    Seq::new(bytes.len(), |i: int| bytes[i] ^ mask_byte(i as nat))
}

/// Masking twice gives back the original bytes.
pub proof fn lemma_mask_involution(bytes: Seq<u8>)
    ensures
        spec_masked(spec_masked(bytes)) == bytes,
{
    assert forall|i: int| 0 <= i < bytes.len() implies #[trigger] spec_masked(
        spec_masked(bytes),
    )[i] == bytes[i] by {
        let b = bytes[i];
        let m = mask_byte(i as nat);
        assert((b ^ m) ^ m == b) by (bit_vector);
    }
    assert(spec_masked(spec_masked(bytes)) =~= bytes);
}

/// Masking keeps the length.
pub proof fn lemma_mask_len(bytes: Seq<u8>)
    ensures
        spec_masked(bytes).len() == bytes.len(),
{
}

/// Mask bytes with pseudo-random numbers.
pub trait Mask {
    /// Masks bytes with pseudo-random numbers.
    fn mask(&mut self);
}

impl Mask for Vec<u8> {
    fn mask(&mut self)
        ensures
            final(self)@ == spec_masked(old(self)@),
    {
        let mut generator = MaskGenerator::default();
        let mut i: usize = 0;
        let ghost original = self@;
        while i < self.len()
            invariant
                original.len() == self@.len(),
                i <= self@.len(),
                generator.random == mask_byte(i as nat),
                generator.flag_bit == MaskGenerator::DEFAULT_FLAG_BIT,
                generator.mask == MaskGenerator::DEFAULT_MASK,
                forall|j: int| 0 <= j < i ==> self@[j] == original[j] ^ mask_byte(j as nat),
                forall|j: int| i <= j < self@.len() ==> self@[j] == original[j],
            decreases self@.len() - i,
        {
            let m = generator.next_byte();
            let b = self[i] ^ m;
            self.set(i, b);
            i = i + 1;
        }
        assert(self@ =~= spec_masked(original));
    }
}

/// Masks a byte slice into a new vector.
pub fn masked(bytes: &[u8]) -> (res: Vec<u8>)
    ensures
        res@ == spec_masked(bytes@),
{
    let mut generator = MaskGenerator::default();
    let mut res: Vec<u8> = Vec::new();
    let mut i: usize = 0;
    while i < bytes.len()
        invariant
            i <= bytes@.len(),
            res@.len() == i,
            generator.random == mask_byte(i as nat),
            generator.flag_bit == MaskGenerator::DEFAULT_FLAG_BIT,
            generator.mask == MaskGenerator::DEFAULT_MASK,
            forall|j: int| 0 <= j < i ==> res@[j] == bytes@[j] ^ mask_byte(j as nat),
        decreases bytes@.len() - i,
    {
        let m = generator.next_byte();
        res.push(bytes[i] ^ m);
        i = i + 1;
    }
    assert(res@ =~= spec_masked(bytes@));
    res
}

/// Generates a stream of pseudo-random numbers.
#[derive(Clone, Copy, Debug, PartialEq, Eq, Structural)]
pub struct MaskGenerator {
    pub random: u8,
    pub flag_bit: u8,
    pub mask: u8,
}

impl MaskGenerator {
    pub const DEFAULT_MASK: u8 = 0xB8;
    pub const DEFAULT_SEED: u8 = 0x42;
    pub const DEFAULT_FLAG_BIT: u8 = 0x01;

    /// Creates a generator from a seed, a flag bit and a mask.
    pub fn new(seed: u8, flag_bit: u8, mask: u8) -> (res: Self)
        ensures
            res == (MaskGenerator { random: seed, flag_bit, mask }),
    {
        Self { random: seed, flag_bit, mask }
    }

    /// Returns the current number and advances the generator.
    pub fn next_byte(&mut self) -> (res: u8)
        ensures
            res == old(self).random,
            final(self).random == spec_step(old(self).random, old(self).flag_bit, old(self).mask),
            final(self).flag_bit == old(self).flag_bit,
            final(self).mask == old(self).mask,
    {
        let random = self.random;
        self.random = self.random >> 1u8;
        if random & self.flag_bit != 0 {
            self.random = self.random ^ self.mask;
        }
        random
    }

    /// Returns the next number of the (endless) stream.
    pub fn next(&mut self) -> (res: Option<u8>)
        ensures
            res == Some(old(self).random),
            final(self).random == spec_step(old(self).random, old(self).flag_bit, old(self).mask),
            final(self).flag_bit == old(self).flag_bit,
            final(self).mask == old(self).mask,
    {
        Some(self.next_byte())
    }

    /// Collects the next `n` numbers of the stream.
    pub fn take(self, n: usize) -> (res: Vec<u8>)
        ensures
            res@.len() == n,
            forall|i: int|
                0 <= i < n ==> #[trigger] res@[i] == spec_state(
                    self.random,
                    self.flag_bit,
                    self.mask,
                    i as nat,
                ),
    {
        let mut generator = self;
        let mut res: Vec<u8> = Vec::new();
        let mut i: usize = 0;
        while i < n
            invariant
                i <= n,
                res@.len() == i,
                generator.flag_bit == self.flag_bit,
                generator.mask == self.mask,
                generator.random == spec_state(self.random, self.flag_bit, self.mask, i as nat),
                forall|j: int|
                    0 <= j < i ==> #[trigger] res@[j] == spec_state(
                        self.random,
                        self.flag_bit,
                        self.mask,
                        j as nat,
                    ),
            decreases n - i,
        {
            let m = generator.next_byte();
            res.push(m);
            i = i + 1;
        }
        res
    }
}

impl Default for MaskGenerator {
    fn default() -> (res: Self)
        ensures
            res == (MaskGenerator {
                random: MaskGenerator::DEFAULT_SEED,
                flag_bit: MaskGenerator::DEFAULT_FLAG_BIT,
                mask: MaskGenerator::DEFAULT_MASK,
            }),
    {
        Self::new(Self::DEFAULT_SEED, Self::DEFAULT_FLAG_BIT, Self::DEFAULT_MASK)
    }
}

} // verus!
