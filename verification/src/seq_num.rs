//! A three-bit sequence number that wraps around.
use vstd::prelude::*;

verus! {

/// Maps an integer onto the three-bit number space.
pub open spec fn wrap3(n: int) -> u8 {
    (n % 8) as u8
}

/// Returns the successor of a three-bit number.
pub fn next_three_bit_number(number: u8) -> (res: u8)
    ensures
        res == wrap3(number + 1),
{
    ((number as u16 + 1) % 8) as u8
}

/// A three bit unsigned integer sequence number.
#[derive(Clone, Copy, Debug, Default, PartialEq, Eq, Structural, Hash, PartialOrd, Ord)]
pub enum SeqNum {
    #[default]
    Zero,
    One,
    Two,
    Three,
    Four,
    Five,
    Six,
    Seven,
}

impl SeqNum {
    /// The number as an integer in `0..8`.
    pub open spec fn value(self) -> u8 {
        match self {
            SeqNum::Zero => 0,
            SeqNum::One => 1,
            SeqNum::Two => 2,
            SeqNum::Three => 3,
            SeqNum::Four => 4,
            SeqNum::Five => 5,
            SeqNum::Six => 6,
            SeqNum::Seven => 7,
        }
    }

    /// The sequence number with the given value, taken modulo 8.
    pub open spec fn from_value(n: u8) -> SeqNum {
        let m = n % 8;
        if m == 0 {
            SeqNum::Zero
        } else if m == 1 {
            SeqNum::One
        } else if m == 2 {
            SeqNum::Two
        } else if m == 3 {
            SeqNum::Three
        } else if m == 4 {
            SeqNum::Four
        } else if m == 5 {
            SeqNum::Five
        } else if m == 6 {
            SeqNum::Six
        } else {
            SeqNum::Seven
        }
    }

    /// Every sequence number is determined by its value.
    pub proof fn lemma_value_roundtrip(self)
        ensures
            self.value() < 8,
            SeqNum::from_value(self.value()) == self,
    {
    }

    /// Returns the next number, wrapping from seven to zero.
    pub fn next(self) -> (res: Self)
        ensures
            res.value() == wrap3(self.value() + 1),
    {
        match self {
            Self::Zero => Self::One,
            Self::One => Self::Two,
            Self::Two => Self::Three,
            Self::Three => Self::Four,
            Self::Four => Self::Five,
            Self::Five => Self::Six,
            Self::Six => Self::Seven,
            Self::Seven => Self::Zero,
        }
    }

    /// Increments the number in place.
    pub fn increment(&mut self)
        ensures
            final(self).value() == wrap3(old(self).value() + 1),
    {
        *self = self.next();
    }

    /// Converts the number into a `u8`.
    pub fn as_u8(self) -> (res: u8)
        ensures
            res == self.value(),
            res < 8,
    {
        match self {
            Self::Zero => 0,
            Self::One => 1,
            Self::Two => 2,
            Self::Three => 3,
            Self::Four => 4,
            Self::Five => 5,
            Self::Six => 6,
            Self::Seven => 7,
        }
    }

    /// Converts the lowest three bits of a byte into a sequence number.
    pub fn from_u8_lossy(n: u8) -> (res: Self)
        ensures
            res.value() == n % 8,
            res == SeqNum::from_value(n),
    {
        let m = n % 8;
        if m == 0 {
            Self::Zero
        } else if m == 1 {
            Self::One
        } else if m == 2 {
            Self::Two
        } else if m == 3 {
            Self::Three
        } else if m == 4 {
            Self::Four
        } else if m == 5 {
            Self::Five
        } else if m == 6 {
            Self::Six
        } else {
            Self::Seven
        }
    }
}

impl TryFrom<u8> for SeqNum {
    type Error = u8;

    /// Succeeds exactly for values below eight; hands the value back otherwise.
    fn try_from(value: u8) -> (res: Result<Self, Self::Error>) {
        if value < 8 {
            Ok(Self::from_u8_lossy(value))
        } else {
            Err(value)
        }
    }
}

impl vstd::std_specs::convert::TryFromSpecImpl<u8> for SeqNum {
    open spec fn obeys_try_from_spec() -> bool {
        true
    }

    open spec fn try_from_spec(value: u8) -> Result<Self, Self::Error> {
        if value < 8 {
            Ok(SeqNum::from_value(value))
        } else {
            Err(value)
        }
    }
}

/// The number reached from `n` after `k` steps of three-bit counting.
pub open spec fn spec_advance(n: u8, k: nat) -> u8
    decreases k,
{
    if k == 0 {
        n
    } else {
        wrap3(spec_advance(n, (k - 1) as nat) + 1)
    }
}

/// Counting with three bits wraps around: `k` steps from a sequence number reach
/// `(n + k) % 8`, so eight steps come back to where they started.
pub proof fn lemma_advance(n: u8, k: nat)
    requires
        n < 8,
    ensures
        spec_advance(n, k) == (n + k) % 8,
        k == 8 ==> spec_advance(n, k) == n,
    decreases k,
{
    if k > 0 {
        lemma_advance(n, (k - 1) as nat);
        assert(((n + (k - 1)) % 8 + 1) % 8 == (n + k) % 8) by (nonlinear_arith);
    }
}

/// Converting a number below eight and reading it back gives the number; for any byte,
/// the sequence number of its value modulo eight has that value.
pub proof fn lemma_from_value(n: u8)
    ensures
        SeqNum::from_value(n).value() == n % 8,
        n < 8 ==> SeqNum::from_value(n).value() == n,
{
}

} // verus!
