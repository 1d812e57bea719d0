//! Byte stuffing: reserved bytes are escaped so that they never appear inside a frame.
use crate::buffers::{
    frame_buffer_as_slice, frame_buffer_insert, frame_buffer_remove, frame_buffer_set,
    frame_bytes, FrameBuffer, FRAME_BUFFER_SIZE,
};
use crate::error::FrameError;
use crate::protocol::control_byte::{CANCEL, ESCAPE, FLAG, SUBSTITUTE, X_OFF, X_ON};
use vstd::prelude::*;

verus! {

/// The bit that is flipped in an escaped byte.
pub const COMPLEMENT_BIT: u8 = 0x20;

/// Whether a byte must be escaped inside a frame.
pub open spec fn is_reserved(byte: u8) -> bool {
    byte == FLAG || byte == ESCAPE || byte == X_ON || byte == X_OFF || byte == SUBSTITUTE || byte
        == CANCEL
}

/// The stuffed form of one byte.
pub open spec fn stuff_byte(byte: u8) -> Seq<u8> {
    if is_reserved(byte) {
        seq![ESCAPE, byte ^ COMPLEMENT_BIT]
    } else {
        seq![byte]
    }
}

/// The stuffed form of a byte sequence.
pub open spec fn spec_stuff(bytes: Seq<u8>) -> Seq<u8>
    decreases bytes.len(),
{
    if bytes.len() == 0 {
        Seq::empty()
    } else {
        stuff_byte(bytes[0]) + spec_stuff(bytes.drop_first())
    }
}

/// The byte that follows an escape byte, after unescaping.
pub open spec fn unescape(byte: u8) -> u8 {
    if is_reserved(byte) {
        byte
    } else {
        byte ^ COMPLEMENT_BIT
    }
}

/// The unstuffed form of a byte sequence; a trailing lone escape byte is kept.
pub open spec fn spec_unstuff(bytes: Seq<u8>) -> Seq<u8>
    decreases bytes.len(),
{
    if bytes.len() == 0 {
        Seq::empty()
    } else if bytes[0] == ESCAPE {
        if bytes.len() == 1 {
            seq![ESCAPE]
        } else {
            seq![unescape(bytes[1])] + spec_unstuff(bytes.subrange(2, bytes.len() as int))
        }
    } else {
        seq![bytes[0]] + spec_unstuff(bytes.drop_first())
    }
}

/// Stuffing distributes over concatenation.
pub proof fn lemma_stuff_append(a: Seq<u8>, b: Seq<u8>)
    ensures
        spec_stuff(a + b) == spec_stuff(a) + spec_stuff(b),
    decreases a.len(),
{
    if a.len() == 0 {
        assert(a + b =~= b);
        assert(spec_stuff(a) + spec_stuff(b) =~= spec_stuff(b));
    } else {
        lemma_stuff_append(a.drop_first(), b);
        assert((a + b).drop_first() =~= a.drop_first() + b);
        assert((a + b)[0] == a[0]);
        assert(spec_stuff(a + b) =~= stuff_byte(a[0]) + spec_stuff(a.drop_first() + b));
        assert(spec_stuff(a) + spec_stuff(b) =~= stuff_byte(a[0]) + (spec_stuff(a.drop_first())
            + spec_stuff(b)));
    }
}

/// A stuffed sequence is at least as long as the original, one byte longer for each
/// reserved byte.
pub proof fn lemma_stuff_len(bytes: Seq<u8>)
    ensures
        spec_stuff(bytes).len() >= bytes.len(),
    decreases bytes.len(),
{
    if bytes.len() > 0 {
        lemma_stuff_len(bytes.drop_first());
    }
}

/// Escaping a reserved byte gives a byte that is not reserved, and unescaping it gives
/// the byte back.
pub proof fn lemma_escape(byte: u8)
    requires
        is_reserved(byte),
    ensures
        !is_reserved(byte ^ COMPLEMENT_BIT),
        unescape(byte ^ COMPLEMENT_BIT) == byte,
        byte ^ COMPLEMENT_BIT != ESCAPE,
{
    assert(byte == 0x7Eu8 ==> byte ^ 0x20u8 == 0x5Eu8) by (bit_vector);
    assert(byte == 0x7Du8 ==> byte ^ 0x20u8 == 0x5Du8) by (bit_vector);
    assert(byte == 0x11u8 ==> byte ^ 0x20u8 == 0x31u8) by (bit_vector);
    assert(byte == 0x13u8 ==> byte ^ 0x20u8 == 0x33u8) by (bit_vector);
    assert(byte == 0x18u8 ==> byte ^ 0x20u8 == 0x38u8) by (bit_vector);
    assert(byte == 0x1Au8 ==> byte ^ 0x20u8 == 0x3Au8) by (bit_vector);
    assert(0x5Eu8 ^ 0x20u8 == 0x7Eu8) by (bit_vector);
    assert(0x5Du8 ^ 0x20u8 == 0x7Du8) by (bit_vector);
    assert(0x31u8 ^ 0x20u8 == 0x11u8) by (bit_vector);
    assert(0x33u8 ^ 0x20u8 == 0x13u8) by (bit_vector);
    assert(0x38u8 ^ 0x20u8 == 0x18u8) by (bit_vector);
    assert(0x3Au8 ^ 0x20u8 == 0x1Au8) by (bit_vector);
}

/// Unstuffing undoes stuffing.
pub proof fn lemma_unstuff_stuff(bytes: Seq<u8>)
    ensures
        spec_unstuff(spec_stuff(bytes)) == bytes,
    decreases bytes.len(),
{
    if bytes.len() == 0 {
        assert(spec_stuff(bytes) =~= Seq::<u8>::empty());
    } else {
        let b = bytes[0];
        let rest = bytes.drop_first();
        lemma_unstuff_stuff(rest);
        let s = spec_stuff(bytes);
        assert(s == stuff_byte(b) + spec_stuff(rest));
        if is_reserved(b) {
            lemma_escape(b);
            assert(s[0] == ESCAPE);
            assert(s[1] == b ^ COMPLEMENT_BIT);
            assert(s.subrange(2, s.len() as int) =~= spec_stuff(rest));
            assert(spec_unstuff(s) =~= seq![b] + rest);
        } else {
            assert(s[0] == b);
            assert(s.drop_first() =~= spec_stuff(rest));
            assert(spec_unstuff(s) =~= seq![b] + rest);
        }
        assert(seq![b] + rest =~= bytes);
    }
}

/// No byte of a stuffed sequence is a reserved byte other than the escape byte, and
/// an escape byte is never the last byte.
pub proof fn lemma_stuffed_bytes(bytes: Seq<u8>)
    ensures
        forall|i: int|
            0 <= i < spec_stuff(bytes).len() ==> (#[trigger] spec_stuff(bytes)[i] == ESCAPE || !is_reserved(spec_stuff(bytes)[i])),
        forall|i: int|
            0 <= i < spec_stuff(bytes).len() && #[trigger] spec_stuff(bytes)[i] == ESCAPE ==> i + 1 < spec_stuff(bytes).len(),
    decreases bytes.len(),
{
    if bytes.len() > 0 {
        let b = bytes[0];
        let rest = bytes.drop_first();
        lemma_stuffed_bytes(rest);
        let s = spec_stuff(bytes);
        let t = spec_stuff(rest);
        assert(s == stuff_byte(b) + t);
        if is_reserved(b) {
            lemma_escape(b);
            assert forall|i: int| 0 <= i < s.len() implies (#[trigger] s[i] == ESCAPE || !is_reserved(s[i])) by {
                if i >= 2 {
                    assert(s[i] == t[i - 2]);
                }
            }
            assert forall|i: int| 0 <= i < s.len() && #[trigger] s[i] == ESCAPE implies i + 1 < s.len() by {
                if i >= 2 {
                    assert(s[i] == t[i - 2]);
                }
            }
        } else {
            assert forall|i: int| 0 <= i < s.len() implies (#[trigger] s[i] == ESCAPE || !is_reserved(s[i])) by {
                if i >= 1 {
                    assert(s[i] == t[i - 1]);
                }
            }
            assert forall|i: int| 0 <= i < s.len() && #[trigger] s[i] == ESCAPE implies i + 1 < s.len() by {
                if i >= 1 {
                    assert(s[i] == t[i - 1]);
                }
            }
        }
    }
}

/// The length of a sequence whose first `k` bytes are stuffed and whose other bytes are
/// not.
pub open spec fn spec_partly_stuffed_len(bytes: Seq<u8>, k: int) -> int {
    spec_stuff(bytes.take(k)).len() + bytes.len() - k
}

/// Unstuffing leaves bytes that hold no escape byte unchanged.
pub proof fn lemma_unstuff_unchanged(bytes: Seq<u8>)
    requires
        forall|i: int| 0 <= i < bytes.len() ==> #[trigger] bytes[i] != ESCAPE,
    ensures
        spec_unstuff(bytes) == bytes,
    decreases bytes.len(),
{
    if bytes.len() > 0 {
        let rest = bytes.drop_first();
        assert forall|i: int| 0 <= i < rest.len() implies #[trigger] rest[i] != ESCAPE by {
            assert(rest[i] == bytes[i + 1]);
        }
        lemma_unstuff_unchanged(rest);
        assert(seq![bytes[0]] + rest =~= bytes);
    }
}

/// Trait to allow stuffing of bytes.
pub trait Stuffing {
    /// Stuffs bytes.
    fn stuff(&mut self) -> Result<(), FrameError>;

    /// Unstuffs bytes.
    fn unstuff(&mut self);
}

proof fn lemma_stuff_step(orig: Seq<u8>, k: int)
    requires
        0 <= k < orig.len(),
    ensures
        spec_stuff(orig.take(k + 1)) == spec_stuff(orig.take(k)) + stuff_byte(orig[k]),
{
    assert(orig.take(k + 1) =~= orig.take(k) + seq![orig[k]]);
    lemma_stuff_append(orig.take(k), seq![orig[k]]);
    assert(seq![orig[k]].drop_first() =~= Seq::<u8>::empty());
    assert(spec_stuff(Seq::<u8>::empty()) =~= Seq::<u8>::empty());
    assert(spec_stuff(seq![orig[k]]) =~= stuff_byte(orig[k]));
}

proof fn lemma_stuff_bound(orig: Seq<u8>, k: int)
    requires
        0 <= k <= orig.len(),
    ensures
        spec_stuff(orig).len() >= spec_stuff(orig.take(k)).len() + (orig.len() - k),
{
    assert(orig =~= orig.take(k) + orig.skip(k));
    lemma_stuff_append(orig.take(k), orig.skip(k));
    lemma_stuff_len(orig.skip(k));
}

impl Stuffing for FrameBuffer {
    /// Escapes every reserved byte in place. Fails at the first reserved byte whose escape
    /// does not fit, because the bytes stuffed so far and the rest fill the buffer; the
    /// bytes before it are then stuffed and that byte complemented, and the buffer is full.
    fn stuff(&mut self) -> (res: Result<(), FrameError>)
        ensures
            res is Ok <==> spec_stuff(frame_bytes(*old(self))).len() <= FRAME_BUFFER_SIZE,
            res is Ok ==> frame_bytes(*final(self)) == spec_stuff(frame_bytes(*old(self))),
            res is Err ==> res == Err::<(), FrameError>(FrameError::BufferOverflow),
            res is Err ==> exists|k: int|
                {
                    &&& 0 <= k < frame_bytes(*old(self)).len()
                    &&& is_reserved(frame_bytes(*old(self))[k])
                    &&& spec_partly_stuffed_len(frame_bytes(*old(self)), k) == FRAME_BUFFER_SIZE
                    &&& forall|j: int|
                        0 <= j < k && is_reserved(#[trigger] frame_bytes(*old(self))[j])
                            ==> spec_partly_stuffed_len(frame_bytes(*old(self)), j)
                            < FRAME_BUFFER_SIZE
                    &&& frame_bytes(*final(self)) == spec_stuff(frame_bytes(*old(self)).take(k))
                        + seq![frame_bytes(*old(self))[k] ^ COMPLEMENT_BIT] + frame_bytes(
                        *old(self),
                    ).skip(k + 1)
                },
    {
        let ghost orig = frame_bytes(*self);
        let mut index: usize = 0;
        let ghost mut k: int = 0;
        assert(orig.take(0) =~= Seq::<u8>::empty());
        assert(orig.skip(0) =~= orig);
        let _ = frame_buffer_as_slice(self);
        proof {
            lemma_stuff_len(orig);
            assert(spec_stuff(Seq::<u8>::empty()) =~= Seq::<u8>::empty());
            assert(frame_bytes(*self) =~= spec_stuff(orig.take(0)) + orig.skip(0));
        }
        while index < frame_buffer_as_slice(self).len()
            invariant
                orig == frame_bytes(*old(self)),
                0 <= k <= orig.len(),
                index == spec_stuff(orig.take(k)).len(),
                frame_bytes(*self) == spec_stuff(orig.take(k)) + orig.skip(k),
                frame_bytes(*self).len() <= FRAME_BUFFER_SIZE,
                spec_stuff(orig).len() >= frame_bytes(*self).len(),
                forall|j: int|
                    0 <= j < k && is_reserved(#[trigger] orig[j]) ==> spec_partly_stuffed_len(
                        orig,
                        j,
                    ) < FRAME_BUFFER_SIZE,
            decreases orig.len() - k,
        {
            let ghost before = frame_bytes(*self);
            assert(k < orig.len());
            let byte = frame_buffer_as_slice(self)[index];
            assert(byte == orig[k]);
            proof {
                lemma_stuff_step(orig, k);
                assert(orig.skip(k) =~= seq![orig[k]] + orig.skip(k + 1));
            }
            if byte == FLAG || byte == ESCAPE || byte == X_ON || byte == X_OFF || byte == SUBSTITUTE
                || byte == CANCEL {
                frame_buffer_set(self, index, byte ^ COMPLEMENT_BIT);
                let ghost complemented = frame_bytes(*self);
                assert(complemented =~= spec_stuff(orig.take(k)) + seq![byte ^ COMPLEMENT_BIT]
                    + orig.skip(k + 1));
                if frame_buffer_insert(self, index, ESCAPE).is_err() {
                    proof {
                        lemma_stuff_bound(orig, k + 1);
                        assert(complemented.len() == FRAME_BUFFER_SIZE);
                        assert(spec_stuff(orig).len() > FRAME_BUFFER_SIZE);
                        assert(spec_partly_stuffed_len(orig, k) == FRAME_BUFFER_SIZE);
                        assert(0 <= k < orig.len() && is_reserved(orig[k]) && frame_bytes(*self)
                            == spec_stuff(orig.take(k)) + seq![orig[k] ^ COMPLEMENT_BIT]
                            + orig.skip(k + 1));
                    }
                    return Err(FrameError::BufferOverflow);
                }
                assert(spec_partly_stuffed_len(orig, k) < FRAME_BUFFER_SIZE);
                assert(frame_bytes(*self) =~= spec_stuff(orig.take(k + 1)) + orig.skip(k + 1));
                index = index + 2;
            } else {
                assert(frame_bytes(*self) =~= spec_stuff(orig.take(k + 1)) + orig.skip(k + 1));
                index = index + 1;
            }
            proof {
                k = k + 1;
                lemma_stuff_bound(orig, k);
            }
        }
        assert(k == orig.len()) by {
            if k < orig.len() {
                assert(frame_bytes(*self).len() > index);
            }
        }
        assert(orig.take(k) =~= orig);
        assert(frame_bytes(*self) =~= spec_stuff(orig));
        Ok(())
    }

    /// Removes every escape byte that is followed by another byte, unescaping that byte.
    fn unstuff(&mut self)
        ensures
            frame_bytes(*final(self)) == spec_unstuff(frame_bytes(*old(self))),
    {
        let ghost orig = frame_bytes(*self);
        let mut index: usize = 0;
        assert(frame_bytes(*self).take(0) + frame_bytes(*self).skip(0) =~= orig);
        while index < frame_buffer_as_slice(self).len()
            invariant
                index <= frame_bytes(*self).len(),
                spec_unstuff(orig) == frame_bytes(*self).take(index as int) + spec_unstuff(
                    frame_bytes(*self).skip(index as int),
                ),
            decreases frame_bytes(*self).len() - index,
        {
            let ghost u = frame_bytes(*self);
            let len = frame_buffer_as_slice(self).len();
            let byte = frame_buffer_as_slice(self)[index];
            let ghost rest = u.skip(index as int);
            assert(rest[0] == byte);
            if byte == ESCAPE {
                if index + 1 >= len {
                    assert(rest =~= seq![ESCAPE]);
                    assert(u.take(index as int) + seq![ESCAPE] =~= u);
                    assert(spec_unstuff(orig) == u);
                    index = len;
                    assert(frame_bytes(*self).skip(index as int) =~= Seq::<u8>::empty());
                    assert(frame_bytes(*self).take(index as int) =~= u);
                    assert(spec_unstuff(Seq::<u8>::empty()) =~= Seq::<u8>::empty());
                } else {
                let follow = frame_buffer_as_slice(self)[index + 1];
                assert(rest[1] == follow);
                if !(follow == FLAG || follow == ESCAPE || follow == X_ON || follow == X_OFF
                    || follow == SUBSTITUTE || follow == CANCEL) {
                    frame_buffer_set(self, index + 1, follow ^ COMPLEMENT_BIT);
                }
                frame_buffer_remove(self, index);
                let ghost v = frame_bytes(*self);
                assert(v =~= u.take(index as int) + seq![unescape(follow)] + rest.subrange(
                    2,
                    rest.len() as int,
                ));
                assert(v.take(index + 1) =~= u.take(index as int) + seq![unescape(follow)]);
                assert(v.skip(index + 1) =~= rest.subrange(2, rest.len() as int));
                index = index + 1;
                }
            } else {
                assert(u.take(index + 1) =~= u.take(index as int) + seq![byte]);
                assert(u.skip(index + 1) =~= rest.drop_first());
                index = index + 1;
            }
        }
        assert(frame_bytes(*self).take(index as int) =~= frame_bytes(*self));
        assert(frame_bytes(*self).skip(index as int) =~= Seq::<u8>::empty());
        assert(spec_unstuff(Seq::<u8>::empty()) =~= Seq::<u8>::empty());
    }
}

/// Stuffs a byte slice into a new vector.
pub fn stuffed(bytes: &[u8]) -> (res: Vec<u8>)
    ensures
        res@ == spec_stuff(bytes@),
{
    let mut res: Vec<u8> = Vec::new();
    let mut i: usize = 0;
    assert(bytes@.take(0) =~= Seq::<u8>::empty());
    while i < bytes.len()
        invariant
            i <= bytes@.len(),
            res@ == spec_stuff(bytes@.take(i as int)),
        decreases bytes@.len() - i,
    {
        let byte = bytes[i];
        proof {
            assert(bytes@.take(i + 1) =~= bytes@.take(i as int) + seq![byte]);
            lemma_stuff_append(bytes@.take(i as int), seq![byte]);
            assert(seq![byte].drop_first() =~= Seq::<u8>::empty());
            assert(spec_stuff(Seq::<u8>::empty()) =~= Seq::<u8>::empty());
            assert(spec_stuff(seq![byte]) =~= stuff_byte(byte) + spec_stuff(Seq::<u8>::empty()));
            assert(spec_stuff(seq![byte]) =~= stuff_byte(byte));
        }
        if byte == FLAG || byte == ESCAPE || byte == X_ON || byte == X_OFF || byte == SUBSTITUTE
            || byte == CANCEL {
            res.push(ESCAPE);
            res.push(byte ^ COMPLEMENT_BIT);
        } else {
            res.push(byte);
        }
        assert(res@ =~= spec_stuff(bytes@.take(i + 1)));
        i = i + 1;
    }
    assert(bytes@.take(i as int) =~= bytes@);
    res
}

} // verus!
