//! The DATA frames the host has received, and the bytes of the frame being read.
use crate::packet::{append_bytes, Data, DataView};
use crate::protocol::output::{data_views, frame_number, frame_of};
use crate::protocol::randomization::{masked, spec_masked};
use crate::protocol::stuffing::spec_unstuff;
use crate::protocol::control_byte::ESCAPE;
use crate::protocol::stuffing::{is_reserved, unescape, COMPLEMENT_BIT};
use itertools::Itertools;
use vstd::prelude::*;

verus! {

/// Whether the `i`-th of the received frames starts a new frame number, i.e. is not a
/// repetition of the frame before it.
pub open spec fn spec_is_new(frames: Seq<DataView>, i: int) -> bool {
    i == 0 || frame_of(frames[i]) != frame_of(frames[i - 1])
}

/// The positions of the frames that are not repetitions of the frame before them.
pub open spec fn spec_new_indices(frames: Seq<DataView>) -> Seq<usize>
    decreases frames.len(),
{
    if frames.len() == 0 {
        Seq::empty()
    } else if spec_is_new(frames, frames.len() - 1) {
        spec_new_indices(frames.drop_last()).push((frames.len() - 1) as usize)
    } else {
        spec_new_indices(frames.drop_last())
    }
}

/// The payload received: the unmasked payloads of the frames, a frame repeated right
/// after itself (a retransmission) counted once.
pub open spec fn spec_received_bytes(frames: Seq<DataView>) -> Seq<u8>
    decreases frames.len(),
{
    if frames.len() == 0 {
        Seq::empty()
    } else {
        spec_received_bytes(frames.drop_last()) + if spec_is_new(frames, frames.len() - 1) {
            spec_masked(frames.last().payload)
        } else {
            Seq::empty()
        }
    }
}

/// Whether two DATA frames carry the same frame number.
pub fn same_frame_number(a: &Data, b: &Data) -> (res: bool)
    ensures
        res == (frame_of(a@) == frame_of(b@)),
{
    frame_number(a) == frame_number(b)
}

/// `Itertools::dedup_by` on the received frames, comparing frame numbers, with the
/// positions of the frames it keeps collected: a frame is kept unless it has the frame
/// number of the frame before it.
#[verifier::external_body]
fn new_frame_indices(frames: &Vec<Data>) -> (res: Vec<usize>)
    ensures
        res@ == spec_new_indices(data_views(frames@)),
{
    frames.iter().enumerate().dedup_by(|(_, lhs), (_, rhs)| same_frame_number(lhs, rhs)).map(
        |(index, _)| index,
    ).collect()
}

/// The plain contents of the input buffers.
pub struct InputView {
    pub data: Seq<DataView>,
    pub buffer: Seq<u8>,
}

/// The received DATA frames and the raw bytes of the frame being read.
#[derive(Debug)]
pub struct Input {
    data: Vec<Data>,
    buffer: Vec<u8>,
}

impl View for Input {
    type V = InputView;

    closed spec fn view(&self) -> InputView {
        InputView { data: data_views(self.data@), buffer: self.buffer@ }
    }
}

proof fn lemma_new_indices(frames: Seq<DataView>)
    requires
        frames.len() <= usize::MAX,
    ensures
        forall|j: int|
            0 <= j < spec_new_indices(frames).len() ==> 0 <= #[trigger] spec_new_indices(
                frames,
            )[j] < frames.len(),
        forall|j: int, k: int|
            0 <= j < k < spec_new_indices(frames).len() ==> spec_new_indices(frames)[j]
                < spec_new_indices(frames)[k],
    decreases frames.len(),
{
    if frames.len() > 0 {
        let prefix = frames.drop_last();
        lemma_new_indices(prefix);
        let idx = spec_new_indices(prefix);
        let all = spec_new_indices(frames);
        if spec_is_new(frames, frames.len() - 1) {
            assert(all == idx.push((frames.len() - 1) as usize));
            assert forall|j: int| 0 <= j < all.len() implies 0 <= #[trigger] all[j] < frames.len() by {
                if j < idx.len() {
                    assert(all[j] == idx[j]);
                }
            }
            assert forall|j: int, k: int| 0 <= j < k < all.len() implies all[j] < all[k] by {
                assert(all[j] == idx[j]);
                if k < idx.len() {
                    assert(all[k] == idx[k]);
                }
            }
        }
    }
}

/// The received bytes of the first `n` frames, given the kept positions among them.
proof fn lemma_received_prefix(frames: Seq<DataView>, n: int)
    requires
        0 <= n <= frames.len(),
        frames.len() <= usize::MAX,
    ensures
        spec_received_bytes(frames.take(n)) == spec_flatten_payloads(
            frames,
            spec_new_indices(frames.take(n)),
        ),
    decreases n,
{
    if n > 0 {
        lemma_received_prefix(frames, n - 1);
        let t = frames.take(n);
        assert(t.drop_last() =~= frames.take(n - 1));
        let idx = spec_new_indices(frames.take(n - 1));
        if spec_is_new(t, n - 1) {
            let idx2 = idx.push((n - 1) as usize);
            assert(spec_new_indices(t) == idx2);
            assert(idx2.drop_last() =~= idx);
            assert(idx2.last() == n - 1);
            assert(t.last() == frames[n - 1]);
            assert(spec_flatten_payloads(frames, idx2) == spec_flatten_payloads(frames, idx)
                + spec_masked(frames[n - 1].payload));
        } else {
            assert(spec_received_bytes(t) =~= spec_received_bytes(frames.take(n - 1)));
        }
    } else {
        assert(frames.take(0) =~= Seq::<DataView>::empty());
    }
}

/// The concatenation of the unmasked payloads of the frames at the given positions.
pub open spec fn spec_flatten_payloads(frames: Seq<DataView>, indices: Seq<usize>) -> Seq<u8>
    decreases indices.len(),
{
    if indices.len() == 0 {
        Seq::empty()
    } else {
        spec_flatten_payloads(frames, indices.drop_last()) + spec_masked(
            frames[indices.last() as int].payload,
        )
    }
}

impl Input {
    /// Creates empty buffers.
    pub fn new() -> (res: Self)
        ensures
            res@.data.len() == 0,
            res@.buffer.len() == 0,
    {
        let res = Self { data: Vec::new(), buffer: Vec::new() };
        assert(data_views(res.data@) =~= Seq::<DataView>::empty());
        res
    }

    /// The raw bytes of the frame being read.
    pub fn buffer(&self) -> (res: &[u8])
        ensures
            res@ == self@.buffer,
    {
        self.buffer.as_slice()
    }

    /// Appends a raw byte to the frame being read.
    pub fn push_byte(&mut self, byte: u8)
        ensures
            final(self)@.buffer == old(self)@.buffer.push(byte),
            final(self)@.data == old(self)@.data,
    {
        self.buffer.push(byte);
    }

    /// The payload received so far: the unmasked payloads of the received frames, each
    /// retransmission that repeats the frame before it counted once.
    pub fn bytes(&self) -> (res: Vec<u8>)
        ensures
            res@ == spec_received_bytes(self@.data),
    {
        let ghost frames = self@.data;
        let _ = self.data.len();
        let indices = new_frame_indices(&self.data);
        proof {
            lemma_new_indices(frames);
        }
        let mut res: Vec<u8> = Vec::new();
        let mut j: usize = 0;
        while j < indices.len()
            invariant
                frames == data_views(self.data@),
                indices@ == spec_new_indices(frames),
                j <= indices@.len(),
                res@ == spec_flatten_payloads(frames, indices@.take(j as int)),
                forall|m: int| 0 <= m < indices@.len() ==> 0 <= #[trigger] indices@[m] < frames.len(),
            decreases indices@.len() - j,
        {
            let index = indices[j];
            let unmasked = self.data[index].unmasked_payload();
            append_bytes(&mut res, unmasked.as_slice());
            proof {
                assert(indices@.take(j + 1).drop_last() =~= indices@.take(j as int));
                assert(frames[index as int] == self.data@[index as int]@);
            }
            j = j + 1;
        }
        proof {
            assert(indices@.take(j as int) =~= indices@);
            lemma_received_prefix(frames, frames.len() as int);
            assert(frames.take(frames.len() as int) =~= frames);
        }
        res
    }

    /// Empties all buffers.
    pub fn clear(&mut self)
        ensures
            final(self)@.data.len() == 0,
            final(self)@.buffer.len() == 0,
    {
        self.data.clear();
        self.buffer.clear();
        assert(data_views(self.data@) =~= Seq::<DataView>::empty());
    }

    /// The unstuffed bytes of the frame being read.
    pub fn frame_bytes(&self) -> (res: Vec<u8>)
        ensures
            res@ == spec_unstuff(self@.buffer),
    {
        unstuff_bytes(self.buffer.as_slice())
    }

    /// Discards the raw bytes of the frame being read.
    pub fn clear_buffer(&mut self)
        ensures
            final(self)@.buffer.len() == 0,
            final(self)@.data == old(self)@.data,
    {
        self.buffer.clear();
    }

    /// Records a received frame.
    pub fn push_data(&mut self, data: Data)
        ensures
            final(self)@.data == old(self)@.data.push(data@),
            final(self)@.buffer == old(self)@.buffer,
    {
        self.data.push(data);
        assert(data_views(self.data@) =~= old(self)@.data.push(data@));
    }
}

/// Unstuffs a byte slice into a new vector.
pub fn unstuff_bytes(bytes: &[u8]) -> (res: Vec<u8>)
    ensures
        res@ == spec_unstuff(bytes@),
{
    let mut res: Vec<u8> = Vec::new();
    let mut i: usize = 0;
    assert(bytes@.skip(0) =~= bytes@);
    while i < bytes.len()
        invariant
            i <= bytes@.len(),
            spec_unstuff(bytes@) == res@ + spec_unstuff(bytes@.skip(i as int)),
        decreases bytes@.len() - i,
    {
        let ghost rest = bytes@.skip(i as int);
        let byte = bytes[i];
        assert(rest[0] == byte);
        if byte == ESCAPE && i + 1 < bytes.len() {
            let follow = bytes[i + 1];
            assert(rest[1] == follow);
            let unescaped = if follow == 0x7E || follow == 0x7D || follow == 0x11 || follow == 0x13
                || follow == 0x18 || follow == 0x1A {
                follow
            } else {
                follow ^ COMPLEMENT_BIT
            };
            assert(unescaped == unescape(follow));
            res.push(unescaped);
            assert(rest.subrange(2, rest.len() as int) =~= bytes@.skip(i + 2));
            i = i + 2;
        } else {
            res.push(byte);
            if byte == ESCAPE {
                assert(rest =~= seq![ESCAPE]);
                assert(bytes@.skip(i + 1) =~= Seq::<u8>::empty());
                assert(spec_unstuff(Seq::<u8>::empty()) =~= Seq::<u8>::empty());
            } else {
                assert(rest.drop_first() =~= bytes@.skip(i + 1));
            }
            i = i + 1;
        }
    }
    assert(bytes@.skip(i as int) =~= Seq::<u8>::empty());
    assert(spec_unstuff(Seq::<u8>::empty()) =~= Seq::<u8>::empty());
    assert(res@ + Seq::<u8>::empty() =~= res@);
    res
}

impl Default for Input {
    fn default() -> (res: Self)
        ensures
            res@.data.len() == 0,
            res@.buffer.len() == 0,
    {
        Self::new()
    }
}

} // verus!
