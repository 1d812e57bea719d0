//! Splitting a payload into chunks that fit into DATA frames.
use crate::error::Error;
use crate::packet::Data;
use itertools::Itertools;
use vstd::prelude::*;

verus! {

/// Consecutive pieces of `size` bytes; the last piece is shorter if the bytes run out.
pub open spec fn spec_chunks(bytes: Seq<u8>, size: nat) -> Seq<Seq<u8>>
    decreases bytes.len(),
{
    if bytes.len() == 0 || size == 0 {
        Seq::empty()
    } else if bytes.len() <= size {
        seq![bytes]
    } else {
        seq![bytes.take(size as int)] + spec_chunks(bytes.skip(size as int), size)
    }
}

/// The concatenation of byte sequences.
pub open spec fn spec_flatten(chunks: Seq<Seq<u8>>) -> Seq<u8>
    decreases chunks.len(),
{
    if chunks.len() == 0 {
        Seq::empty()
    } else {
        chunks[0] + spec_flatten(chunks.drop_first())
    }
}

/// `Itertools::chunks` on the bytes, each chunk collected into a vector: consecutive
/// chunks of `size` bytes, the last one shorter if the bytes run out.
#[verifier::external_body]
fn chunks(bytes: &[u8], size: usize) -> (res: Vec<Vec<u8>>)
    requires
        size > 0,
    ensures
        res.deep_view() == spec_chunks(bytes@, size as nat),
{
    bytes.iter().copied().chunks(size).into_iter().map(|chunk| chunk.collect()).collect()
}

/// Searches the chunk sizes from `size` down to the minimal payload size for one that
/// divides the length or leaves a remainder of at least the minimal payload size.
pub open spec fn spec_search(len: nat, size: nat) -> Option<nat>
    decreases size,
{
    if size < Data::MIN_PAYLOAD_SIZE {
        None
    } else if len % size == 0 || len % size >= Data::MIN_PAYLOAD_SIZE {
        Some(size)
    } else {
        spec_search(len, (size - 1) as nat)
    }
}

/// The chunk size for a payload of `len` bytes, if there is a viable one.
pub open spec fn spec_chunk_size(len: nat) -> Option<nat> {
    if len < Data::MIN_PAYLOAD_SIZE {
        None
    } else if len <= Data::MAX_PAYLOAD_SIZE || len % (Data::MAX_PAYLOAD_SIZE as nat) == 0 {
        Some(Data::MAX_PAYLOAD_SIZE as nat)
    } else {
        spec_search(len, Data::MAX_PAYLOAD_SIZE as nat)
    }
}

/// Returns chunks that fit into DATA frames.
///
/// Fails with `Error::CannotFindViableChunkSize` if the bytes cannot be distributed
/// across chunks of valid sizes.
pub fn ash_chunks(bytes: &[u8]) -> (res: Result<Vec<Vec<u8>>, Error>)
    ensures
        match spec_chunk_size(bytes@.len()) {
            Some(size) => res matches Ok(chunks) && chunks.deep_view() == spec_chunks(
                bytes@,
                size,
            ),
            None => res == Err::<Vec<Vec<u8>>, Error>(
                Error::CannotFindViableChunkSize(bytes@.len() as usize),
            ),
        },
        res is Err <==> (bytes@.len() < Data::MIN_PAYLOAD_SIZE || forall|s: nat|
            Data::MIN_PAYLOAD_SIZE <= s <= Data::MAX_PAYLOAD_SIZE ==> !#[trigger] spec_viable(
                bytes@.len(),
                s,
            )),
        res matches Ok(chunks) ==> exists|size: nat|
            {
                &&& Data::MIN_PAYLOAD_SIZE <= size <= Data::MAX_PAYLOAD_SIZE
                &&& spec_viable(bytes@.len(), size)
                &&& (forall|s: nat|
                    size < s <= Data::MAX_PAYLOAD_SIZE ==> !#[trigger] spec_viable(bytes@.len(), s))
                &&& chunks.deep_view() == spec_chunks(bytes@, size)
            },
{
    proof {
        lemma_chunk_size_largest(bytes@.len());
    }
    let len = bytes.len();
    if len < Data::MIN_PAYLOAD_SIZE {
        return Err(Error::CannotFindViableChunkSize(len));
    }
    if len <= Data::MAX_PAYLOAD_SIZE || len % Data::MAX_PAYLOAD_SIZE == 0 {
        return Ok(chunks(bytes, Data::MAX_PAYLOAD_SIZE));
    }
    let mut frame_size: usize = Data::MAX_PAYLOAD_SIZE;
    while frame_size >= Data::MIN_PAYLOAD_SIZE
        invariant
            len == bytes@.len(),
            len >= Data::MIN_PAYLOAD_SIZE,
            frame_size <= Data::MAX_PAYLOAD_SIZE,
            spec_chunk_size(len as nat) == spec_search(len as nat, frame_size as nat),
        decreases frame_size,
    {
        let remainder = len % frame_size;
        if remainder == 0 || remainder >= Data::MIN_PAYLOAD_SIZE {
            proof {
                lemma_chunk_size_largest(len as nat);
            }
            assert(spec_chunk_size(len as nat) == Some(frame_size as nat));
            return Ok(chunks(bytes, frame_size));
        }
        frame_size = frame_size - 1;
    }
    Err(Error::CannotFindViableChunkSize(len))
}

/// The chunks concatenate to the original bytes.
pub proof fn lemma_chunks_flatten(bytes: Seq<u8>, size: nat)
    requires
        size > 0,
    ensures
        spec_flatten(spec_chunks(bytes, size)) == bytes,
    decreases bytes.len(),
{
    if bytes.len() == 0 {
        assert(spec_chunks(bytes, size) =~= Seq::<Seq<u8>>::empty());
        assert(bytes =~= Seq::<u8>::empty());
    } else if bytes.len() <= size {
        assert(spec_chunks(bytes, size) =~= seq![bytes]);
        assert(seq![bytes].drop_first() =~= Seq::<Seq<u8>>::empty());
        assert(spec_flatten(Seq::<Seq<u8>>::empty()) =~= Seq::<u8>::empty());
        assert(bytes + Seq::<u8>::empty() =~= bytes);
    } else {
        let rest = bytes.skip(size as int);
        lemma_chunks_flatten(rest, size);
        let c = spec_chunks(bytes, size);
        assert(c.drop_first() =~= spec_chunks(rest, size));
        assert(bytes.take(size as int) + rest =~= bytes);
    }
}

/// Every chunk has a size between `min` and `size` when the length is at least `min` and
/// its remainder is zero or at least `min`.
pub proof fn lemma_chunk_lengths(bytes: Seq<u8>, size: nat, min: nat)
    requires
        0 < min <= size,
        bytes.len() >= min,
        bytes.len() % size == 0 || bytes.len() % size >= min,
    ensures
        forall|i: int|
            0 <= i < spec_chunks(bytes, size).len() ==> min <= #[trigger] spec_chunks(
                bytes,
                size,
            )[i].len() <= size,
    decreases bytes.len(),
{
    let n = bytes.len();
    if n <= size {
        assert(spec_chunks(bytes, size) =~= seq![bytes]);
    } else {
        let rest = bytes.skip(size as int);
        assert(rest.len() == n - size);
        assert((n - size) % (size as int) == (n as int) % (size as int)) by {
            vstd::arithmetic::div_mod::lemma_mod_add_multiples_vanish((n - size) as int, size as int);
        }
        if rest.len() < min {
            assert(rest.len() < size);
            vstd::arithmetic::div_mod::lemma_small_mod(rest.len(), size);
            assert(false);
        }
        lemma_chunk_lengths(rest, size, min);
        let c = spec_chunks(bytes, size);
        assert forall|i: int| 0 <= i < c.len() implies min <= #[trigger] c[i].len() <= size by {
            if i > 0 {
                assert(c[i] == spec_chunks(rest, size)[i - 1]);
            }
        }
    }
}

/// The chunk size that `ash_chunks` picks leads to chunks that fit into DATA frames, and
/// the chunks concatenate to the payload.
pub proof fn lemma_ash_chunks(bytes: Seq<u8>)
    ensures
        spec_chunk_size(bytes.len()) matches Some(size) ==> {
            &&& spec_flatten(spec_chunks(bytes, size)) == bytes
            &&& forall|i: int|
                0 <= i < spec_chunks(bytes, size).len() ==> Data::MIN_PAYLOAD_SIZE
                    <= #[trigger] spec_chunks(bytes, size)[i].len() <= Data::MAX_PAYLOAD_SIZE
        },
{
    if let Some(size) = spec_chunk_size(bytes.len()) {
        lemma_search_bounds(bytes.len(), Data::MAX_PAYLOAD_SIZE as nat);
        lemma_chunks_flatten(bytes, size);
        let n = bytes.len();
        if n <= Data::MAX_PAYLOAD_SIZE && n % size != 0 {
            if n == size {
                vstd::arithmetic::div_mod::lemma_mod_self_0(size as int);
            } else {
                vstd::arithmetic::div_mod::lemma_small_mod(n, size);
            }
        }
        lemma_chunk_lengths(bytes, size, Data::MIN_PAYLOAD_SIZE as nat);
    }
}

/// A size found by the search lies between the minimal payload size and the start, and
/// the length's remainder is zero or at least the minimal payload size.
proof fn lemma_search_bounds(len: nat, size: nat)
    ensures
        spec_search(len, size) matches Some(s) ==> Data::MIN_PAYLOAD_SIZE <= s <= size && (len
            % s == 0 || len % s >= Data::MIN_PAYLOAD_SIZE),
    decreases size,
{
    if size >= Data::MIN_PAYLOAD_SIZE && !(len % size == 0 || len % size >= Data::MIN_PAYLOAD_SIZE) {
        lemma_search_bounds(len, (size - 1) as nat);
    }
}

/// Whether chunks of `size` bytes split a payload of `len` bytes into chunks that all
/// fit into DATA frames: the last chunk is full or holds at least the minimal payload.
pub open spec fn spec_viable(len: nat, size: nat) -> bool {
    len % size == 0 || len % size >= Data::MIN_PAYLOAD_SIZE
}

/// The search from `size` down finds the largest viable size not above `size`, and finds
/// nothing only if no size from the minimal payload size up to `size` is viable.
proof fn lemma_search_largest(len: nat, size: nat)
    ensures
        spec_search(len, size) is None ==> forall|s: nat|
            Data::MIN_PAYLOAD_SIZE <= s <= size ==> !#[trigger] spec_viable(len, s),
        spec_search(len, size) matches Some(r) ==> forall|s: nat|
            r < s <= size ==> !#[trigger] spec_viable(len, s),
    decreases size,
{
    if size >= Data::MIN_PAYLOAD_SIZE && !spec_viable(len, size) {
        lemma_search_largest(len, (size - 1) as nat);
        assert forall|s: nat| (Data::MIN_PAYLOAD_SIZE <= s <= size && spec_search(len, size) is None)
            implies !#[trigger] spec_viable(len, s) by {
            if s < size {
                assert(Data::MIN_PAYLOAD_SIZE <= s <= (size - 1) as nat);
            }
        }
        assert forall|s: nat| (spec_search(len, size) matches Some(r) && r < s <= size)
            implies !#[trigger] spec_viable(len, s) by {
            if s < size {
                assert(s <= (size - 1) as nat);
            }
        }
    }
}

/// A payload can be split only if it holds at least the minimal payload and some chunk
/// size between the minimal and the maximal payload size is viable for it; the size chosen
/// is then the largest viable one.
pub proof fn lemma_chunk_size_largest(len: nat)
    ensures
        spec_chunk_size(len) is None <==> (len < Data::MIN_PAYLOAD_SIZE || forall|s: nat|
            Data::MIN_PAYLOAD_SIZE <= s <= Data::MAX_PAYLOAD_SIZE ==> !#[trigger] spec_viable(
                len,
                s,
            )),
        spec_chunk_size(len) matches Some(size) ==> {
            &&& Data::MIN_PAYLOAD_SIZE <= size <= Data::MAX_PAYLOAD_SIZE
            &&& spec_viable(len, size)
            &&& forall|s: nat| size < s <= Data::MAX_PAYLOAD_SIZE ==> !#[trigger] spec_viable(len, s)
        },
{
    let max = Data::MAX_PAYLOAD_SIZE as nat;
    lemma_search_bounds(len, max);
    lemma_search_largest(len, max);
    if len >= Data::MIN_PAYLOAD_SIZE {
        if len < max {
            vstd::arithmetic::div_mod::lemma_small_mod(len, max);
            assert(spec_viable(len, max));
        } else if len == max {
            vstd::arithmetic::div_mod::lemma_mod_self_0(max as int);
            assert(spec_viable(len, max));
        }
        if let Some(size) = spec_chunk_size(len) {
            assert(spec_viable(len, size));
        }
    }
}

} // verus!
