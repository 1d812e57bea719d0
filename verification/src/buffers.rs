//! Fixed-capacity byte buffers of the `heapless` crate, as used for frame
//! payloads and for raw frames on the wire.
use crate::packet::{Data, DataView};
use crate::protocol::transmitter::MAX_TIMEOUTS;
use vstd::prelude::*;

verus! {

#[verifier::external_type_specification]
#[verifier::external_body]
#[verifier::reject_recursive_types(T)]
pub struct ExHeaplessVec<T, const N: usize>(heapless::Vec<T, N>);

#[verifier::external_type_specification]
#[verifier::external_body]
#[verifier::reject_recursive_types(T)]
pub struct ExHeaplessDeque<T, const N: usize>(heapless::Deque<T, N>);

/// `Clone` of `heapless::Vec`: the copy's contents are not stated here.
pub assume_specification<T: Clone, const N: usize>[<heapless::Vec<T, N> as Clone>::clone](
    v: &heapless::Vec<T, N>,
) -> heapless::Vec<T, N>;

/// The largest payload of a DATA frame.
pub const MAX_PAYLOAD_SIZE: usize = 128;

/// The capacity of a raw frame buffer: a DATA frame of maximal size in which
/// every byte is escaped, followed by the flag byte.
pub const FRAME_BUFFER_SIZE: usize = 264;

/// A data frame payload.
pub type Payload = heapless::Vec<u8, MAX_PAYLOAD_SIZE>;

/// A buffer for the bytes of one frame.
pub type FrameBuffer = heapless::Vec<u8, FRAME_BUFFER_SIZE>;

/// The bytes held by a payload buffer.
pub uninterp spec fn payload_bytes(p: Payload) -> Seq<u8>;

/// The bytes held by a frame buffer.
pub uninterp spec fn frame_bytes(b: FrameBuffer) -> Seq<u8>;

/// `heapless::Vec::from_slice` on a payload: fails, without a buffer, exactly when
/// the slice is longer than the capacity.
#[verifier::external_body]
pub(crate) fn payload_from_slice(bytes: &[u8]) -> (res: Result<Payload, ()>)
    ensures
        res is Ok <==> bytes@.len() <= MAX_PAYLOAD_SIZE,
        res matches Ok(p) ==> payload_bytes(p) == bytes@,
{
    heapless::Vec::from_slice(bytes)
}

/// `Deref` of a payload to a slice: the slice holds the payload's bytes, which
/// never exceed the capacity.
#[verifier::external_body]
pub(crate) fn payload_as_slice(p: &Payload) -> (res: &[u8])
    ensures
        res@ == payload_bytes(*p),
        res@.len() <= MAX_PAYLOAD_SIZE,
{
    p.as_slice()
}

/// `heapless::Vec::new` on a frame buffer: an empty buffer.
#[verifier::external_body]
pub(crate) fn frame_buffer_new() -> (res: FrameBuffer)
    ensures
        frame_bytes(res) == Seq::<u8>::empty(),
{
    heapless::Vec::new()
}

/// `Deref` of a frame buffer to a slice: the slice holds the buffer's bytes, which
/// never exceed the capacity.
#[verifier::external_body]
pub(crate) fn frame_buffer_as_slice(b: &FrameBuffer) -> (res: &[u8])
    ensures
        res@ == frame_bytes(*b),
        res@.len() <= FRAME_BUFFER_SIZE,
{
    b.as_slice()
}

/// `IndexMut` of a frame buffer (through `DerefMut` to a slice): overwrites the byte
/// at `index`.
#[verifier::external_body]
pub(crate) fn frame_buffer_set(b: &mut FrameBuffer, index: usize, byte: u8)
    requires
        index < frame_bytes(*old(b)).len(),
    ensures
        frame_bytes(*final(b)) == frame_bytes(*old(b)).update(index as int, byte),
{
    b[index] = byte;
}

/// `heapless::Vec::clear`: the buffer becomes empty.
#[verifier::external_body]
pub(crate) fn frame_buffer_clear(b: &mut FrameBuffer)
    ensures
        frame_bytes(*final(b)) == Seq::<u8>::empty(),
{
    b.clear()
}

/// `heapless::Vec::push`: appends the byte unless the buffer is full, in which
/// case the buffer is unchanged and the byte is handed back.
#[verifier::external_body]
pub(crate) fn frame_buffer_push(b: &mut FrameBuffer, byte: u8) -> (res: Result<(), u8>)
    ensures
        frame_bytes(*old(b)).len() < FRAME_BUFFER_SIZE ==> res is Ok && frame_bytes(*final(b))
            == frame_bytes(*old(b)).push(byte),
        frame_bytes(*old(b)).len() >= FRAME_BUFFER_SIZE ==> (res matches Err(x) && x == byte)
            && frame_bytes(*final(b)) == frame_bytes(*old(b)),
{
    b.push(byte)
}

/// `heapless::Vec::insert`: inserts the byte at `index` unless the buffer is full,
/// in which case the buffer is unchanged and the byte is handed back.
#[verifier::external_body]
pub(crate) fn frame_buffer_insert(b: &mut FrameBuffer, index: usize, byte: u8) -> (res: Result<
    (),
    u8,
>)
    requires
        index <= frame_bytes(*old(b)).len(),
    ensures
        frame_bytes(*old(b)).len() < FRAME_BUFFER_SIZE ==> res is Ok && frame_bytes(*final(b))
            == frame_bytes(*old(b)).insert(index as int, byte),
        frame_bytes(*old(b)).len() >= FRAME_BUFFER_SIZE ==> (res matches Err(x) && x == byte)
            && frame_bytes(*final(b)) == frame_bytes(*old(b)),
{
    b.insert(index, byte)
}

/// `heapless::Vec::remove`: removes and returns the byte at `index`.
#[verifier::external_body]
pub(crate) fn frame_buffer_remove(b: &mut FrameBuffer, index: usize) -> (res: u8)
    requires
        index < frame_bytes(*old(b)).len(),
    ensures
        res == frame_bytes(*old(b))[index as int],
        frame_bytes(*final(b)) == frame_bytes(*old(b)).remove(index as int),
{
    b.remove(index)
}

/// `heapless::Vec::extend_from_slice`: appends the bytes if they all fit, and
/// otherwise leaves the buffer unchanged and fails.
#[verifier::external_body]
pub(crate) fn frame_buffer_extend_from_slice(b: &mut FrameBuffer, bytes: &[u8]) -> (res: Result<
    (),
    (),
>)
    ensures
        res is Ok <==> frame_bytes(*old(b)).len() + bytes@.len() <= FRAME_BUFFER_SIZE,
        res is Ok ==> frame_bytes(*final(b)) == frame_bytes(*old(b)) + bytes@,
        res is Err ==> frame_bytes(*final(b)) == frame_bytes(*old(b)),
{
    b.extend_from_slice(bytes)
}

/// The DATA frames sent and awaiting acknowledgement, each with the time it was sent.
pub type SentFrames = heapless::Vec<(u64, Data), MAX_TIMEOUTS>;

/// The DATA frames queued for retransmission.
pub type QueuedFrames = heapless::Deque<Data, MAX_TIMEOUTS>;

/// The entries held by a queue of sent frames, in order.
pub uninterp spec fn sent_entries(q: SentFrames) -> Seq<(u64, DataView)>;

/// The frames held by a retransmission queue, from front to back.
pub uninterp spec fn queued_frames(q: QueuedFrames) -> Seq<DataView>;

/// `heapless::Vec::new` on a queue of sent frames: an empty queue.
#[verifier::external_body]
pub(crate) fn sent_new() -> (res: SentFrames)
    ensures
        sent_entries(res) == Seq::<(u64, DataView)>::empty(),
{
    heapless::Vec::new()
}

/// `heapless::Vec::len` on a queue of sent frames; never more than the capacity.
#[verifier::external_body]
pub(crate) fn sent_len(q: &SentFrames) -> (res: usize)
    ensures
        res == sent_entries(*q).len(),
        res <= MAX_TIMEOUTS,
{
    q.len()
}

/// `Index` of a queue of sent frames (through `Deref` to a slice): the entry at `index`.
#[verifier::external_body]
pub(crate) fn sent_get(q: &SentFrames, index: usize) -> (res: &(u64, Data))
    requires
        index < sent_entries(*q).len(),
    ensures
        (res.0, res.1@) == sent_entries(*q)[index as int],
{
    &q[index]
}

/// `heapless::Vec::push` on a queue of sent frames: appends the entry unless the queue
/// is full, in which case the queue is unchanged and the entry is handed back.
#[verifier::external_body]
pub(crate) fn sent_push(q: &mut SentFrames, entry: (u64, Data)) -> (res: Result<(), (u64, Data)>)
    ensures
        sent_entries(*old(q)).len() < MAX_TIMEOUTS ==> res is Ok && sent_entries(*final(q))
            == sent_entries(*old(q)).push((entry.0, entry.1@)),
        sent_entries(*old(q)).len() >= MAX_TIMEOUTS ==> (res matches Err(e) && e.0 == entry.0
            && e.1@ == entry.1@) && sent_entries(*final(q)) == sent_entries(*old(q)),
{
    q.push(entry)
}

/// `heapless::Vec::remove` on a queue of sent frames: removes and returns the entry at
/// `index`, keeping the order of the others.
#[verifier::external_body]
pub(crate) fn sent_remove(q: &mut SentFrames, index: usize) -> (res: (u64, Data))
    requires
        index < sent_entries(*old(q)).len(),
    ensures
        (res.0, res.1@) == sent_entries(*old(q))[index as int],
        sent_entries(*final(q)) == sent_entries(*old(q)).remove(index as int),
{
    q.remove(index)
}

/// `heapless::Vec::clear` on a queue of sent frames: the queue becomes empty.
#[verifier::external_body]
pub(crate) fn sent_clear(q: &mut SentFrames)
    ensures
        sent_entries(*final(q)) == Seq::<(u64, DataView)>::empty(),
{
    q.clear()
}

/// `heapless::Deque::new`: an empty retransmission queue.
#[verifier::external_body]
pub(crate) fn queued_new() -> (res: QueuedFrames)
    ensures
        queued_frames(res) == Seq::<DataView>::empty(),
{
    heapless::Deque::new()
}

/// `heapless::Deque::len`; never more than the capacity.
#[verifier::external_body]
pub(crate) fn queued_len(q: &QueuedFrames) -> (res: usize)
    ensures
        res == queued_frames(*q).len(),
        res <= MAX_TIMEOUTS,
{
    q.len()
}

/// `heapless::Deque::push_back`: appends the frame unless the queue is full, in which
/// case the queue is unchanged and the frame is handed back.
#[verifier::external_body]
pub(crate) fn queued_push_back(q: &mut QueuedFrames, data: Data) -> (res: Result<(), Data>)
    ensures
        queued_frames(*old(q)).len() < MAX_TIMEOUTS ==> res is Ok && queued_frames(*final(q))
            == queued_frames(*old(q)).push(data@),
        queued_frames(*old(q)).len() >= MAX_TIMEOUTS ==> (res matches Err(d) && d@ == data@)
            && queued_frames(*final(q)) == queued_frames(*old(q)),
{
    q.push_back(data)
}

/// `heapless::Deque::pop_front`: removes and returns the front frame, if any.
#[verifier::external_body]
pub(crate) fn queued_pop_front(q: &mut QueuedFrames) -> (res: Option<Data>)
    ensures
        queued_frames(*old(q)).len() == 0 ==> res is None && queued_frames(*final(q))
            == queued_frames(*old(q)),
        queued_frames(*old(q)).len() > 0 ==> (res matches Some(d) && d@ == queued_frames(
            *old(q),
        )[0]) && queued_frames(*final(q)) == queued_frames(*old(q)).drop_first(),
{
    q.pop_front()
}

/// `heapless::Deque::clear`: the queue becomes empty.
#[verifier::external_body]
pub(crate) fn queued_clear(q: &mut QueuedFrames)
    ensures
        queued_frames(*final(q)) == Seq::<DataView>::empty(),
{
    q.clear()
}

} // verus!
