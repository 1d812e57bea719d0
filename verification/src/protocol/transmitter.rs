//! The decisions of the host's transmitter: which DATA frames await acknowledgement,
//! which are to be sent again, how long to wait for an acknowledgement, and when a
//! frame has been retransmitted too often.
//!
//! The transmitter does no I/O. The frames it decides to send are queued, encoded for
//! the wire, and handed out by [`Transmitter::take_outgoing`]; the caller supplies the
//! current time, the acknowledgements and rejections forwarded by the listener, and
//! whether the connection is up.
use crate::buffers::{
    payload_from_slice, FRAME_BUFFER_SIZE, MAX_PAYLOAD_SIZE,
    queued_clear, queued_frames, queued_len, queued_new, queued_pop_front, queued_push_back,
    sent_clear, sent_entries, sent_get, sent_len, sent_new, sent_push, sent_remove, QueuedFrames,
    SentFrames,
};
use crate::error::{Error, FrameError, IoErrorKind};
use crate::packet::{Data, DataView, Packet, Rst};
use crate::protocol::control_byte::FLAG;
use crate::protocol::output::{frame_of, spec_timed_out};
use crate::protocol::state::{spec_next_t_rx_ack, T_RX_ACK_INIT, T_RX_ACK_MAX, T_RX_ACK_MIN};
use crate::protocol::stuffing::stuffed;
use crate::protocol::worker::{data_frame, frames_view, spec_new_data, spec_retransmitted};
use crate::seq_num::{next_three_bit_number, wrap3, SeqNum};
use crate::write_frame::spec_encode;
use std::collections::HashMap;
use vstd::prelude::*;

verus! {

broadcast use vstd::std_specs::hash::group_hash_axioms;

/// The number of frames that may await acknowledgement, and the number of times a frame
/// may be retransmitted.
pub const MAX_TIMEOUTS: usize = 4;

/// The plain contents of a transmitter.
pub struct TransmitterView {
    /// The frames awaiting acknowledgement, with the time each was sent.
    pub sent: Seq<(u64, DataView)>,
    /// The frames queued for retransmission.
    pub retransmit: Seq<DataView>,
    /// How often a frame with each frame number has been retransmitted.
    pub retransmits: Map<u8, usize>,
    /// The number of the next DATA frame.
    pub frame_number: u8,
    /// The acknowledgement timeout, in nanoseconds.
    pub t_rx_ack: u64,
    /// The encoded frames decided on and not yet handed out, oldest first.
    pub outgoing: Seq<Seq<u8>>,
}

/// The position of the first sent frame for which `pred` holds.
pub open spec fn spec_first_index(
    entries: Seq<(u64, DataView)>,
    pred: spec_fn((u64, DataView)) -> bool,
) -> Option<int>
    decreases entries.len(),
{
    if entries.len() == 0 {
        None
    } else {
        match spec_first_index(entries.drop_last(), pred) {
            Some(i) => Some(i),
            None => if pred(entries.last()) {
                Some(entries.len() - 1)
            } else {
                None
            },
        }
    }
}

/// The first position found holds the first entry for which `pred` holds; if none is
/// found, it holds for none.
pub proof fn lemma_first_index(entries: Seq<(u64, DataView)>, pred: spec_fn((u64, DataView)) -> bool)
    ensures
        match spec_first_index(entries, pred) {
            Some(i) => {
                &&& 0 <= i < entries.len()
                &&& pred(entries[i])
                &&& forall|j: int| 0 <= j < i ==> !pred(#[trigger] entries[j])
            },
            None => forall|j: int| 0 <= j < entries.len() ==> !pred(#[trigger] entries[j]),
        },
    decreases entries.len(),
{
    if entries.len() > 0 {
        lemma_first_index(entries.drop_last(), pred);
        assert forall|j: int| 0 <= j < entries.len() - 1 implies entries[j] == entries.drop_last()[j] by {}
    }
}

/// The count of retransmissions recorded for frame number `f`.
pub open spec fn spec_count(retransmits: Map<u8, usize>, f: u8) -> int {
    if retransmits.contains_key(f) {
        retransmits[f] as int
    } else {
        0
    }
}

/// The transmitter after a NAK with number `nak_num`: the first sent frame with that
/// frame number is queued for retransmission.
pub open spec fn spec_handle_nak(v: TransmitterView, nak_num: u8) -> TransmitterView {
    match spec_first_index(v.sent, |entry: (u64, DataView)| frame_of(entry.1) == nak_num) {
        Some(i) => TransmitterView {
            sent: v.sent.remove(i),
            retransmit: v.retransmit.push(v.sent[i].1),
            ..v
        },
        None => v,
    }
}

/// The transmitter after an ACK with number `ack_num` at time `now`: the first sent frame
/// that it acknowledges (the one whose successor it names) is dropped, and the timeout
/// adapts to the time the frame took, unless the clock went backwards.
pub open spec fn spec_handle_ack(v: TransmitterView, ack_num: u8, now: u64) -> TransmitterView {
    match spec_first_index(
        v.sent,
        |entry: (u64, DataView)| wrap3(frame_of(entry.1) + 1) == ack_num,
    ) {
        Some(i) => TransmitterView {
            sent: v.sent.remove(i),
            t_rx_ack: if now >= v.sent[i].0 {
                spec_next_t_rx_ack(v.t_rx_ack, Some((now - v.sent[i].0) as u64))
            } else {
                v.t_rx_ack
            },
            ..v
        },
        None => v,
    }
}

/// The transmitter after checking for timeouts at time `now`: one by one, the first frame
/// that has waited longer than the current timeout is queued for retransmission, and
/// the timeout doubles each time.
pub open spec fn spec_check_ack_timeouts(v: TransmitterView, now: u64) -> TransmitterView
    decreases v.sent.len(),
{
    match spec_first_index(
        v.sent,
        |entry: (u64, DataView)| spec_timed_out(now, v.t_rx_ack, entry.0),
    ) {
        Some(i) => if 0 <= i < v.sent.len() {
            spec_check_ack_timeouts(
                TransmitterView {
                    sent: v.sent.remove(i),
                    retransmit: v.retransmit.push(v.sent[i].1),
                    t_rx_ack: spec_next_t_rx_ack(v.t_rx_ack, None),
                    ..v
                },
                now,
            )
        } else {
            v
        },
        None => v,
    }
}

/// The transmitter after the NAKs in `naks`, in order.
pub open spec fn spec_handle_naks(v: TransmitterView, naks: Seq<u8>) -> TransmitterView
    decreases naks.len(),
{
    if naks.len() == 0 {
        v
    } else {
        spec_handle_nak(spec_handle_naks(v, naks.drop_last()), naks.last())
    }
}

/// The transmitter after the ACKs in `acks` at time `now`, in order.
pub open spec fn spec_handle_acks(v: TransmitterView, acks: Seq<u8>, now: u64) -> TransmitterView
    decreases acks.len(),
{
    if acks.len() == 0 {
        v
    } else {
        spec_handle_ack(spec_handle_acks(v, acks.drop_last(), now), acks.last(), now)
    }
}

/// The transmitter after sending a DATA frame at time `now`: the frame goes to the wire
/// if the connection is up, and is recorded as awaiting acknowledgement if there is room.
pub open spec fn spec_send_data(v: TransmitterView, data: DataView, now: u64, connected: bool) -> (
    TransmitterView,
    Result<(), Error>,
) {
    if !connected {
        (v, Err(Error::Aborted))
    } else if v.sent.len() < MAX_TIMEOUTS {
        (
            TransmitterView {
                sent: v.sent.push((now, data)),
                outgoing: v.outgoing.push(data_frame(data)),
                ..v
            },
            Ok(()),
        )
    } else {
        (
            TransmitterView { outgoing: v.outgoing.push(data_frame(data)), ..v },
            Err(Error::Io(IoErrorKind::OutOfMemory)),
        )
    }
}

/// The transmitter after a retransmission round at time `now`, `done` frames having been
/// retransmitted before: while there is room, the front frame of the queue is taken, its
/// retransmission counted, and, unless it was retransmitted too often, sent again with the
/// retransmission flag set. A count beyond the limit is recorded as one beyond it.
pub open spec fn spec_retransmit_from(
    v: TransmitterView,
    now: u64,
    connected: bool,
    done: int,
) -> (TransmitterView, Result<usize, Error>)
    decreases v.retransmit.len(),
{
    if v.sent.len() >= MAX_TIMEOUTS || v.retransmit.len() == 0 {
        (v, Ok(done as usize))
    } else {
        let data = v.retransmit[0];
        let count = spec_count(v.retransmits, frame_of(data)) + 1;
        let v1 = TransmitterView {
            retransmit: v.retransmit.drop_first(),
            retransmits: v.retransmits.insert(
                frame_of(data),
                (if count > MAX_TIMEOUTS {
                    MAX_TIMEOUTS + 1
                } else {
                    count
                }) as usize,
            ),
            ..v
        };
        if count > MAX_TIMEOUTS {
            (v1, Err(Error::MaxRetransmitsExceeded))
        } else {
            let (v2, sent) = spec_send_data(v1, spec_retransmitted(data), now, connected);
            match sent {
                Ok(()) => spec_retransmit_from(v2, now, connected, done + 1),
                Err(e) => (v2, Err(e)),
            }
        }
    }
}

/// The transmitter after sending a chunk of payload at time `now`: a chunk that does not
/// fit the frame buffer is refused; otherwise the chunk takes the next frame number and,
/// unless it is too large for a DATA frame, is sent in a new DATA frame with the given
/// ACK number.
pub open spec fn spec_send_chunk(
    v: TransmitterView,
    chunk: Seq<u8>,
    ack_number: u8,
    now: u64,
    connected: bool,
) -> (TransmitterView, Result<(), Error>) {
    if chunk.len() > FRAME_BUFFER_SIZE {
        (v, Err(Error::Io(IoErrorKind::OutOfMemory)))
    } else {
        let v1 = TransmitterView { frame_number: wrap3(v.frame_number + 1), ..v };
        if chunk.len() > MAX_PAYLOAD_SIZE {
            (
                v1,
                Err(
                    Error::Frame(
                        FrameError::PayloadTooLarge {
                            max: MAX_PAYLOAD_SIZE,
                            found: chunk.len() as usize,
                        },
                    ),
                ),
            )
        } else {
            spec_send_data(v1, spec_new_data(v.frame_number, chunk, ack_number), now, connected)
        }
    }
}

/// The transmitter after sending the chunks from position `next` on at time `now`, while
/// there is room, `done` chunks having been sent before; with the position of the next
/// chunk and the outcome.
pub open spec fn spec_push_chunks_from(
    v: TransmitterView,
    chunks: Seq<Seq<u8>>,
    next: int,
    ack_number: u8,
    now: u64,
    connected: bool,
    done: int,
) -> (TransmitterView, int, Result<usize, Error>)
    decreases chunks.len() - next,
{
    if v.sent.len() >= MAX_TIMEOUTS || next >= chunks.len() || next < 0 {
        (v, next, Ok(done as usize))
    } else {
        let (v1, sent) = spec_send_chunk(v, chunks[next], ack_number, now, connected);
        match sent {
            Ok(()) => spec_push_chunks_from(v1, chunks, next + 1, ack_number, now, connected, done + 1),
            Err(e) => (v1, next + 1, Err(e)),
        }
    }
}

/// A retransmission round that succeeds leaves the queue empty or no room for more.
pub proof fn lemma_retransmit_drains(v: TransmitterView, now: u64, connected: bool, done: int)
    ensures
        ({
            let (w, outcome) = spec_retransmit_from(v, now, connected, done);
            outcome is Ok ==> w.retransmit.len() == 0 || w.sent.len() >= MAX_TIMEOUTS
        }),
    decreases v.retransmit.len(),
{
    if !(v.sent.len() >= MAX_TIMEOUTS || v.retransmit.len() == 0) {
        let data = v.retransmit[0];
        let count = spec_count(v.retransmits, frame_of(data)) + 1;
        let v1 = TransmitterView {
            retransmit: v.retransmit.drop_first(),
            retransmits: v.retransmits.insert(
                frame_of(data),
                (if count > MAX_TIMEOUTS {
                    MAX_TIMEOUTS + 1
                } else {
                    count
                }) as usize,
            ),
            ..v
        };
        if count <= MAX_TIMEOUTS {
            let (v2, sent) = spec_send_data(v1, spec_retransmitted(data), now, connected);
            if sent is Ok {
                lemma_retransmit_drains(v2, now, connected, done + 1);
            }
        }
    }
}

/// The frames the transmitter keeps track of.
#[derive(Debug)]
pub struct Transmitter {
    sent: SentFrames,
    retransmit: QueuedFrames,
    retransmits: HashMap<u8, usize>,
    frame_number: u8,
    t_rx_ack: u64,
    outgoing: Vec<Vec<u8>>,
}

impl View for Transmitter {
    type V = TransmitterView;

    closed spec fn view(&self) -> TransmitterView {
        TransmitterView {
            sent: sent_entries(self.sent),
            retransmit: queued_frames(self.retransmit),
            retransmits: self.retransmits@,
            frame_number: self.frame_number,
            t_rx_ack: self.t_rx_ack,
            outgoing: frames_view(self.outgoing@),
        }
    }
}

impl Transmitter {
    /// The frames awaiting acknowledgement and those queued for retransmission never
    /// exceed the limit together, so a rejected frame always finds room in the queue;
    /// the acknowledgement timeout stays within its bounds; a retransmission count is
    /// recorded up to one beyond the limit.
    pub closed spec fn wf(&self) -> bool {
        &&& sent_entries(self.sent).len() + queued_frames(self.retransmit).len() <= MAX_TIMEOUTS
        &&& T_RX_ACK_MIN <= self.t_rx_ack <= T_RX_ACK_MAX
        &&& forall|f: u8| #[trigger]
            self.retransmits@.contains_key(f) ==> self.retransmits@[f] <= MAX_TIMEOUTS + 1
    }

    /// Creates a transmitter with nothing sent, frame number zero and the initial timeout.
    pub fn new() -> (res: Self)
        ensures
            res@.sent.len() == 0,
            res@.retransmit.len() == 0,
            res@.retransmits == Map::<u8, usize>::empty(),
            res@.frame_number == 0,
            res@.t_rx_ack == T_RX_ACK_INIT,
            res@.outgoing.len() == 0,
            res.wf(),
    {
        Self {
            sent: sent_new(),
            retransmit: queued_new(),
            retransmits: HashMap::new(),
            frame_number: 0,
            t_rx_ack: T_RX_ACK_INIT,
            outgoing: Vec::new(),
        }
    }

    /// The acknowledgement timeout, in nanoseconds.
    pub fn t_rx_ack(&self) -> (res: u64)
        requires
            self.wf(),
        ensures
            res == self@.t_rx_ack,
            T_RX_ACK_MIN <= res <= T_RX_ACK_MAX,
    {
        self.t_rx_ack
    }

    /// Hands out the encoded frames decided on so far, oldest first.
    pub fn take_outgoing(&mut self) -> (res: Vec<Vec<u8>>)
        requires
            old(self).wf(),
        ensures
            final(self).wf(),
            frames_view(res@) == old(self)@.outgoing,
            final(self)@ == (TransmitterView { outgoing: Seq::empty(), ..old(self)@ }),
    {
        let mut res: Vec<Vec<u8>> = Vec::new();
        core::mem::swap(&mut res, &mut self.outgoing);
        assert(frames_view(self.outgoing@) =~= Seq::<Seq<u8>>::empty());
        res
    }

    /// Queues a frame for sending: its bytes, stuffed, then the flag byte.
    fn send_frame(&mut self, packet: &Packet)
        requires
            old(self).wf(),
        ensures
            final(self).wf(),
            final(self)@ == (TransmitterView {
                outgoing: old(self)@.outgoing.push(spec_encode(packet@.spec_bytes())),
                ..old(self)@
            }),
    {
        let bytes = packet.bytes();
        let mut frame = stuffed(bytes.as_slice());
        frame.push(FLAG);
        assert(frame@ =~= spec_encode(packet@.spec_bytes()));
        let ghost before = self.outgoing@;
        self.outgoing.push(frame);
        assert(frames_view(self.outgoing@) =~= frames_view(before).push(
            spec_encode(packet@.spec_bytes()),
        ));
    }

    /// Returns the frame number for the next DATA frame and advances it.
    pub fn next_frame_number(&mut self) -> (res: u8)
        requires
            old(self).wf(),
        ensures
            final(self).wf(),
            res == old(self)@.frame_number,
            final(self)@ == (TransmitterView {
                frame_number: wrap3(old(self)@.frame_number + 1),
                ..old(self)@
            }),
    {
        let frame_number = self.frame_number;
        self.frame_number = next_three_bit_number(frame_number);
        frame_number
    }

    /// Adapts the acknowledgement timeout: after an acknowledgement that took
    /// `last_ack_duration` nanoseconds it becomes 7/8 of the old timeout plus half that
    /// duration, after a timeout it doubles; it is kept within its bounds.
    pub fn update_t_rx_ack(&mut self, last_ack_duration: Option<u64>)
        requires
            old(self).wf(),
        ensures
            final(self).wf(),
            final(self)@ == (TransmitterView {
                t_rx_ack: spec_next_t_rx_ack(old(self)@.t_rx_ack, last_ack_duration),
                ..old(self)@
            }),
    {
        let t = match last_ack_duration {
            Some(duration) => self.t_rx_ack * 7 / 8 + duration / 2,
            None => self.t_rx_ack * 2,
        };
        self.t_rx_ack = if t < T_RX_ACK_MIN {
            T_RX_ACK_MIN
        } else if t > T_RX_ACK_MAX {
            T_RX_ACK_MAX
        } else {
            t
        };
    }

    /// The position of the first sent frame with frame number `nak_num`.
    fn find_rejected(&self, nak_num: u8) -> (res: Option<usize>)
        requires
            self.wf(),
        ensures
            res matches Some(i) ==> spec_first_index(
                self@.sent,
                |entry: (u64, DataView)| frame_of(entry.1) == nak_num,
            ) == Some(i as int),
            res is None ==> spec_first_index(
                self@.sent,
                |entry: (u64, DataView)| frame_of(entry.1) == nak_num,
            ) is None,
    {
        let ghost pred = |entry: (u64, DataView)| frame_of(entry.1) == nak_num;
        let ghost entries = self@.sent;
        let n = sent_len(&self.sent);
        let mut i: usize = 0;
        while i < n
            invariant
                n == entries.len(),
                entries == self@.sent,
                i <= n,
                spec_first_index(entries.take(i as int), pred) is None,
                pred == (|entry: (u64, DataView)| frame_of(entry.1) == nak_num),
            decreases n - i,
        {
            let entry = sent_get(&self.sent, i);
            assert(entries.take(i + 1).drop_last() =~= entries.take(i as int));
            if entry.1.frame_num().as_u8() == nak_num {
                proof {
                    lemma_first_index_prefix(entries, pred, i as int);
                }
                return Some(i);
            }
            i = i + 1;
        }
        assert(entries.take(i as int) =~= entries);
        None
    }

    /// The position of the first sent frame that an ACK with number `ack_num`
    /// acknowledges.
    fn find_acknowledged(&self, ack_num: u8) -> (res: Option<usize>)
        requires
            self.wf(),
        ensures
            res matches Some(i) ==> spec_first_index(
                self@.sent,
                |entry: (u64, DataView)| wrap3(frame_of(entry.1) + 1) == ack_num,
            ) == Some(i as int),
            res is None ==> spec_first_index(
                self@.sent,
                |entry: (u64, DataView)| wrap3(frame_of(entry.1) + 1) == ack_num,
            ) is None,
    {
        let ghost pred = |entry: (u64, DataView)| wrap3(frame_of(entry.1) + 1) == ack_num;
        let ghost entries = self@.sent;
        let n = sent_len(&self.sent);
        let mut i: usize = 0;
        while i < n
            invariant
                n == entries.len(),
                entries == self@.sent,
                i <= n,
                spec_first_index(entries.take(i as int), pred) is None,
                pred == (|entry: (u64, DataView)| wrap3(frame_of(entry.1) + 1) == ack_num),
            decreases n - i,
        {
            let entry = sent_get(&self.sent, i);
            assert(entries.take(i + 1).drop_last() =~= entries.take(i as int));
            if next_three_bit_number(entry.1.frame_num().as_u8()) == ack_num {
                proof {
                    lemma_first_index_prefix(entries, pred, i as int);
                }
                return Some(i);
            }
            i = i + 1;
        }
        assert(entries.take(i as int) =~= entries);
        None
    }

    /// The position of the first sent frame that has waited longer than the current
    /// timeout at time `now`.
    fn find_timed_out(&self, now: u64) -> (res: Option<usize>)
        requires
            self.wf(),
        ensures
            res matches Some(i) ==> spec_first_index(
                self@.sent,
                |entry: (u64, DataView)| spec_timed_out(now, self@.t_rx_ack, entry.0),
            ) == Some(i as int),
            res is None ==> spec_first_index(
                self@.sent,
                |entry: (u64, DataView)| spec_timed_out(now, self@.t_rx_ack, entry.0),
            ) is None,
    {
        let ghost pred = |entry: (u64, DataView)| spec_timed_out(now, self@.t_rx_ack, entry.0);
        let ghost entries = self@.sent;
        let n = sent_len(&self.sent);
        let mut i: usize = 0;
        while i < n
            invariant
                n == entries.len(),
                entries == self@.sent,
                i <= n,
                spec_first_index(entries.take(i as int), pred) is None,
                pred == (|entry: (u64, DataView)| spec_timed_out(now, self@.t_rx_ack, entry.0)),
            decreases n - i,
        {
            let entry = sent_get(&self.sent, i);
            assert(entries.take(i + 1).drop_last() =~= entries.take(i as int));
            let timestamp = entry.0;
            if now >= timestamp && now - timestamp > self.t_rx_ack {
                proof {
                    lemma_first_index_prefix(entries, pred, i as int);
                }
                return Some(i);
            }
            i = i + 1;
        }
        assert(entries.take(i as int) =~= entries);
        None
    }

    /// Moves the sent frame at `index` to the retransmission queue.
    fn requeue(&mut self, index: usize)
        requires
            old(self).wf(),
            index < old(self)@.sent.len(),
        ensures
            final(self).wf(),
            final(self)@ == (TransmitterView {
                sent: old(self)@.sent.remove(index as int),
                retransmit: old(self)@.retransmit.push(old(self)@.sent[index as int].1),
                ..old(self)@
            }),
    {
        let (_, data) = sent_remove(&mut self.sent, index);
        let _ = queued_push_back(&mut self.retransmit, data);
    }

    /// Handles a NAK with number `nak_num`: the first sent frame with that frame number is
    /// queued for retransmission.
    pub fn handle_nak(&mut self, nak_num: u8)
        requires
            old(self).wf(),
        ensures
            final(self).wf(),
            final(self)@ == spec_handle_nak(old(self)@, nak_num),
    {
        match self.find_rejected(nak_num) {
            Some(index) => {
                proof {
                    lemma_first_index(
                        self@.sent,
                        |entry: (u64, DataView)| frame_of(entry.1) == nak_num,
                    );
                }
                self.requeue(index);
            },
            None => {},
        }
    }

    /// Handles an ACK with number `ack_num` at time `now`: the first sent frame it
    /// acknowledges is dropped, and the timeout adapts to the time the frame took.
    pub fn handle_ack(&mut self, ack_num: u8, now: u64)
        requires
            old(self).wf(),
        ensures
            final(self).wf(),
            final(self)@ == spec_handle_ack(old(self)@, ack_num, now),
    {
        match self.find_acknowledged(ack_num) {
            Some(index) => {
                proof {
                    lemma_first_index(
                        self@.sent,
                        |entry: (u64, DataView)| wrap3(frame_of(entry.1) + 1) == ack_num,
                    );
                }
                let (timestamp, _) = sent_remove(&mut self.sent, index);
                if now >= timestamp {
                    self.update_t_rx_ack(Some(now - timestamp));
                }
            },
            None => {},
        }
    }

    /// Queues for retransmission, one by one, the first frame that has waited longer than
    /// the current timeout at time `now`, doubling the timeout each time.
    pub fn check_ack_timeouts(&mut self, now: u64)
        requires
            old(self).wf(),
        ensures
            final(self).wf(),
            final(self)@ == spec_check_ack_timeouts(old(self)@, now),
    {
        let ghost target = spec_check_ack_timeouts(self@, now);
        let mut more = true;
        while more
            invariant
                spec_check_ack_timeouts(self@, now) == target,
                self.wf(),
                !more ==> self@ == target,
            decreases self@.sent.len() + (if more { 1int } else { 0int }),
        {
            match self.find_timed_out(now) {
                Some(index) => {
                    proof {
                        lemma_first_index(
                            self@.sent,
                            |entry: (u64, DataView)| spec_timed_out(now, self@.t_rx_ack, entry.0),
                        );
                    }
                    self.requeue(index);
                    self.update_t_rx_ack(None);
                },
                None => {
                    more = false;
                },
            }
        }
    }

    /// Handles the NAKs in `naks`, in order.
    pub fn handle_naks(&mut self, naks: &[u8])
        requires
            old(self).wf(),
        ensures
            final(self).wf(),
            final(self)@ == spec_handle_naks(old(self)@, naks@),
    {
        let ghost start = self@;
        let mut i: usize = 0;
        assert(naks@.take(0) =~= Seq::<u8>::empty());
        while i < naks.len()
            invariant
                i <= naks@.len(),
                self@ == spec_handle_naks(start, naks@.take(i as int)),
                self.wf(),
            decreases naks@.len() - i,
        {
            self.handle_nak(naks[i]);
            assert(naks@.take(i + 1).drop_last() =~= naks@.take(i as int));
            i = i + 1;
        }
        assert(naks@.take(i as int) =~= naks@);
    }

    /// Handles the ACKs in `acks` at time `now`, in order.
    pub fn handle_acks(&mut self, acks: &[u8], now: u64)
        requires
            old(self).wf(),
        ensures
            final(self).wf(),
            final(self)@ == spec_handle_acks(old(self)@, acks@, now),
    {
        let ghost start = self@;
        let mut i: usize = 0;
        assert(acks@.take(0) =~= Seq::<u8>::empty());
        while i < acks.len()
            invariant
                i <= acks@.len(),
                self@ == spec_handle_acks(start, acks@.take(i as int), now),
                self.wf(),
            decreases acks@.len() - i,
        {
            self.handle_ack(acks[i], now);
            assert(acks@.take(i + 1).drop_last() =~= acks@.take(i as int));
            i = i + 1;
        }
        assert(acks@.take(i as int) =~= acks@);
    }

    /// Handles the NAKs, then the timeouts, then the ACKs, at time `now`.
    pub fn handle_naks_and_acks(&mut self, naks: &[u8], acks: &[u8], now: u64)
        requires
            old(self).wf(),
        ensures
            final(self).wf(),
            final(self)@ == spec_handle_acks(
                spec_check_ack_timeouts(spec_handle_naks(old(self)@, naks@), now),
                acks@,
                now,
            ),
    {
        self.handle_naks(naks);
        self.check_ack_timeouts(now);
        self.handle_acks(acks, now);
    }

    /// Sends a DATA frame at time `now` if the connection is up, and records it as awaiting
    /// acknowledgement.
    fn send_data(&mut self, data: Data, now: u64, connected: bool) -> (res: Result<(), Error>)
        requires
            old(self).wf(),
            old(self)@.sent.len() + old(self)@.retransmit.len() < MAX_TIMEOUTS,
        ensures
            final(self).wf(),
            (final(self)@, res) == spec_send_data(old(self)@, data@, now, connected),
    {
        if !connected {
            return Err(Error::Aborted);
        }
        let packet = Packet::Data(data);
        self.send_frame(&packet);
        match packet {
            Packet::Data(data) => match sent_push(&mut self.sent, (now, data)) {
                Ok(()) => Ok(()),
                Err(_) => Err(Error::Io(IoErrorKind::OutOfMemory)),
            },
            _ => Ok(()),
        }
    }

    /// Sends the frames queued for retransmission, with the retransmission flag set, while
    /// fewer than the maximum number of frames await acknowledgement; returns how many
    /// were sent. A frame retransmitted more often than the limit ends the round with an
    /// error.
    pub fn retransmit(&mut self, now: u64, connected: bool) -> (res: Result<usize, Error>)
        requires
            old(self).wf(),
        ensures
            final(self).wf(),
            (final(self)@, res) == spec_retransmit_from(old(self)@, now, connected, 0),
            res matches Ok(n) ==> n <= MAX_TIMEOUTS,
    {
        let ghost target = spec_retransmit_from(self@, now, connected, 0);
        let mut count: usize = 0;
        let mut res: Result<usize, Error> = Ok(0);
        let mut more = true;
        while more && sent_len(&self.sent) < MAX_TIMEOUTS
            invariant
                self.wf(),
                count <= self@.sent.len(),
                count <= MAX_TIMEOUTS,
                res matches Ok(n) ==> n <= MAX_TIMEOUTS,
                more ==> spec_retransmit_from(self@, now, connected, count as int) == target,
                !more ==> (self@, res) == target,
            decreases self@.retransmit.len() + (if more { 1int } else { 0int }),
        {
            match queued_pop_front(&mut self.retransmit) {
                Some(mut data) => {
                    let frame_num = data.frame_num().as_u8();
                    let count_before: usize = match self.retransmits.get(&frame_num) {
                        Some(n) => *n,
                        None => 0,
                    };
                    assert(count_before == spec_count(self@.retransmits, frame_num));
                    let retransmissions = count_before + 1;
                    let recorded = if retransmissions > MAX_TIMEOUTS {
                        MAX_TIMEOUTS + 1
                    } else {
                        retransmissions
                    };
                    self.retransmits.insert(frame_num, recorded);
                    if retransmissions > MAX_TIMEOUTS {
                        res = Err(Error::MaxRetransmitsExceeded);
                        more = false;
                    } else {
                        let ghost original = data@;
                        data.set_is_retransmission(true);
                        assert(data@ == spec_retransmitted(original));
                        match self.send_data(data, now, connected) {
                            Ok(()) => {
                                count = count + 1;
                            },
                            Err(error) => {
                                res = Err(error);
                                more = false;
                            },
                        }
                    }
                },
                None => {
                    res = Ok(count);
                    more = false;
                },
            }
        }
        if more {
            res = Ok(count);
        }
        res
    }

    /// Sends a chunk of payload at time `now` in a new DATA frame with the next frame
    /// number and the given ACK number.
    fn send_chunk(&mut self, chunk: &[u8], ack_number: u8, now: u64, connected: bool) -> (res:
        Result<(), Error>)
        requires
            old(self).wf(),
            old(self)@.sent.len() + old(self)@.retransmit.len() < MAX_TIMEOUTS,
        ensures
            final(self).wf(),
            (final(self)@, res) == spec_send_chunk(old(self)@, chunk@, ack_number, now, connected),
    {
        if chunk.len() > FRAME_BUFFER_SIZE {
            return Err(Error::Io(IoErrorKind::OutOfMemory));
        }
        let frame_number = self.next_frame_number();
        let payload = match payload_from_slice(chunk) {
            Ok(payload) => payload,
            Err(()) => {
                return Err(
                    Error::Frame(
                        FrameError::PayloadTooLarge { max: MAX_PAYLOAD_SIZE, found: chunk.len() },
                    ),
                );
            },
        };
        let data = Data::new(
            SeqNum::from_u8_lossy(frame_number),
            payload,
            SeqNum::from_u8_lossy(ack_number),
        );
        self.send_data(data, now, connected)
    }

    /// Sends the chunks from position `next` on at time `now`, each in a new DATA frame
    /// with the given ACK number, while fewer than the maximum number of frames await
    /// acknowledgement; advances `next` past the chunks taken and returns how many were
    /// sent.
    pub fn push_chunks(
        &mut self,
        chunks: &Vec<Vec<u8>>,
        next: &mut usize,
        ack_number: u8,
        now: u64,
        connected: bool,
    ) -> (res: Result<usize, Error>)
        requires
            old(self).wf(),
            old(self)@.retransmit.len() == 0 || old(self)@.sent.len() >= MAX_TIMEOUTS,
        ensures
            final(self).wf(),
            ({
                let (v, position, outcome) = spec_push_chunks_from(
                    old(self)@,
                    frames_view(chunks@),
                    *old(next) as int,
                    ack_number,
                    now,
                    connected,
                    0,
                );
                &&& final(self)@ == v
                &&& *final(next) == position
                &&& res == outcome
            }),
            res matches Ok(n) ==> n <= MAX_TIMEOUTS,
    {
        let ghost target = spec_push_chunks_from(
            self@,
            frames_view(chunks@),
            *next as int,
            ack_number,
            now,
            connected,
            0,
        );
        let mut count: usize = 0;
        let mut res: Result<usize, Error> = Ok(0);
        let mut more = true;
        while more && sent_len(&self.sent) < MAX_TIMEOUTS && *next < chunks.len()
            invariant
                self.wf(),
                self@.retransmit.len() == 0 || self@.sent.len() >= MAX_TIMEOUTS,
                count <= self@.sent.len(),
                count <= MAX_TIMEOUTS,
                res matches Ok(n) ==> n <= MAX_TIMEOUTS,
                more ==> spec_push_chunks_from(
                    self@,
                    frames_view(chunks@),
                    *next as int,
                    ack_number,
                    now,
                    connected,
                    count as int,
                ) == target,
                !more ==> (self@, *next as int, res) == target,
            decreases chunks@.len() - *next + (if more { 1int } else { 0int }),
        {
            let index = *next;
            *next = index + 1;
            assert(frames_view(chunks@)[index as int] == chunks@[index as int]@);
            match self.send_chunk(chunks[index].as_slice(), ack_number, now, connected) {
                Ok(()) => {
                    count = count + 1;
                },
                Err(error) => {
                    res = Err(error);
                    more = false;
                },
            }
        }
        if more {
            res = Ok(count);
        }
        res
    }

    /// One round of a transmission at time `now`: handles the NAKs, the timeouts and the
    /// ACKs, then retransmits what is queued and sends further chunks from position `next`
    /// on with the given ACK number; returns how many frames were sent.
    pub fn transmit_round(
        &mut self,
        naks: &[u8],
        acks: &[u8],
        chunks: &Vec<Vec<u8>>,
        next: &mut usize,
        ack_number: u8,
        now: u64,
        connected: bool,
    ) -> (res: Result<usize, Error>)
        requires
            old(self).wf(),
        ensures
            final(self).wf(),
            ({
                let v0 = spec_handle_acks(
                    spec_check_ack_timeouts(spec_handle_naks(old(self)@, naks@), now),
                    acks@,
                    now,
                );
                let (v1, retransmitted) = spec_retransmit_from(v0, now, connected, 0);
                match retransmitted {
                    Err(e) => final(self)@ == v1 && *final(next) == *old(next) && res == Err::<
                        usize,
                        Error,
                    >(e),
                    Ok(r) => {
                        let (v2, position, pushed) = spec_push_chunks_from(
                            v1,
                            frames_view(chunks@),
                            *old(next) as int,
                            ack_number,
                            now,
                            connected,
                            0,
                        );
                        &&& final(self)@ == v2
                        &&& *final(next) == position
                        &&& res == (match pushed {
                            Ok(p) => Ok((r + p) as usize),
                            Err(e) => Err::<usize, Error>(e),
                        })
                    },
                }
            }),
    {
        self.handle_naks_and_acks(naks, acks, now);
        let ghost v0 = self@;
        let retransmitted = match self.retransmit(now, connected) {
            Ok(n) => n,
            Err(error) => {
                return Err(error);
            },
        };
        proof {
            lemma_retransmit_drains(v0, now, connected, 0);
        }
        let pushed = match self.push_chunks(chunks, next, ack_number, now, connected) {
            Ok(n) => n,
            Err(error) => {
                return Err(error);
            },
        };
        Ok(retransmitted + pushed)
    }

    /// Whether no frame awaits acknowledgement or retransmission.
    pub fn is_transaction_complete(&self) -> (res: bool)
        requires
            self.wf(),
        ensures
            res == (self@.sent.len() == 0 && self@.retransmit.len() == 0),
    {
        sent_len(&self.sent) == 0 && queued_len(&self.retransmit) == 0
    }

    /// Forgets all frames and retransmission counts; the frame number and the timeout
    /// start afresh.
    pub fn reset_state(&mut self)
        requires
            old(self).wf(),
        ensures
            final(self).wf(),
            final(self)@ == (TransmitterView {
                sent: Seq::empty(),
                retransmit: Seq::empty(),
                retransmits: Map::empty(),
                frame_number: 0,
                t_rx_ack: T_RX_ACK_INIT,
                outgoing: old(self)@.outgoing,
            }),
    {
        sent_clear(&mut self.sent);
        self.retransmits.clear();
        queued_clear(&mut self.retransmit);
        self.frame_number = 0;
        self.t_rx_ack = T_RX_ACK_INIT;
    }

    /// Resets the connection: queues an RST frame and starts afresh.
    pub fn reset(&mut self)
        requires
            old(self).wf(),
        ensures
            final(self).wf(),
            final(self)@ == (TransmitterView {
                sent: Seq::empty(),
                retransmit: Seq::empty(),
                retransmits: Map::empty(),
                frame_number: 0,
                t_rx_ack: T_RX_ACK_INIT,
                outgoing: old(self)@.outgoing.push(spec_encode((Rst { header: Rst::HEADER, crc: Rst::CRC }).spec_bytes())),
            }),
    {
        let rst = Rst::default();
        self.send_frame(&Packet::Rst(rst));
        self.reset_state();
    }
    /// The sliding window: the frames awaiting acknowledgement and those queued for
    /// retransmission never number more than the limit together, and the acknowledgement
    /// timeout stays within its bounds.
    pub proof fn lemma_window(&self)
        requires
            self.wf(),
        ensures
            self@.sent.len() + self@.retransmit.len() <= MAX_TIMEOUTS,
            T_RX_ACK_MIN <= self@.t_rx_ack <= T_RX_ACK_MAX,
    {
    }
}

/// If no entry before position `i` satisfies `pred` and the one at `i` does, the first
/// index is `i`, in the whole sequence as in every prefix that holds `i`.
proof fn lemma_first_index_prefix(
    entries: Seq<(u64, DataView)>,
    pred: spec_fn((u64, DataView)) -> bool,
    i: int,
)
    requires
        0 <= i < entries.len(),
        spec_first_index(entries.take(i), pred) is None,
        pred(entries[i]),
    ensures
        spec_first_index(entries, pred) == Some(i),
{
    lemma_first_index(entries.take(i), pred);
    lemma_first_index(entries, pred);
    match spec_first_index(entries, pred) {
        Some(j) => {
            if j < i {
                assert(entries.take(i)[j] == entries[j]);
            }
        },
        None => {},
    }
}

/// An ACK acknowledges the first sent frame whose successor it names: that frame alone
/// leaves the frames awaiting acknowledgement. If it was sent at `t0` no later than
/// `now`, the timeout becomes 7/8 of the old timeout plus half the time the frame took,
/// kept within its bounds; otherwise the timeout stays. Nothing else changes.
pub proof fn lemma_ack_adapts_timeout(v: TransmitterView, ack_num: u8, now: u64, i: int)
    requires
        0 <= i < v.sent.len(),
        (frame_of(v.sent[i].1) + 1) % 8 == ack_num,
        forall|j: int| 0 <= j < i ==> (frame_of(#[trigger] v.sent[j].1) + 1) % 8 != ack_num,
    ensures
        ({
            let next = spec_handle_ack(v, ack_num, now);
            let t0 = v.sent[i].0;
            let t = v.t_rx_ack * 7 / 8 + (now - t0) / 2;
            &&& next.sent == v.sent.remove(i)
            &&& t0 <= now ==> next.t_rx_ack == if t < T_RX_ACK_MIN {
                T_RX_ACK_MIN as int
            } else if t > T_RX_ACK_MAX {
                T_RX_ACK_MAX as int
            } else {
                t
            }
            &&& now < t0 ==> next.t_rx_ack == v.t_rx_ack
            &&& next.retransmit == v.retransmit
            &&& next.retransmits == v.retransmits
            &&& next.frame_number == v.frame_number
            &&& next.outgoing == v.outgoing
        }),
{
    let pred = |entry: (u64, DataView)| wrap3(frame_of(entry.1) + 1) == ack_num;
    lemma_first_index(v.sent, pred);
    match spec_first_index(v.sent, pred) {
        Some(k) => {
            if k < i {
                assert((frame_of(v.sent[k].1) + 1) % 8 != ack_num);
            } else if k > i {
                assert(pred(v.sent[i]));
            }
        },
        None => {
            assert(pred(v.sent[i]));
        },
    }
}

/// An ACK that names the successor of no sent frame changes nothing.
pub proof fn lemma_unmatched_ack(v: TransmitterView, ack_num: u8, now: u64)
    requires
        forall|j: int| 0 <= j < v.sent.len() ==> (frame_of(#[trigger] v.sent[j].1) + 1) % 8 != ack_num,
    ensures
        spec_handle_ack(v, ack_num, now) == v,
{
    let pred = |entry: (u64, DataView)| wrap3(frame_of(entry.1) + 1) == ack_num;
    lemma_first_index(v.sent, pred);
    if let Some(k) = spec_first_index(v.sent, pred) {
        assert((frame_of(v.sent[k].1) + 1) % 8 != ack_num);
    }
}

} // verus!
