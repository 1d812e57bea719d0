//! The frames the host has sent: those awaiting acknowledgement, with the time they
//! were sent, and those queued for retransmission.
use crate::packet::{Data, DataView};
use crate::protocol::control_byte::{CANCEL, FLAG};
use itertools::Itertools;
use std::collections::VecDeque;
use vstd::prelude::*;

verus! {

/// The number of frames that may await acknowledgement at the same time.
pub const ACK_TIMEOUTS: usize = 4;

/// The frame number in the header of a DATA frame.
pub open spec fn frame_of(data: DataView) -> u8 {
    (data.header >> 4u8) & 0x07u8
}

/// The plain contents of a sent frame and its send time.
pub open spec fn sent_view(entry: (u64, Data)) -> (u64, DataView) {
    (entry.0, entry.1@)
}

/// The plain contents of a sequence of sent frames.
pub open spec fn sent_views(entries: Seq<(u64, Data)>) -> Seq<(u64, DataView)> {
    entries.map_values(|entry: (u64, Data)| sent_view(entry))
}

/// The plain contents of a sequence of frames.
pub open spec fn data_views(frames: Seq<Data>) -> Seq<DataView> {
    frames.map_values(|data: Data| data@)
}

/// Whether a sent frame is still unacknowledged after an ACK with number `ack_num`.
pub open spec fn spec_keep_after_ack(ack_num: u8, data: DataView) -> bool {
    frame_of(data) >= ack_num && !(ack_num == 0 && frame_of(data) == 7)
}

/// The frame number of a DATA frame.
pub fn frame_number(data: &Data) -> (res: u8)
    ensures
        res == frame_of(data@),
{
    data.frame_num().as_u8()
}

/// The sent frames whose frame number is `key`.
pub open spec fn frames_with_number(entries: Seq<(u64, DataView)>, key: u8) -> Seq<(u64, DataView)> {
    entries.filter(|entry: (u64, DataView)| frame_of(entry.1) == key)
}

/// The sent frames with frame numbers from `key` up, ordered by frame number; frames with
/// the same number keep their order.
pub open spec fn spec_sort_from(entries: Seq<(u64, DataView)>, key: nat) -> Seq<(u64, DataView)>
    decreases 8 - key,
{
    if key >= 8 {
        Seq::empty()
    } else {
        frames_with_number(entries, key as u8) + spec_sort_from(entries, key + 1)
    }
}

/// `Itertools::sorted_by_key` with the frame number as the key: a stable sort, so that
/// the result lists the frames with number 0, then those with number 1, and so on, each
/// group in its original order.
#[verifier::external_body]
fn sort_by_frame_num(entries: Vec<(u64, Data)>) -> (res: Vec<(u64, Data)>)
    ensures
        sent_views(res@) == spec_sort_from(sent_views(entries@), 0),
{
    entries.into_iter().sorted_by_key(|entry| frame_number(&entry.1)).collect()
}

/// The data frames of sent-frame entries.
pub open spec fn frames_of(entries: Seq<(u64, DataView)>) -> Seq<DataView> {
    entries.map_values(|entry: (u64, DataView)| entry.1)
}

/// Whether a frame sent at `timestamp` has waited longer than `t_rx_ack` at time `now`.
pub open spec fn spec_timed_out(now: u64, t_rx_ack: u64, timestamp: u64) -> bool {
    now >= timestamp && now - timestamp > t_rx_ack
}

/// Whether a sent frame is selected for retransmission: by timeout or by a NAK.
pub open spec fn spec_selected(
    by_timeout: bool,
    nak_num: u8,
    now: u64,
    t_rx_ack: u64,
    entry: (u64, DataView),
) -> bool {
    if by_timeout {
        spec_timed_out(now, t_rx_ack, entry.0)
    } else {
        frame_of(entry.1) >= nak_num
    }
}

/// The latest send time among the entries (zero if there are none).
pub open spec fn spec_latest(entries: Seq<(u64, DataView)>) -> u64
    decreases entries.len(),
{
    if entries.len() == 0 {
        0
    } else {
        let rest = spec_latest(entries.drop_last());
        if entries.last().0 > rest {
            entries.last().0
        } else {
            rest
        }
    }
}

/// The latest send time of a non-empty sequence of sent frames is the send time of one
/// of them and no earlier than any other.
pub proof fn lemma_latest_is_max(entries: Seq<(u64, DataView)>)
    requires
        entries.len() > 0,
    ensures
        exists|i: int| 0 <= i < entries.len() && #[trigger] entries[i].0 == spec_latest(entries),
        forall|i: int| 0 <= i < entries.len() ==> #[trigger] entries[i].0 <= spec_latest(entries),
    decreases entries.len(),
{
    let rest = entries.drop_last();
    let n = entries.len() - 1;
    if rest.len() > 0 {
        lemma_latest_is_max(rest);
        let j = choose|j: int| 0 <= j < rest.len() && #[trigger] rest[j].0 == spec_latest(rest);
        assert(entries[j] == rest[j]);
        assert forall|i: int| 0 <= i < entries.len() implies #[trigger] entries[i].0 <= spec_latest(
            entries,
        ) by {
            if i < n {
                assert(entries[i] == rest[i]);
            }
        }
    } else {
        assert(spec_latest(rest) == 0);
        assert(entries[n].0 == spec_latest(entries));
    }
    if entries.last().0 > spec_latest(rest) {
        assert(entries[n].0 == spec_latest(entries));
    }
}

/// The time, at `now`, since the latest frame was sent among those that an ACK with
/// number `ack_num` acknowledges; nothing if there is none or the clock went backwards.
pub open spec fn spec_last_ack_duration(data: Seq<(u64, DataView)>, ack_num: u8, now: u64) -> Option<
    u64,
> {
    let acked = data.filter(|entry: (u64, DataView)| frame_of(entry.1) < ack_num);
    let latest = spec_latest(acked);
    if acked.len() == 0 || now < latest {
        None
    } else {
        Some((now - latest) as u64)
    }
}

/// The plain contents of the output buffers.
pub struct OutputView {
    pub data: Seq<(u64, DataView)>,
    pub retransmit: Seq<DataView>,
    pub buffer: Seq<u8>,
}

/// The frames the host has sent and has to send again.
#[derive(Debug)]
pub struct Output {
    data: Vec<(u64, Data)>,
    retransmit: VecDeque<Data>,
    buffer: Vec<u8>,
}

impl View for Output {
    type V = OutputView;

    closed spec fn view(&self) -> OutputView {
        OutputView {
            data: sent_views(self.data@),
            retransmit: data_views(self.retransmit@),
            buffer: self.buffer@,
        }
    }
}

proof fn lemma_sent_views_remove(entries: Seq<(u64, Data)>, i: int)
    requires
        0 <= i < entries.len(),
    ensures
        sent_views(entries.remove(i)) == sent_views(entries).remove(i),
{
    assert(sent_views(entries.remove(i)) =~= sent_views(entries).remove(i));
}

proof fn lemma_filter_step<A>(s: Seq<A>, k: int, pred: spec_fn(A) -> bool)
    requires
        0 <= k < s.len(),
    ensures
        s.take(k + 1).filter(pred) == (if pred(s[k]) {
            s.take(k).filter(pred).push(s[k])
        } else {
            s.take(k).filter(pred)
        }),
{
    reveal_with_fuel(Seq::filter, 1);
    assert(s.take(k + 1).drop_last() =~= s.take(k));
}

impl Output {
    /// Creates empty buffers.
    pub fn new() -> (res: Self)
        ensures
            res@.data.len() == 0,
            res@.retransmit.len() == 0,
            res@.buffer.len() == 0,
    {
        let res = Self { data: Vec::new(), retransmit: VecDeque::new(), buffer: Vec::new() };
        assert(sent_views(res.data@) =~= Seq::<(u64, DataView)>::empty());
        assert(data_views(res.retransmit@) =~= Seq::<DataView>::empty());
        res
    }

    /// Empties all buffers.
    pub fn clear(&mut self)
        ensures
            final(self)@.data.len() == 0,
            final(self)@.retransmit.len() == 0,
            final(self)@.buffer.len() == 0,
    {
        self.data.clear();
        self.retransmit.clear();
        self.buffer.clear();
    }

    /// Removes the frames that an ACK with number `ack_num` acknowledges.
    pub fn ack_sent_data(&mut self, ack_num: u8)
        ensures
            final(self)@.data == old(self)@.data.filter(
                |entry: (u64, DataView)| spec_keep_after_ack(ack_num, entry.1),
            ),
            final(self)@.retransmit == old(self)@.retransmit,
            final(self)@.buffer == old(self)@.buffer,
    {
        let ghost orig = self@.data;
        let ghost pred = |entry: (u64, DataView)| spec_keep_after_ack(ack_num, entry.1);
        let mut i: usize = 0;
        let ghost mut k: int = 0;
        assert(orig.take(0).filter(pred) =~= Seq::<(u64, DataView)>::empty()) by {
            reveal_with_fuel(Seq::filter, 1);
        }
        assert(orig.skip(0) =~= orig);
        while i < self.data.len()
            invariant
                0 <= k <= orig.len(),
                sent_views(self.data@) == orig.take(k).filter(pred) + orig.skip(k),
                i == orig.take(k).filter(pred).len(),
                data_views(self.retransmit@) == old(self)@.retransmit,
                self.buffer@ == old(self)@.buffer,
                orig == old(self)@.data,
                pred == (|entry: (u64, DataView)| spec_keep_after_ack(ack_num, entry.1)),
            decreases orig.len() - k,
        {
            proof {
                assert(k < orig.len()) by {
                    if k >= orig.len() {
                        assert(orig.skip(k).len() == 0);
                    }
                }
                lemma_filter_step(orig, k, pred);
                assert(sent_views(self.data@)[i as int] == orig[k]);
            }
            let f = self.data[i].1.frame_num().as_u8();
            if f >= ack_num && !(ack_num == 0 && f == 7) {
                i = i + 1;
                proof {
                    assert(sent_views(self.data@) =~= orig.take(k + 1).filter(pred) + orig.skip(
                        k + 1,
                    ));
                }
            } else {
                let ghost before = self.data@;
                let _ = self.data.remove(i);
                proof {
                    lemma_sent_views_remove(before, i as int);
                    assert(sent_views(self.data@) =~= orig.take(k + 1).filter(pred) + orig.skip(
                        k + 1,
                    ));
                }
            }
            proof {
                k = k + 1;
            }
        }
        proof {
            assert(k == orig.len()) by {
                if k < orig.len() {
                    assert(sent_views(self.data@).len() > i);
                }
            }
            assert(orig.take(k) =~= orig);
            assert(orig.skip(k) =~= Seq::<(u64, DataView)>::empty());
            assert(sent_views(self.data@) =~= orig.filter(pred));
        }
    }

    /// Fills the transmit buffer with a cancel byte, the given bytes and the flag byte.
    pub fn buffer_frame(&mut self, bytes: &[u8]) -> (res: &[u8])
        ensures
            final(self)@.buffer == seq![CANCEL] + bytes@ + seq![FLAG],
            res@ == final(self)@.buffer,
            final(self)@.data == old(self)@.data,
            final(self)@.retransmit == old(self)@.retransmit,
    {
        self.buffer.clear();
        self.buffer.push(CANCEL);
        crate::packet::append_bytes(&mut self.buffer, bytes);
        self.buffer.push(FLAG);
        assert(self.buffer@ =~= seq![CANCEL] + bytes@ + seq![FLAG]);
        self.buffer.as_slice()
    }

    /// The time, at `now`, since the latest frame was sent among those that an ACK with
    /// number `ack_num` acknowledges; nothing if there is none or the clock went backwards.
    pub fn last_ack_duration(&self, ack_num: u8, now: u64) -> (res: Option<u64>)
        ensures
            res == spec_last_ack_duration(self@.data, ack_num, now),
    {
        let ghost all = self@.data;
        let ghost pred = |entry: (u64, DataView)| frame_of(entry.1) < ack_num;
        let mut found = false;
        let mut latest: u64 = 0;
        let mut i: usize = 0;
        assert(all.take(0).filter(pred) =~= Seq::<(u64, DataView)>::empty()) by {
            reveal_with_fuel(Seq::filter, 1);
        }
        while i < self.data.len()
            invariant
                i <= all.len(),
                all == self@.data,
                all == sent_views(self.data@),
                pred == (|entry: (u64, DataView)| frame_of(entry.1) < ack_num),
                found == (all.take(i as int).filter(pred).len() > 0),
                latest == spec_latest(all.take(i as int).filter(pred)),
            decreases all.len() - i,
        {
            proof {
                lemma_filter_step(all, i as int, pred);
                assert(all[i as int] == sent_view(self.data@[i as int]));
            }
            let f = self.data[i].1.frame_num().as_u8();
            if f < ack_num {
                let timestamp = self.data[i].0;
                proof {
                    let s = all.take(i as int).filter(pred).push(all[i as int]);
                    assert(s.drop_last() =~= all.take(i as int).filter(pred));
                }
                if timestamp > latest {
                    latest = timestamp;
                }
                found = true;
            }
            i = i + 1;
        }
        assert(all.take(i as int) =~= all);
        if found && now >= latest {
            Some(now - latest)
        } else {
            None
        }
    }

    /// Takes the next frame queued for retransmission.
    pub fn pop_retransmit(&mut self) -> (res: Option<Data>)
        ensures
            old(self)@.retransmit.len() == 0 ==> res is None && final(self)@ == old(self)@,
            old(self)@.retransmit.len() > 0 ==> (res matches Some(data) && data@ == old(self)@.retransmit[0]),
            old(self)@.retransmit.len() > 0 ==> final(self)@.retransmit == old(self)@.retransmit.drop_first(),
            final(self)@.data == old(self)@.data,
            final(self)@.buffer == old(self)@.buffer,
    {
        let ghost before = self.retransmit@;
        let res = self.retransmit.pop_front();
        proof {
            if before.len() > 0 {
                assert(data_views(self.retransmit@) =~= data_views(before).drop_first());
            }
        }
        res
    }

    /// Records a frame sent at `timestamp`.
    pub fn push_data(&mut self, data: Data, timestamp: u64)
        ensures
            final(self)@.data == old(self)@.data.push((timestamp, data@)),
            final(self)@.retransmit == old(self)@.retransmit,
            final(self)@.buffer == old(self)@.buffer,
    {
        self.data.push((timestamp, data));
        assert(sent_views(self.data@) =~= old(self)@.data.push((timestamp, data@)));
    }

    /// Whether another frame may be sent before older ones are acknowledged.
    pub fn queue_not_full(&self) -> (res: bool)
        ensures
            res == (self@.data.len() < ACK_TIMEOUTS),
    {
        self.data.len() < ACK_TIMEOUTS
    }

    /// Whether no frame awaits acknowledgement or retransmission.
    pub fn queues_are_empty(&self) -> (res: bool)
        ensures
            res == (self@.data.len() == 0 && self@.retransmit.len() == 0),
    {
        self.data.len() == 0 && self.retransmit.len() == 0
    }

    /// Moves the sent frames that satisfy `pred` out of the sent frames, in order.
    fn extract_frames(&mut self, nak_num: u8, now: u64, t_rx_ack: u64, by_timeout: bool) -> (res:
        Vec<(u64, Data)>)
        ensures
            sent_views(res@) == old(self)@.data.filter(
                |entry: (u64, DataView)| spec_selected(by_timeout, nak_num, now, t_rx_ack, entry),
            ),
            final(self)@.data == old(self)@.data.filter(
                |entry: (u64, DataView)| !spec_selected(by_timeout, nak_num, now, t_rx_ack, entry),
            ),
            final(self)@.retransmit == old(self)@.retransmit,
            final(self)@.buffer == old(self)@.buffer,
    {
        let ghost orig = self@.data;
        let ghost pred = |entry: (u64, DataView)|
            spec_selected(by_timeout, nak_num, now, t_rx_ack, entry);
        let ghost npred = |entry: (u64, DataView)|
            !spec_selected(by_timeout, nak_num, now, t_rx_ack, entry);
        let mut extracted: Vec<(u64, Data)> = Vec::new();
        let mut i: usize = 0;
        let ghost mut k: int = 0;
        assert(orig.take(0).filter(pred) =~= Seq::<(u64, DataView)>::empty()) by {
            reveal_with_fuel(Seq::filter, 1);
        }
        assert(orig.take(0).filter(npred) =~= Seq::<(u64, DataView)>::empty()) by {
            reveal_with_fuel(Seq::filter, 1);
        }
        assert(orig.skip(0) =~= orig);
        assert(sent_views(extracted@) =~= Seq::<(u64, DataView)>::empty());
        while i < self.data.len()
            invariant
                0 <= k <= orig.len(),
                sent_views(self.data@) == orig.take(k).filter(npred) + orig.skip(k),
                i == orig.take(k).filter(npred).len(),
                sent_views(extracted@) == orig.take(k).filter(pred),
                data_views(self.retransmit@) == old(self)@.retransmit,
                self.buffer@ == old(self)@.buffer,
                orig == old(self)@.data,
                pred == (|entry: (u64, DataView)|
                    spec_selected(by_timeout, nak_num, now, t_rx_ack, entry)),
                npred == (|entry: (u64, DataView)|
                    !spec_selected(by_timeout, nak_num, now, t_rx_ack, entry)),
            decreases orig.len() - k,
        {
            proof {
                assert(k < orig.len()) by {
                    if k >= orig.len() {
                        assert(orig.skip(k).len() == 0);
                    }
                }
                lemma_filter_step(orig, k, pred);
                lemma_filter_step(orig, k, npred);
                assert(sent_views(self.data@)[i as int] == orig[k]);
            }
            let timestamp = self.data[i].0;
            let f = self.data[i].1.frame_num().as_u8();
            let selected = if by_timeout {
                now >= timestamp && now - timestamp > t_rx_ack
            } else {
                f >= nak_num
            };
            if selected {
                let ghost before = self.data@;
                let entry = self.data.remove(i);
                let ghost before_extracted = extracted@;
                extracted.push(entry);
                proof {
                    lemma_sent_views_remove(before, i as int);
                    assert(sent_views(extracted@) =~= sent_views(before_extracted).push(orig[k]));
                    assert(sent_views(self.data@) =~= orig.take(k + 1).filter(npred) + orig.skip(
                        k + 1,
                    ));
                }
            } else {
                i = i + 1;
                proof {
                    assert(sent_views(self.data@) =~= orig.take(k + 1).filter(npred) + orig.skip(
                        k + 1,
                    ));
                }
            }
            proof {
                k = k + 1;
            }
        }
        proof {
            assert(k == orig.len()) by {
                if k < orig.len() {
                    assert(sent_views(self.data@).len() > i);
                }
            }
            assert(orig.take(k) =~= orig);
            assert(orig.skip(k) =~= Seq::<(u64, DataView)>::empty());
            assert(sent_views(self.data@) =~= orig.filter(npred));
        }
        extracted
    }

    /// Appends the frames of the given entries to the retransmission queue.
    fn queue_for_retransmit(&mut self, entries: Vec<(u64, Data)>)
        ensures
            final(self)@.retransmit == old(self)@.retransmit + frames_of(sent_views(entries@)),
            final(self)@.data == old(self)@.data,
            final(self)@.buffer == old(self)@.buffer,
    {
        let mut entries = entries;
        let ghost orig = entries@;
        let ghost mut j: int = 0;
        assert(orig.skip(0) =~= orig);
        assert(frames_of(sent_views(orig.take(0))) =~= Seq::<DataView>::empty());
        while entries.len() > 0
            invariant
                0 <= j <= orig.len(),
                entries@ == orig.skip(j),
                data_views(self.retransmit@) == old(self)@.retransmit + frames_of(
                    sent_views(orig.take(j)),
                ),
                self@.data == old(self)@.data,
                self@.buffer == old(self)@.buffer,
            decreases entries@.len(),
        {
            let ghost before = self.retransmit@;
            let entry = entries.remove(0);
            self.retransmit.push_back(entry.1);
            proof {
                assert(entry == orig[j]);
                assert(entries@ =~= orig.skip(j + 1));
                assert(orig.take(j + 1) =~= orig.take(j).push(orig[j]));
                assert(data_views(self.retransmit@) =~= data_views(before).push(entry.1@));
                assert(frames_of(sent_views(orig.take(j + 1))) =~= frames_of(
                    sent_views(orig.take(j)),
                ).push(entry.1@));
                j = j + 1;
            }
        }
        proof {
            assert(j == orig.len()) by {
                if j < orig.len() {
                    assert(orig.skip(j).len() > 0);
                }
            }
            assert(orig.take(j) =~= orig);
        }
    }

    /// Queues for retransmission, ordered by frame number, the sent frames that a NAK
    /// with number `nak_num` rejects: those with a frame number of at least `nak_num`.
    pub fn queue_retransmit_nak(&mut self, nak_num: u8)
        ensures
            final(self)@.data == old(self)@.data.filter(
                |entry: (u64, DataView)| !(frame_of(entry.1) >= nak_num),
            ),
            final(self)@.retransmit == old(self)@.retransmit + frames_of(
                spec_sort_from(
                    old(self)@.data.filter(|entry: (u64, DataView)| frame_of(entry.1) >= nak_num),
                    0,
                ),
            ),
            final(self)@.buffer == old(self)@.buffer,
    {
        let ghost d = self@.data;
        let extracted = self.extract_frames(nak_num, 0, 0, false);
        let sorted = sort_by_frame_num(extracted);
        self.queue_for_retransmit(sorted);
        proof {
            let a = |entry: (u64, DataView)| spec_selected(false, nak_num, 0, 0, entry);
            let b = |entry: (u64, DataView)| frame_of(entry.1) >= nak_num;
            assert(a =~= b);
            assert(d.filter(a) == d.filter(b));
            let na = |entry: (u64, DataView)| !spec_selected(false, nak_num, 0, 0, entry);
            let nb = |entry: (u64, DataView)| !(frame_of(entry.1) >= nak_num);
            assert(na =~= nb);
            assert(d.filter(na) == d.filter(nb));
        }
    }

    /// Queues for retransmission, in the order they were sent, the frames that have
    /// waited longer than `t_rx_ack` at time `now`; tells whether there were any.
    pub fn queue_retransmit_timeout(&mut self, t_rx_ack: u64, now: u64) -> (res: bool)
        ensures
            ({
                let timed_out = old(self)@.data.filter(
                    |entry: (u64, DataView)| spec_timed_out(now, t_rx_ack, entry.0),
                );
                &&& final(self)@.data == old(self)@.data.filter(
                    |entry: (u64, DataView)| !spec_timed_out(now, t_rx_ack, entry.0),
                )
                &&& final(self)@.retransmit == old(self)@.retransmit + frames_of(timed_out)
                &&& res == (timed_out.len() > 0)
            }),
            final(self)@.buffer == old(self)@.buffer,
    {
        let ghost d = self@.data;
        let extracted = self.extract_frames(0, now, t_rx_ack, true);
        let any = extracted.len() > 0;
        self.queue_for_retransmit(extracted);
        proof {
            let a = |entry: (u64, DataView)| spec_selected(true, 0, now, t_rx_ack, entry);
            let b = |entry: (u64, DataView)| spec_timed_out(now, t_rx_ack, entry.0);
            assert(a =~= b);
            assert(d.filter(a) == d.filter(b));
            let na = |entry: (u64, DataView)| !spec_selected(true, 0, now, t_rx_ack, entry);
            let nb = |entry: (u64, DataView)| !spec_timed_out(now, t_rx_ack, entry.0);
            assert(na =~= nb);
            assert(d.filter(na) == d.filter(nb));
        }
        any
    }
}

impl Default for Output {
    fn default() -> (res: Self)
        ensures
            res@.data.len() == 0,
            res@.retransmit.len() == 0,
            res@.buffer.len() == 0,
    {
        Self::new()
    }
}

} // verus!
