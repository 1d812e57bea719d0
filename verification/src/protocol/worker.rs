//! The decisions of the host's link worker: how each frame from the NCP changes the
//! link state and the buffers, and which frames the host sends in return.
//!
//! The worker does no I/O. The frames it decides to send are queued, already encoded for
//! the wire, and handed out by [`Worker::take_outgoing`]; the caller writes them to the
//! serial port in order, and supplies the current time where a decision depends on it.
use crate::buffers::{payload_from_slice, MAX_PAYLOAD_SIZE};
use crate::crc::spec_crc;
use crate::error::{Error, FrameError};
use crate::packet::headers;
use crate::packet::lemma_packet_roundtrip;
use crate::packet::nak::HEADER_PREFIX;
use crate::packet::{hi_byte, lo_byte, Ack, Data, DataView, Nak, Packet, PacketView, Rst, RstAck};
use crate::protocol::buffers::Buffers;
use crate::protocol::control_byte::{CANCEL, ESCAPE, FLAG, SUBSTITUTE, WAKE, X_OFF, X_ON};
use crate::protocol::input::{spec_received_bytes, InputView};
use crate::protocol::output::{
    frame_of, frames_of, lemma_latest_is_max, spec_keep_after_ack, spec_last_ack_duration,
    spec_latest, spec_timed_out, OutputView, ACK_TIMEOUTS,
};
use crate::protocol::randomization::spec_masked;
use crate::protocol::state::{
    spec_ack_number, spec_next_t_rx_ack, State, StateView, T_RX_ACK_MAX, T_RX_ACK_MIN,
};
use crate::protocol::stuffing::{
    is_reserved, lemma_stuff_len, lemma_stuffed_bytes, lemma_unstuff_stuff, spec_stuff,
    spec_unstuff, stuff_byte, stuffed,
};
use crate::seq_num::{wrap3, SeqNum};
use crate::write_frame::{lemma_packet_bytes_len, spec_encode};
use vstd::prelude::*;

verus! {

/// The bytes of a frame that consists of a header byte and its checksum.
pub open spec fn header_only_bytes(header: u8) -> Seq<u8> {
    seq![header, hi_byte(spec_crc(seq![header])), lo_byte(spec_crc(seq![header]))]
}

/// The wire bytes of the ACK frame with number `ack_num` and the ready flag set.
pub open spec fn ack_frame(ack_num: u8) -> Seq<u8> {
    spec_encode(header_only_bytes(headers::spec_ack_bits(ack_num, false, false)))
}

/// The wire bytes of the NAK frame with number `ack_num`.
pub open spec fn nak_frame(ack_num: u8) -> Seq<u8> {
    spec_encode(header_only_bytes((HEADER_PREFIX + ack_num % 8) as u8))
}

/// The wire bytes of a DATA frame.
pub open spec fn data_frame(data: DataView) -> Seq<u8> {
    spec_encode(data.spec_bytes())
}

/// The ACK number carried by a DATA frame.
pub open spec fn ack_of(data: DataView) -> u8 {
    data.header & 0x07u8
}

/// Whether a DATA frame has its retransmission flag set.
pub open spec fn is_retransmitted(data: DataView) -> bool {
    data.header & 0x08u8 != 0
}

/// The plain contents of a worker.
pub struct WorkerView {
    pub state: StateView,
    pub input: InputView,
    pub output: OutputView,
    /// The encoded frames decided on and not yet handed out, oldest first.
    pub outgoing: Seq<Seq<u8>>,
    /// Whether a SUBSTITUTE byte has marked the frame being read as corrupt.
    pub rx_error: bool,
}

/// The acknowledgement timeout to set after an ACK with number `ack_num` at time
/// `now`: the adapted timeout if the ACK acknowledges a frame sent before.
pub open spec fn spec_ack_timeout(w: WorkerView, ack_num: u8, now: u64) -> Option<u64> {
    match spec_last_ack_duration(w.output.data, ack_num, now) {
        Some(duration) => Some(spec_next_t_rx_ack(w.state.t_rx_ack, Some(duration))),
        None => None,
    }
}

/// The worker after an ACK with number `ack_num` at time `now`: the timeout adapts to
/// the time the acknowledged frames took, and the acknowledged frames are dropped.
pub open spec fn spec_ack_sent(w: WorkerView, ack_num: u8, now: u64) -> WorkerView {
    WorkerView {
        state: match spec_ack_timeout(w, ack_num, now) {
            Some(t_rx_ack) => StateView { t_rx_ack, ..w.state },
            None => w.state,
        },
        output: OutputView {
            data: w.output.data.filter(
                |entry: (u64, DataView)| spec_keep_after_ack(ack_num, entry.1),
            ),
            ..w.output
        },
        ..w
    }
}

/// The worker after sending a NAK for the last frame received in sequence, if any.
pub open spec fn spec_send_nak(w: WorkerView) -> WorkerView {
    match w.state.last_received_frame_number {
        Some(n) => WorkerView { outgoing: w.outgoing.push(nak_frame(n)), ..w },
        None => w,
    }
}

/// The worker after entering the reject condition.
pub open spec fn spec_reject(w: WorkerView) -> WorkerView {
    spec_send_nak(WorkerView { state: StateView { reject: true, ..w.state }, ..w })
}

/// The worker after a DATA frame received at time `now`:
/// - the frame expected next leaves the reject condition, becomes the last frame
///   received, acknowledges the host's frames up to its ACK number and is stored;
/// - a retransmitted frame acknowledges and is stored;
/// - any other frame is out of sequence and sets the reject condition, with a NAK,
///   unless it is set already.
pub open spec fn spec_process_data(w: WorkerView, data: DataView, now: u64) -> WorkerView {
    if frame_of(data) == spec_ack_number(w.state.last_received_frame_number) {
        let w1 = WorkerView {
            state: StateView {
                reject: false,
                last_received_frame_number: Some(frame_of(data)),
                ..w.state
            },
            ..w
        };
        let w2 = spec_ack_sent(w1, ack_of(data), now);
        WorkerView { input: InputView { data: w2.input.data.push(data), ..w2.input }, ..w2 }
    } else if is_retransmitted(data) {
        let w2 = spec_ack_sent(w, ack_of(data), now);
        WorkerView { input: InputView { data: w2.input.data.push(data), ..w2.input }, ..w2 }
    } else if !w.state.reject {
        spec_reject(w)
    } else {
        w
    }
}

/// The acknowledgement timeout to set after a DATA frame received at time `now`.
pub open spec fn spec_data_timeout(w: WorkerView, data: DataView, now: u64) -> Option<u64> {
    if frame_of(data) == spec_ack_number(w.state.last_received_frame_number) || is_retransmitted(
        data,
    ) {
        spec_ack_timeout(w, ack_of(data), now)
    } else {
        None
    }
}

/// What the caller has to do after a frame was handled.
#[derive(Clone, Copy, Debug, PartialEq, Eq, Structural)]
pub enum Reaction {
    /// Nothing beyond sending the queued frames.
    Continue,
    /// Set the read timeout of the serial port to this many nanoseconds.
    SetTimeout(u64),
    /// The NCP reported an error: reset the connection.
    Reset,
}

/// The reaction to an acknowledgement timeout that may have changed.
pub open spec fn spec_timeout_reaction(timeout: Option<u64>) -> Reaction {
    match timeout {
        Some(t) => Reaction::SetTimeout(t),
        None => Reaction::Continue,
    }
}

/// The worker after a received frame, or after a frame that could not be read or had a
/// wrong checksum (`None`), at time `now`, with the caller's reaction.
pub open spec fn spec_handle_packet(w: WorkerView, packet: Option<PacketView>, now: u64) -> (
    WorkerView,
    Reaction,
) {
    match packet {
        None => (spec_send_nak(w), Reaction::Continue),
        Some(PacketView::Ack(ack)) => (
            spec_ack_sent(w, ack.header@ % 8, now),
            spec_timeout_reaction(spec_ack_timeout(w, ack.header@ % 8, now)),
        ),
        Some(PacketView::Data(data)) => (
            spec_process_data(w, data, now),
            spec_timeout_reaction(spec_data_timeout(w, data, now)),
        ),
        Some(PacketView::Error(_)) => (w, Reaction::Reset),
        Some(PacketView::Nak(nak)) => (
            WorkerView {
                output: OutputView {
                    data: w.output.data.filter(
                        |entry: (u64, DataView)| !(frame_of(entry.1) >= nak.header % 8),
                    ),
                    retransmit: w.output.retransmit + crate::protocol::output::frames_of(
                        crate::protocol::output::spec_sort_from(
                            w.output.data.filter(
                                |entry: (u64, DataView)| frame_of(entry.1) >= nak.header % 8,
                            ),
                            0,
                        ),
                    ),
                    ..w.output
                },
                ..w
            },
            Reaction::Continue,
        ),
        Some(PacketView::Rst(_)) => (w, Reaction::Continue),
        Some(PacketView::RstAck(_)) => (
            WorkerView { state: StateView { may_transmit: true, ..w.state }, ..w },
            Reaction::Continue,
        ),
    }
}

/// The plain contents of a frame that may be missing.
pub open spec fn opt_packet_view(packet: Option<Packet>) -> Option<PacketView> {
    match packet {
        Some(p) => Some(p@),
        None => None,
    }
}

/// A DATA frame as retransmitted: the retransmission flag set and the checksum
/// recomputed.
pub open spec fn spec_retransmitted(data: DataView) -> DataView {
    DataView {
        header: data.header | 0x08u8,
        payload: data.payload,
        crc: spec_crc(seq![data.header | 0x08u8] + data.payload),
    }
}

/// The worker after sending a DATA frame at time `now`: the frame is queued for the wire
/// and recorded as awaiting acknowledgement.
pub open spec fn spec_send_data(w: WorkerView, data: DataView, now: u64) -> WorkerView {
    WorkerView {
        output: OutputView { data: w.output.data.push((now, data)), ..w.output },
        outgoing: w.outgoing.push(data_frame(data)),
        ..w
    }
}

/// The number of frames that may still be sent before older ones are acknowledged.
pub open spec fn spec_free_slots(w: WorkerView) -> int {
    if w.output.data.len() >= ACK_TIMEOUTS {
        0
    } else {
        ACK_TIMEOUTS - w.output.data.len()
    }
}

/// The number of queued frames that a retransmission round sends.
pub open spec fn spec_retransmit_count(w: WorkerView) -> int {
    if w.output.retransmit.len() < spec_free_slots(w) {
        w.output.retransmit.len() as int
    } else {
        spec_free_slots(w)
    }
}

/// The worker after a retransmission round at time `now`: the first queued frames, as
/// many as there are free slots, are sent again with the retransmission flag set.
pub open spec fn spec_retransmit(w: WorkerView, now: u64) -> WorkerView {
    let k = spec_retransmit_count(w);
    let sent = w.output.retransmit.take(k).map_values(|d: DataView| spec_retransmitted(d));
    WorkerView {
        output: OutputView {
            data: w.output.data + sent.map_values(|d: DataView| (now, d)),
            retransmit: w.output.retransmit.skip(k),
            ..w.output
        },
        outgoing: w.outgoing + sent.map_values(|d: DataView| data_frame(d)),
        ..w
    }
}

/// The DATA frame made from a chunk of payload, with the given frame and ACK numbers:
/// the payload is masked and the checksum computed.
pub open spec fn spec_new_data(frame_num: u8, chunk: Seq<u8>, ack_num: u8) -> DataView {
    let header = headers::spec_data_bits(frame_num % 8, false, ack_num % 8);
    DataView {
        header,
        payload: spec_masked(chunk),
        crc: spec_crc(seq![header] + spec_masked(chunk)),
    }
}

/// The worker after sending a chunk of payload at time `now` in a new DATA frame, which
/// takes the next frame number.
pub open spec fn spec_send_chunk(w: WorkerView, chunk: Seq<u8>, now: u64) -> WorkerView {
    let data = spec_new_data(
        w.state.frame_number,
        chunk,
        spec_ack_number(w.state.last_received_frame_number),
    );
    spec_send_data(
        WorkerView {
            state: StateView { frame_number: wrap3(w.state.frame_number + 1), ..w.state },
            ..w
        },
        data,
        now,
    )
}

/// The worker after sending chunks of payload at time `now`, taken from the end of the
/// list while there are free slots, with the chunks left and the outcome: a chunk too
/// large for a DATA frame ends the round with an error, and is dropped.
pub open spec fn spec_push_chunks(w: WorkerView, chunks: Seq<Seq<u8>>, now: u64) -> (
    WorkerView,
    Seq<Seq<u8>>,
    Result<(), Error>,
)
    decreases chunks.len(),
{
    if spec_free_slots(w) == 0 || chunks.len() == 0 {
        (w, chunks, Ok(()))
    } else if chunks.last().len() > MAX_PAYLOAD_SIZE {
        (
            w,
            chunks.drop_last(),
            Err(
                Error::Frame(
                    FrameError::PayloadTooLarge {
                        max: MAX_PAYLOAD_SIZE,
                        found: chunks.last().len() as usize,
                    },
                ),
            ),
        )
    } else {
        spec_push_chunks(spec_send_chunk(w, chunks.last(), now), chunks.drop_last(), now)
    }
}

/// The sent frames that have waited longer than the acknowledgement timeout at `now`.
pub open spec fn spec_timed_out_frames(w: WorkerView, now: u64) -> Seq<(u64, DataView)> {
    w.output.data.filter(|entry: (u64, DataView)| spec_timed_out(now, w.state.t_rx_ack, entry.0))
}

/// The worker after checking for timeouts at `now`: the frames that have waited longer
/// than the acknowledgement timeout are queued for retransmission in the order they were
/// sent, and if there were any, the timeout doubles.
pub open spec fn spec_queue_retransmit_timeout(w: WorkerView, now: u64) -> WorkerView {
    let timed_out = spec_timed_out_frames(w, now);
    WorkerView {
        state: if timed_out.len() > 0 {
            StateView { t_rx_ack: spec_next_t_rx_ack(w.state.t_rx_ack, None), ..w.state }
        } else {
            w.state
        },
        output: OutputView {
            data: w.output.data.filter(
                |entry: (u64, DataView)| !spec_timed_out(now, w.state.t_rx_ack, entry.0),
            ),
            retransmit: w.output.retransmit + frames_of(timed_out),
            ..w.output
        },
        ..w
    }
}

/// The worker after sending ACK frames for the ACK numbers still to be sent, in order.
pub open spec fn spec_send_pending_acks(w: WorkerView) -> WorkerView {
    let acks = spec_pending_acks(w.state);
    WorkerView {
        state: if acks.len() > 0 {
            StateView { last_sent_ack: acks.last(), ..w.state }
        } else {
            w.state
        },
        outgoing: w.outgoing + acks.map_values(|n: u8| ack_frame(n)),
        ..w
    }
}

/// The sending part of a round of a transaction at time `now`: timed-out frames are
/// queued for retransmission; then, if the NCP allows transmission, the queued frames are
/// retransmitted and further chunks sent. With the chunks left and the outcome.
pub open spec fn spec_transmit_step(w: WorkerView, chunks: Seq<Seq<u8>>, now: u64) -> (
    WorkerView,
    Seq<Seq<u8>>,
    Result<(), Error>,
) {
    let checked = spec_queue_retransmit_timeout(w, now);
    if checked.state.may_transmit {
        spec_push_chunks(spec_retransmit(checked, now), chunks, now)
    } else {
        (checked, chunks, Ok(()))
    }
}

/// The closing part of a round of a transaction, after a received frame was handled:
/// in the reject condition a NAK is sent; otherwise the pending ACKs are sent, and the
/// transaction is complete, with the payload received, once no chunk is left and no
/// frame awaits acknowledgement or retransmission.
pub open spec fn spec_finish_step(w: WorkerView, chunks: Seq<Seq<u8>>) -> (
    WorkerView,
    Option<Seq<u8>>,
) {
    if w.state.reject {
        (spec_send_nak(w), None)
    } else {
        let acked = spec_send_pending_acks(w);
        if chunks.len() == 0 && acked.output.data.len() == 0 && acked.output.retransmit.len()
            == 0 {
            (acked, Some(spec_received_bytes(acked.input.data)))
        } else {
            (acked, None)
        }
    }
}

/// The ACK numbers still to be sent: from the one after the last ACK sent up to the
/// current ACK number, none if that range would wrap around.
pub open spec fn spec_pending_acks(state: StateView) -> Seq<u8> {
    let first = wrap3(state.last_sent_ack + 1);
    let last = spec_ack_number(state.last_received_frame_number);
    if first == 0 && last == 7 || first > last {
        Seq::empty()
    } else {
        Seq::new((last - first + 1) as nat, |i: int| (first + i) as u8)
    }
}


/// The state a retransmission round ends in, once `j` frames went out.
proof fn lemma_retransmit_view(w: WorkerView, now: u64, j: int)
    requires
        j == spec_retransmit_count(w),
    ensures
        ({
            let r = w.output.retransmit;
            spec_retransmit(w, now) == (WorkerView {
                output: OutputView {
                    data: w.output.data + r.take(j).map_values(
                        |d: DataView| (now, spec_retransmitted(d)),
                    ),
                    retransmit: r.skip(j),
                    ..w.output
                },
                outgoing: w.outgoing + r.take(j).map_values(
                    |d: DataView| data_frame(spec_retransmitted(d)),
                ),
                ..w
            })
        }),
{
    let r = w.output.retransmit;
    let sent = r.take(j).map_values(|d: DataView| spec_retransmitted(d));
    assert(sent.map_values(|d: DataView| (now, d)) =~= r.take(j).map_values(
        |d: DataView| (now, spec_retransmitted(d)),
    ));
    assert(sent.map_values(|d: DataView| data_frame(d)) =~= r.take(j).map_values(
        |d: DataView| data_frame(spec_retransmitted(d)),
    ));
}

/// The worker after a byte read from the serial port, with the unstuffed bytes of the
/// frame that the byte completes, if any:
/// - CANCEL discards the frame being read;
/// - FLAG completes the frame being read unless it is empty or marked corrupt, in which
///   case it is discarded;
/// - SUBSTITUTE marks the frame being read as corrupt;
/// - XON allows and XOFF stops transmission;
/// - WAKE is ignored;
/// - any other byte is added to the frame being read.
pub open spec fn spec_receive_byte(w: WorkerView, byte: u8) -> (WorkerView, Option<Seq<u8>>) {
    let cleared = WorkerView {
        input: InputView { buffer: Seq::empty(), ..w.input },
        rx_error: false,
        ..w
    };
    if byte == CANCEL {
        (cleared, None)
    } else if byte == FLAG {
        if !w.rx_error && w.input.buffer.len() > 0 {
            (cleared, Some(spec_unstuff(w.input.buffer)))
        } else {
            (cleared, None)
        }
    } else if byte == SUBSTITUTE {
        (WorkerView { rx_error: true, ..w }, None)
    } else if byte == X_ON {
        (WorkerView { state: StateView { may_transmit: true, ..w.state }, ..w }, None)
    } else if byte == X_OFF {
        (WorkerView { state: StateView { may_transmit: false, ..w.state }, ..w }, None)
    } else if byte == WAKE {
        (w, None)
    } else {
        (WorkerView { input: InputView { buffer: w.input.buffer.push(byte), ..w.input }, ..w }, None)
    }
}

/// The worker after reading bytes until one completes a frame, with that frame's unstuffed
/// bytes, if any.
pub open spec fn spec_receive_bytes(w: WorkerView, bytes: Seq<u8>) -> (WorkerView, Option<Seq<u8>>)
    decreases bytes.len(),
{
    if bytes.len() == 0 {
        (w, None)
    } else {
        let (next, frame) = spec_receive_byte(w, bytes[0]);
        if frame is Some {
            (next, frame)
        } else {
            spec_receive_bytes(next, bytes.drop_first())
        }
    }
}

/// Whether a frame received while waiting for the NCP to acknowledge a reset ends the
/// wait: an RSTACK frame does, of any version; any other frame, or none, does not.
pub open spec fn spec_reset_acknowledged(packet: Option<PacketView>) -> bool {
    packet matches Some(PacketView::RstAck(_))
}

/// The link state and buffers of the host, with the frames it has decided to send.
#[derive(Debug)]
pub struct Worker {
    state: State,
    buffers: Buffers,
    outgoing: Vec<Vec<u8>>,
    rx_error: bool,
}

/// The plain contents of a list of encoded frames.
pub open spec fn frames_view(frames: Seq<Vec<u8>>) -> Seq<Seq<u8>> {
    frames.map_values(|frame: Vec<u8>| frame@)
}

impl View for Worker {
    type V = WorkerView;

    closed spec fn view(&self) -> WorkerView {
        WorkerView {
            state: self.state@,
            input: self.buffers.input@,
            output: self.buffers.output@,
            outgoing: frames_view(self.outgoing@),
            rx_error: self.rx_error,
        }
    }
}

impl Worker {
    /// Creates a worker for a new connection, with empty buffers.
    pub fn new() -> (res: Self)
        ensures
            res@.state == State::default_view(),
            res@.input.data.len() == 0,
            res@.input.buffer.len() == 0,
            res@.output.data.len() == 0,
            res@.output.retransmit.len() == 0,
            res@.output.buffer.len() == 0,
            res@.outgoing.len() == 0,
            !res@.rx_error,
    {
        let res = Self {
            state: State::default(),
            buffers: Buffers::new(),
            outgoing: Vec::new(),
            rx_error: false,
        };
        assert(frames_view(res.outgoing@) =~= Seq::<Seq<u8>>::empty());
        res
    }

    /// The link state.
    pub fn state(&self) -> (res: &State)
        ensures
            res@ == self@.state,
    {
        &self.state
    }

    /// Hands out the encoded frames decided on so far, oldest first.
    pub fn take_outgoing(&mut self) -> (res: Vec<Vec<u8>>)
        ensures
            frames_view(res@) == old(self)@.outgoing,
            final(self)@ == (WorkerView { outgoing: Seq::empty(), ..old(self)@ }),
    {
        let mut res: Vec<Vec<u8>> = Vec::new();
        core::mem::swap(&mut res, &mut self.outgoing);
        assert(frames_view(self.outgoing@) =~= Seq::<Seq<u8>>::empty());
        res
    }

    /// Handles a byte read from the serial port; returns the unstuffed bytes of the frame
    /// that it completes, if any.
    pub fn receive_byte(&mut self, byte: u8) -> (res: Option<Vec<u8>>)
        ensures
            ({
                let (w, frame) = spec_receive_byte(old(self)@, byte);
                &&& final(self)@ == w
                &&& match res {
                    Some(bytes) => frame == Some(bytes@),
                    None => frame is None,
                }
            }),
    {
        if byte == CANCEL {
            self.buffers.input.clear_buffer();
            self.rx_error = false;
            assert(self@.input.buffer =~= Seq::<u8>::empty());
            None
        } else if byte == FLAG {
            let complete = !self.rx_error && self.buffers.input.buffer().len() > 0;
            let frame = if complete {
                Some(self.buffers.input.frame_bytes())
            } else {
                None
            };
            self.buffers.input.clear_buffer();
            self.rx_error = false;
            proof {
                assert(self@.input.buffer =~= Seq::<u8>::empty());
            }
            frame
        } else if byte == SUBSTITUTE {
            self.rx_error = true;
            None
        } else if byte == X_ON {
            self.state.set_may_transmit(true);
            None
        } else if byte == X_OFF {
            self.state.set_may_transmit(false);
            None
        } else if byte == WAKE {
            None
        } else {
            self.buffers.input.push_byte(byte);
            None
        }
    }

    /// Queues a frame for sending: its bytes, stuffed, then the flag byte.
    fn send_frame(&mut self, packet: &Packet)
        ensures
            final(self)@ == (WorkerView {
                outgoing: old(self)@.outgoing.push(spec_encode(packet@.spec_bytes())),
                ..old(self)@
            }),
    {
        let bytes = packet.bytes();
        let mut frame = stuffed(bytes.as_slice());
        frame.push(FLAG);
        assert(frame@ =~= spec_encode(packet@.spec_bytes()));
        let ghost before = self.outgoing@;
        self.outgoing.push(frame);
        assert(frames_view(self.outgoing@) =~= frames_view(before).push(
            spec_encode(packet@.spec_bytes()),
        ));
    }

    /// Queues an ACK frame with number `ack_num` and records it as the last ACK sent.
    pub fn send_ack(&mut self, ack_num: u8)
        ensures
            final(self)@ == (WorkerView {
                state: StateView { last_sent_ack: ack_num, ..old(self)@.state },
                outgoing: old(self)@.outgoing.push(ack_frame(ack_num)),
                ..old(self)@
            }),
    {
        let ack = Ack::from_ack_num(ack_num);
        assert(PacketView::Ack(ack).spec_bytes() =~= header_only_bytes(
            headers::spec_ack_bits(ack_num, false, false),
        ));
        self.send_frame(&Packet::Ack(ack));
        self.state.set_last_sent_ack(ack_num);
    }

    /// Queues a NAK frame for the last frame received in sequence, if there is one.
    pub fn send_nak(&mut self)
        ensures
            final(self)@ == spec_send_nak(old(self)@),
    {
        match self.state.last_received_frame_number() {
            Some(last_received_frame_number) => {
                let nak = Nak::from_ack_num(last_received_frame_number);
                assert(PacketView::Nak(nak).spec_bytes() =~= header_only_bytes(
                    (HEADER_PREFIX + last_received_frame_number % 8) as u8,
                ));
                self.send_frame(&Packet::Nak(nak));
            },
            None => {},
        }
    }

    /// Enters the reject condition and queues a NAK.
    pub fn reject(&mut self)
        ensures
            final(self)@ == spec_reject(old(self)@),
    {
        self.state.set_rejecting(true);
        self.send_nak();
    }

    /// Drops the sent frames that an ACK with number `ack_num` acknowledges at time
    /// `now`, adapting the acknowledgement timeout to the time they took; returns the
    /// new timeout if it was adapted.
    pub fn ack_sent_data(&mut self, ack_num: u8, now: u64) -> (res: Option<u64>)
        ensures
            final(self)@ == spec_ack_sent(old(self)@, ack_num, now),
            res == spec_ack_timeout(old(self)@, ack_num, now),
    {
        let res = match self.buffers.output.last_ack_duration(ack_num, now) {
            Some(duration) => {
                self.state.update_t_rx_ack(Some(duration));
                Some(self.state.t_rx_ack())
            },
            None => None,
        };
        self.buffers.output.ack_sent_data(ack_num);
        res
    }

    /// Handles an ACK frame received at time `now`.
    pub fn process_ack(&mut self, ack: &Ack, now: u64) -> (res: Option<u64>)
        ensures
            final(self)@ == spec_ack_sent(old(self)@, ack.header@ % 8, now),
            res == spec_ack_timeout(old(self)@, ack.header@ % 8, now),
    {
        self.ack_sent_data(ack.ack_num(), now)
    }

    /// Handles a DATA frame received at time `now`; returns the new acknowledgement
    /// timeout if it was adapted.
    pub fn process_data(&mut self, data: Data, now: u64) -> (res: Option<u64>)
        ensures
            final(self)@ == spec_process_data(old(self)@, data@, now),
            res == spec_data_timeout(old(self)@, data@, now),
    {
        let frame_num = data.frame_num().as_u8();
        let ack_num = data.ack_num().as_u8();
        if frame_num == self.state.ack_number() {
            self.state.set_rejecting(false);
            self.state.set_last_received_frame_number(frame_num);
            let res = self.ack_sent_data(ack_num, now);
            self.buffers.input.push_data(data);
            res
        } else if data.is_retransmission() {
            let res = self.ack_sent_data(ack_num, now);
            self.buffers.input.push_data(data);
            res
        } else {
            if !self.state.is_rejecting() {
                self.reject();
            }
            None
        }
    }

    /// Handles a NAK frame: queues the rejected frames for retransmission.
    pub fn process_nak(&mut self, nak: &Nak)
        ensures
            final(self)@ == spec_handle_packet(old(self)@, Some(PacketView::Nak(*nak)), 0).0,
    {
        self.buffers.output.queue_retransmit_nak(nak.ack_num());
    }

    /// Handles an RSTACK frame: the NCP allows transmission again.
    pub fn process_rst_ack(&mut self, rst_ack: &RstAck)
        ensures
            final(self)@ == (WorkerView {
                state: StateView { may_transmit: true, ..old(self)@.state },
                ..old(self)@
            }),
    {
        self.state.set_may_transmit(true);
    }

    /// Handles a frame received at time `now`, or the failure to receive a valid one
    /// (`None`), after which a NAK is queued.
    pub fn handle_packet(&mut self, packet: Option<Packet>, now: u64) -> (res: Reaction)
        ensures
            (final(self)@, res) == spec_handle_packet(old(self)@, opt_packet_view(packet), now),
    {
        match packet {
            None => {
                self.send_nak();
                Reaction::Continue
            },
            Some(Packet::Ack(ack)) => match self.process_ack(&ack, now) {
                Some(t_rx_ack) => Reaction::SetTimeout(t_rx_ack),
                None => Reaction::Continue,
            },
            Some(Packet::Data(data)) => match self.process_data(data, now) {
                Some(t_rx_ack) => Reaction::SetTimeout(t_rx_ack),
                None => Reaction::Continue,
            },
            Some(Packet::Error(_)) => Reaction::Reset,
            Some(Packet::Nak(nak)) => {
                self.process_nak(&nak);
                Reaction::Continue
            },
            Some(Packet::Rst(_)) => Reaction::Continue,
            Some(Packet::RstAck(rst_ack)) => {
                self.process_rst_ack(&rst_ack);
                Reaction::Continue
            },
        }
    }

    /// Queues a DATA frame for sending at time `now` and records it as awaiting
    /// acknowledgement.
    pub fn send_data(&mut self, data: Data, now: u64)
        ensures
            final(self)@ == spec_send_data(old(self)@, data@, now),
    {
        let packet = Packet::Data(data);
        self.send_frame(&packet);
        match packet {
            Packet::Data(data) => self.buffers.output.push_data(data, now),
            _ => {},
        }
    }

    /// Sends the frames queued for retransmission, with the retransmission flag set,
    /// while fewer than the maximum number of frames await acknowledgement.
    pub fn retransmit(&mut self, now: u64)
        ensures
            final(self)@ == spec_retransmit(old(self)@, now),
    {
        let ghost w = self@;
        let ghost r = w.output.retransmit;
        let ghost k = spec_retransmit_count(w);
        let ghost sent = r.take(k).map_values(|d: DataView| spec_retransmitted(d));
        let mut j: usize = 0;
        let mut more = true;
        assert(r.skip(0) =~= r);
        while more && self.buffers.output.queue_not_full()
            invariant
                0 <= j <= k,
                !more ==> j == k,
                self@.output.retransmit == r.skip(j as int),
                self@.output.data == w.output.data + r.take(j as int).map_values(
                    |d: DataView| (now, spec_retransmitted(d)),
                ),
                self@.outgoing == w.outgoing + r.take(j as int).map_values(
                    |d: DataView| data_frame(spec_retransmitted(d)),
                ),
                self@.output.buffer == w.output.buffer,
                self@.state == w.state,
                self@.input == w.input,
                self@.rx_error == w.rx_error,
                k == spec_retransmit_count(w),
                r == w.output.retransmit,
                self@.output.data.len() == w.output.data.len() + j,
            decreases k - j + (if more { 1int } else { 0int }),
        {
            match self.buffers.output.pop_retransmit() {
                Some(mut data) => {
                    data.set_is_retransmission(true);
                    assert(data@ == spec_retransmitted(r[j as int]));
                    self.send_data(data, now);
                    proof {
                        assert(r.take(j + 1).drop_last() =~= r.take(j as int));
                        assert(r.skip(j as int).drop_first() =~= r.skip(j + 1));
                        assert(self@.output.data =~= w.output.data + r.take(j + 1).map_values(
                            |d: DataView| (now, spec_retransmitted(d)),
                        ));
                        assert(self@.outgoing =~= w.outgoing + r.take(j + 1).map_values(
                            |d: DataView| data_frame(spec_retransmitted(d)),
                        ));
                    }
                    j = j + 1;
                },
                None => {
                    assert(r.skip(j as int).len() == 0);
                    more = false;
                },
            }
        }
        proof {
            if more {
                assert(w.output.data.len() + j >= ACK_TIMEOUTS);
            }
            assert(j == k);
            lemma_retransmit_view(w, now, j as int);
        }
    }

    /// Sends a chunk of payload at time `now` in a new DATA frame with the next frame
    /// number and the current ACK number; a chunk larger than a DATA frame can carry is
    /// refused.
    pub fn send_chunk(&mut self, chunk: &[u8], now: u64) -> (res: Result<(), Error>)
        ensures
            chunk@.len() <= MAX_PAYLOAD_SIZE ==> res is Ok && final(self)@ == spec_send_chunk(
                old(self)@,
                chunk@,
                now,
            ),
            chunk@.len() > MAX_PAYLOAD_SIZE ==> final(self)@ == old(self)@ && res == Err::<
                (),
                Error,
            >(Error::Frame(FrameError::PayloadTooLarge { max: MAX_PAYLOAD_SIZE, found: chunk@.len() as usize })),
    {
        let payload = match payload_from_slice(chunk) {
            Ok(payload) => payload,
            Err(()) => {
                return Err(
                    Error::Frame(
                        FrameError::PayloadTooLarge { max: MAX_PAYLOAD_SIZE, found: chunk.len() },
                    ),
                );
            },
        };
        let ack_number = self.state.ack_number();
        let frame_number = self.state.next_frame_number();
        let data = Data::new(
            SeqNum::from_u8_lossy(frame_number),
            payload,
            SeqNum::from_u8_lossy(ack_number),
        );
        self.send_data(data, now);
        Ok(())
    }

    /// Sends ACK frames for the ACK numbers still to be sent, in order.
    pub fn send_pending_acks(&mut self)
        ensures
            final(self)@ == spec_send_pending_acks(old(self)@),
    {
        let ghost w = self@;
        let acks = self.state.pending_ack_numbers();
        let ghost expected = spec_pending_acks(w.state);
        assert(acks@ =~= expected);
        let mut i: usize = 0;
        while i < acks.len()
            invariant
                i <= acks@.len(),
                acks@ == expected,
                expected == spec_pending_acks(w.state),
                self@.outgoing == w.outgoing + expected.take(i as int).map_values(
                    |n: u8| ack_frame(n),
                ),
                self@.state == (if i > 0 {
                    StateView { last_sent_ack: expected[i - 1], ..w.state }
                } else {
                    w.state
                }),
                self@.input == w.input,
                self@.output == w.output,
                self@.rx_error == w.rx_error,
            decreases acks@.len() - i,
        {
            self.send_ack(acks[i]);
            proof {
                assert(expected.take(i + 1).drop_last() =~= expected.take(i as int));
                assert(self@.outgoing =~= w.outgoing + expected.take(i + 1).map_values(
                    |n: u8| ack_frame(n),
                ));
            }
            i = i + 1;
        }
        assert(expected.take(i as int) =~= expected);
    }

    /// Sends chunks of payload at time `now`, taken from the end of `chunks`, while
    /// fewer than the maximum number of frames await acknowledgement.
    pub fn push_chunks(&mut self, chunks: &mut Vec<Vec<u8>>, now: u64) -> (res: Result<(), Error>)
        ensures
            ({
                let (w, rest, outcome) = spec_push_chunks(old(self)@, frames_view(old(chunks)@), now);
                &&& final(self)@ == w
                &&& frames_view(final(chunks)@) == rest
                &&& res == outcome
            }),
    {
        let ghost target = spec_push_chunks(self@, frames_view(chunks@), now);
        let mut res: Result<(), Error> = Ok(());
        let mut more = true;
        while more && self.buffers.output.queue_not_full()
            invariant
                more ==> spec_push_chunks(self@, frames_view(chunks@), now) == target,
                more ==> res == Ok::<(), Error>(()),
                !more ==> target == (self@, frames_view(chunks@), res),
            decreases chunks@.len() + (if more { 1int } else { 0int }),
        {
            let ghost before = chunks@;
            let ghost prev = self@;
            match chunks.pop() {
                Some(chunk) => {
                    proof {
                        assert(frames_view(chunks@) =~= frames_view(before).drop_last());
                        assert(frames_view(before).last() == chunk@);
                        assert(spec_free_slots(prev) > 0);
                    }
                    let sent = self.send_chunk(chunk.as_slice(), now);
                    if sent.is_err() {
                        assert(chunk@.len() > MAX_PAYLOAD_SIZE);
                        assert(spec_push_chunks(prev, frames_view(before), now) == (
                            prev,
                            frames_view(chunks@),
                            sent,
                        ));
                        res = sent;
                        more = false;
                    }
                },
                None => {
                    assert(frames_view(before).len() == 0);
                    assert(spec_push_chunks(prev, frames_view(before), now) == (
                        prev,
                        frames_view(chunks@),
                        Ok::<(), Error>(()),
                    ));
                    assert(res == Ok::<(), Error>(()));
                    more = false;
                },
            }
        }
        proof {
            if more {
                assert(spec_free_slots(self@) == 0);
                assert(res == Ok::<(), Error>(()));
            }
        }
        res
    }

    /// Queues for retransmission the frames that have waited longer than the
    /// acknowledgement timeout at time `now`; if there were any, the timeout doubles.
    /// Tells whether there were any.
    pub fn queue_retransmit_timeout(&mut self, now: u64) -> (res: bool)
        ensures
            final(self)@ == spec_queue_retransmit_timeout(old(self)@, now),
            res == (spec_timed_out_frames(old(self)@, now).len() > 0),
    {
        let t_rx_ack = self.state.t_rx_ack();
        let any = self.buffers.output.queue_retransmit_timeout(t_rx_ack, now);
        if any {
            self.state.update_t_rx_ack(None);
        }
        any
    }

    /// Whether the transaction is complete: no chunk left to send, no ACK left to send
    /// and no frame awaiting acknowledgement or retransmission.
    pub fn is_transaction_complete(&self, chunks: &Vec<Vec<u8>>) -> (res: bool)
        ensures
            res == (chunks@.len() == 0 && spec_pending_acks(self@.state).len() == 0
                && self@.output.data.len() == 0 && self@.output.retransmit.len() == 0),
    {
        let acks = self.state.pending_ack_numbers();
        assert(acks@ =~= spec_pending_acks(self@.state));
        chunks.len() == 0 && acks.len() == 0 && self.buffers.output.queues_are_empty()
    }

    /// The payload received in this transaction: the unmasked payloads of the received
    /// DATA frames, a retransmission that repeats the frame before it counted once.
    pub fn received_bytes(&self) -> (res: Vec<u8>)
        ensures
            res@ == spec_received_bytes(self@.input.data),
    {
        self.buffers.input.bytes()
    }

    /// Empties the buffers, at the start of a transaction.
    pub fn clear_buffers(&mut self)
        ensures
            final(self)@.state == old(self)@.state,
            final(self)@.outgoing == old(self)@.outgoing,
            final(self)@.input.data.len() == 0,
            final(self)@.input.buffer.len() == 0,
            final(self)@.output.data.len() == 0,
            final(self)@.output.retransmit.len() == 0,
            final(self)@.output.buffer.len() == 0,
    {
        self.buffers.clear();
    }
    /// Queues an RST frame, which asks the NCP to reset.
    pub fn send_rst(&mut self)
        ensures
            final(self)@ == (WorkerView {
                outgoing: old(self)@.outgoing.push(
                    spec_encode((Rst { header: Rst::HEADER, crc: Rst::CRC }).spec_bytes()),
                ),
                ..old(self)@
            }),
    {
        self.send_frame(&Packet::Rst(Rst::default()));
    }

    /// Starts afresh after a reset: the link state is that of a new connection and the
    /// buffers are empty.
    pub fn reset_state(&mut self)
        ensures
            final(self)@.state == State::default_view(),
            final(self)@.outgoing == old(self)@.outgoing,
            !final(self)@.rx_error,
            final(self)@.input.data.len() == 0,
            final(self)@.input.buffer.len() == 0,
            final(self)@.output.data.len() == 0,
            final(self)@.output.retransmit.len() == 0,
            final(self)@.output.buffer.len() == 0,
    {
        self.state.reset();
        self.buffers.clear();
        self.rx_error = false;
    }
    /// Marks the connection as initialized.
    pub fn set_initialized(&mut self)
        ensures
            final(self)@ == (WorkerView {
                state: StateView { initialized: true, ..old(self)@.state },
                ..old(self)@
            }),
    {
        self.state.set_initialized();
    }
    /// The sending part of a round of a transaction at time `now`: queues timed-out
    /// frames for retransmission; then, if the NCP allows transmission, retransmits the
    /// queued frames and sends further chunks, taken from the end of `chunks`.
    pub fn transmit_step(&mut self, chunks: &mut Vec<Vec<u8>>, now: u64) -> (res: Result<(), Error>)
        ensures
            ({
                let (w, rest, outcome) = spec_transmit_step(old(self)@, frames_view(old(chunks)@), now);
                &&& final(self)@ == w
                &&& frames_view(final(chunks)@) == rest
                &&& res == outcome
            }),
    {
        self.queue_retransmit_timeout(now);
        if self.state.may_transmit() {
            self.retransmit(now);
            self.push_chunks(chunks, now)
        } else {
            Ok(())
        }
    }

    /// The closing part of a round of a transaction, after a received frame was handled:
    /// sends a NAK in the reject condition; otherwise sends the pending ACKs and, if the
    /// transaction is complete, returns the payload received.
    pub fn finish_step(&mut self, chunks: &Vec<Vec<u8>>) -> (res: Option<Vec<u8>>)
        ensures
            ({
                let (w, received) = spec_finish_step(old(self)@, frames_view(chunks@));
                &&& final(self)@ == w
                &&& match res {
                    Some(bytes) => received == Some(bytes@),
                    None => received is None,
                }
            }),
    {
        if self.state.is_rejecting() {
            self.send_nak();
            return None;
        }
        self.send_pending_acks();
        proof {
            lemma_no_ack_pending_after_send(old(self)@.state);
        }
        if self.is_transaction_complete(chunks) {
            Some(self.received_bytes())
        } else {
            None
        }
    }
    /// Handles a frame received while waiting for the NCP to acknowledge a reset (`None`
    /// for one that could not be read or had a wrong checksum). An RSTACK frame, of any
    /// version, ends the wait: the link starts afresh, connected, with empty buffers.
    /// Any other frame is ignored.
    pub fn handle_reset_reply(&mut self, packet: Option<Packet>) -> (res: bool)
        ensures
            res == spec_reset_acknowledged(opt_packet_view(packet)),
            !res ==> final(self)@ == old(self)@,
            res ==> final(self)@.state == (StateView {
                initialized: true,
                ..State::default_view()
            }),
            res ==> final(self)@.outgoing == old(self)@.outgoing,
            res ==> !final(self)@.rx_error,
            res ==> final(self)@.input.data.len() == 0 && final(self)@.input.buffer.len() == 0,
            res ==> final(self)@.output.data.len() == 0 && final(self)@.output.retransmit.len()
                == 0 && final(self)@.output.buffer.len() == 0,
    {
        match packet {
            Some(Packet::RstAck(_)) => {
                self.reset_state();
                self.set_initialized();
                true
            },
            _ => false,
        }
    }
}

/// A DATA frame received in sequence advances the ACK number by one, modulo eight,
/// clears the reject condition and is stored.
pub proof fn lemma_in_sequence_advances(w: WorkerView, data: DataView, now: u64)
    requires
        frame_of(data) == spec_ack_number(w.state.last_received_frame_number),
    ensures
        ({
            let next = spec_process_data(w, data, now);
            &&& spec_ack_number(next.state.last_received_frame_number) == wrap3(
                spec_ack_number(w.state.last_received_frame_number) + 1,
            )
            &&& !next.state.reject
            &&& next.input.data == w.input.data.push(data)
        }),
{
}

/// A DATA frame received in sequence, or retransmitted, acknowledges the host's sent
/// frames up to its own ACK number `a` (the low three bits of its header): those with a
/// frame number below `a` leave the frames awaiting acknowledgement (with `a` zero, frame
/// seven, which precedes it, leaves too), and the frame is stored. If any frame leaves
/// and the latest of their send times, `latest`, is not after `now`, the timeout becomes
/// 7/8 of the old one plus half the time since `latest`, kept within its bounds, and the
/// caller is told to set it; otherwise the timeout stays and the caller goes on.
pub proof fn lemma_data_acknowledges(w: WorkerView, data: DataView, now: u64, latest: u64)
    requires
        frame_of(data) == spec_ack_number(w.state.last_received_frame_number) || data.header
            & 0x08u8 != 0,
    ensures
        ({
            let (next, reaction) = spec_handle_packet(w, Some(PacketView::Data(data)), now);
            let a = data.header & 0x07u8;
            let acked = w.output.data.filter(|entry: (u64, DataView)| frame_of(entry.1) < a);
            let t = w.state.t_rx_ack * 7 / 8 + (now - latest) / 2;
            let adapted = if t < T_RX_ACK_MIN {
                T_RX_ACK_MIN as int
            } else if t > T_RX_ACK_MAX {
                T_RX_ACK_MAX as int
            } else {
                t
            };
            &&& next.output.data == w.output.data.filter(
                |entry: (u64, DataView)|
                    frame_of(entry.1) >= a && !(a == 0 && frame_of(entry.1) == 7),
            )
            &&& next.input.data == w.input.data.push(data)
            &&& (acked.len() > 0 && (exists|i: int|
                0 <= i < acked.len() && #[trigger] acked[i].0 == latest) && (forall|i: int|
                0 <= i < acked.len() ==> #[trigger] acked[i].0 <= latest) && latest <= now) ==> {
                &&& next.state.t_rx_ack == adapted
                &&& reaction == Reaction::SetTimeout(adapted as u64)
            }
            &&& (acked.len() == 0 || exists|i: int|
                0 <= i < acked.len() && now < #[trigger] acked[i].0) ==> {
                &&& next.state.t_rx_ack == w.state.t_rx_ack
                &&& reaction == Reaction::Continue
            }
        }),
{
    let a = data.header & 0x07u8;
    let acked = w.output.data.filter(|entry: (u64, DataView)| frame_of(entry.1) < a);
    assert((|entry: (u64, DataView)| spec_keep_after_ack(a, entry.1)) =~= (|entry: (u64, DataView)|
        frame_of(entry.1) >= a && !(a == 0 && frame_of(entry.1) == 7)));
    if acked.len() > 0 {
        lemma_latest_is_max(acked);
        let l = spec_latest(acked);
        if (exists|i: int| 0 <= i < acked.len() && #[trigger] acked[i].0 == latest) && (forall|i: int|
            0 <= i < acked.len() ==> #[trigger] acked[i].0 <= latest) {
            let j = choose|j: int| 0 <= j < acked.len() && #[trigger] acked[j].0 == l;
            let k = choose|k: int| 0 <= k < acked.len() && #[trigger] acked[k].0 == latest;
            assert(acked[j].0 <= latest);
            assert(acked[k].0 <= l);
        }
        if exists|i: int| 0 <= i < acked.len() && now < #[trigger] acked[i].0 {
            let k = choose|k: int| 0 <= k < acked.len() && now < #[trigger] acked[k].0;
            assert(acked[k].0 <= l);
        }
    }
}

/// A DATA frame received in sequence, or retransmitted, changes the frames awaiting
/// acknowledgement and the timeout exactly as an ACK frame with the same ACK number does,
/// and asks the caller for the same reaction.
pub proof fn lemma_data_acks_like_ack_frame(w: WorkerView, data: DataView, ack: Ack, now: u64)
    requires
        frame_of(data) == spec_ack_number(w.state.last_received_frame_number) || data.header
            & 0x08u8 != 0,
        ack.header@ % 8 == data.header & 0x07u8,
    ensures
        ({
            let (by_data, data_reaction) = spec_handle_packet(w, Some(PacketView::Data(data)), now);
            let (by_ack, ack_reaction) = spec_handle_packet(w, Some(PacketView::Ack(ack)), now);
            &&& by_data.output == (OutputView { data: by_data.output.data, ..w.output })
            &&& by_data.output.data == by_ack.output.data
            &&& by_data.state.t_rx_ack == by_ack.state.t_rx_ack
            &&& data_reaction == ack_reaction
        }),
{
    let h = data.header;
    assert(h & 0x07u8 == h % 8) by (bit_vector);
}

/// A DATA frame makes the worker send a frame only when it enters the reject condition;
/// while the condition holds, frames out of sequence are dropped without another NAK.
pub proof fn lemma_nak_only_on_entering_reject(w: WorkerView, data: DataView, now: u64)
    ensures
        ({
            let next = spec_process_data(w, data, now);
            &&& next.outgoing != w.outgoing ==> !w.state.reject && next.state.reject
                && next.outgoing == w.outgoing.push(
                nak_frame(w.state.last_received_frame_number.unwrap()),
            )
            &&& w.state.reject && frame_of(data) != spec_ack_number(
                w.state.last_received_frame_number,
            ) && !is_retransmitted(data) ==> next == w
        }),
{
}

/// Once the pending ACKs are sent, no ACK is pending.
pub proof fn lemma_no_ack_pending_after_send(state: StateView)
    ensures
        ({
            let acks = spec_pending_acks(state);
            let after = if acks.len() > 0 {
                StateView { last_sent_ack: acks.last(), ..state }
            } else {
                state
            };
            spec_pending_acks(after).len() == 0
        }),
{
    let acks = spec_pending_acks(state);
    if acks.len() > 0 {
        let first = wrap3(state.last_sent_ack + 1);
        let last = spec_ack_number(state.last_received_frame_number);
        assert(acks.last() == last);
        assert(last < 8);
    }
}

/// Bytes that are neither control bytes nor the wake byte are collected, and the flag
/// byte then completes the frame.
proof fn lemma_worker_collects(w: WorkerView, s: Seq<u8>, t: Seq<u8>)
    requires
        !w.rx_error,
        forall|i: int| 0 <= i < s.len() ==> (#[trigger] s[i] == ESCAPE || !is_reserved(s[i])),
        forall|i: int| 0 <= i < s.len() ==> #[trigger] s[i] != WAKE,
        w.input.buffer.len() + s.len() > 0,
    ensures
        spec_receive_bytes(w, s + seq![FLAG] + t).1 == Some(spec_unstuff(w.input.buffer + s)),
    decreases s.len(),
{
    let all = s + seq![FLAG] + t;
    if s.len() == 0 {
        assert(all[0] == FLAG);
        assert(w.input.buffer + s =~= w.input.buffer);
    } else {
        let b = s[0];
        assert(all[0] == b);
        let next = WorkerView {
            input: InputView { buffer: w.input.buffer.push(b), ..w.input },
            ..w
        };
        assert(spec_receive_byte(w, b) == (next, None::<Seq<u8>>));
        let rest = s.drop_first();
        assert forall|i: int| 0 <= i < rest.len() implies (#[trigger] rest[i] == ESCAPE
            || !is_reserved(rest[i])) by {
            assert(rest[i] == s[i + 1]);
        }
        assert forall|i: int| 0 <= i < rest.len() implies #[trigger] rest[i] != WAKE by {
            assert(rest[i] == s[i + 1]);
        }
        lemma_worker_collects(next, rest, t);
        assert(all.drop_first() =~= rest + seq![FLAG] + t);
        assert(next.input.buffer + rest =~= w.input.buffer + s);
    }
}

/// Stuffing brings in no wake byte: the stuffed form of bytes without one has none.
proof fn lemma_stuff_no_wake(bytes: Seq<u8>)
    requires
        forall|i: int| 0 <= i < bytes.len() ==> #[trigger] bytes[i] != WAKE,
    ensures
        forall|i: int| 0 <= i < spec_stuff(bytes).len() ==> #[trigger] spec_stuff(bytes)[i] != WAKE,
    decreases bytes.len(),
{
    if bytes.len() > 0 {
        let b = bytes[0];
        let rest = bytes.drop_first();
        assert forall|i: int| 0 <= i < rest.len() implies #[trigger] rest[i] != WAKE by {
            assert(rest[i] == bytes[i + 1]);
        }
        lemma_stuff_no_wake(rest);
        let s = spec_stuff(bytes);
        let t = spec_stuff(rest);
        assert(s == stuff_byte(b) + t);
        if is_reserved(b) {
            assert(b ^ 0x20u8 != 0xFFu8 || !is_reserved(b)) by (bit_vector);
            assert forall|i: int| 0 <= i < s.len() implies #[trigger] s[i] != WAKE by {
                if i >= 2 {
                    assert(s[i] == t[i - 2]);
                }
            }
        } else {
            assert forall|i: int| 0 <= i < s.len() implies #[trigger] s[i] != WAKE by {
                if i >= 1 {
                    assert(s[i] == t[i - 1]);
                }
            }
        }
    }
}

/// Reading the encoding of a well-formed frame whose bytes hold no wake byte, followed by
/// any bytes, from the start of a frame gives the frame's bytes back, and they parse as
/// the frame. (The wake byte is dropped wherever it is read, so a frame holding one is
/// not read back.)
pub proof fn lemma_worker_reads_encoded_frame(w: WorkerView, packet: PacketView, trailing: Seq<u8>)
    requires
        packet.wf(),
        forall|i: int| 0 <= i < packet.spec_bytes().len() ==> #[trigger] packet.spec_bytes()[i] != WAKE,
        w.input.buffer.len() == 0,
        !w.rx_error,
    ensures
        ({
            let frame = spec_receive_bytes(w, spec_encode(packet.spec_bytes()) + trailing).1;
            &&& frame == Some(packet.spec_bytes())
            &&& PacketView::spec_parse(packet.spec_bytes()) == Ok::<PacketView, FrameError>(packet)
        }),
{
    let bytes = packet.spec_bytes();
    let s = spec_stuff(bytes);
    lemma_packet_bytes_len(packet);
    lemma_stuff_len(bytes);
    lemma_stuffed_bytes(bytes);
    lemma_stuff_no_wake(bytes);
    lemma_unstuff_stuff(bytes);
    lemma_packet_roundtrip(packet);
    assert(w.input.buffer + s =~= s);
    assert(spec_encode(bytes) + trailing =~= s + seq![FLAG] + trailing);
    lemma_worker_collects(w, s, trailing);
}

} // verus!
