use ashv2::baud_rate::BaudRate;
use ashv2::protocol::input::Input;
use ashv2::protocol::output::Output;
use ashv2::error::{Error, FrameError, IoErrorKind};
use ashv2::packet::headers;
use ashv2::packet::{Ack, Data, Error as ErrorFrame, Nak, Packet, Rst, RstAck};
use ashv2::protocol::connect::{
    connect_step, next_attempt, wait_outcome, ConnectStep, WaitOutcome, T_RSTACK_MAX,
};
use ashv2::protocol::listener::{forwarding, Action, Forwarding, Listener};
use ashv2::protocol::state::{T_RX_ACK_INIT, T_RX_ACK_MAX, T_RX_ACK_MIN};
use ashv2::protocol::transmitter::Transmitter;
use ashv2::protocol::worker::{Reaction, Worker};
use ashv2::protocol::{Event, HandleResult, ResetResponse, State, TaskQueue};
use ashv2::seq_num::SeqNum;

const MS: u64 = 1_000_000;

fn data(frame: SeqNum, ack: SeqNum, payload: &[u8]) -> Data {
    Data::new(frame, heapless::Vec::from_slice(payload).unwrap(), ack)
}

/// The wire form of a frame: the stuffed bytes and the flag byte.
fn wire(packet: &Packet) -> Vec<u8> {
    let mut out = Vec::new();
    for byte in packet.bytes() {
        if [0x7E, 0x7D, 0x11, 0x13, 0x18, 0x1A].contains(&byte) {
            out.push(0x7D);
            out.push(byte ^ 0x20);
        } else {
            out.push(byte);
        }
    }
    out.push(0x7E);
    out
}

#[test]
fn state_defaults_and_ack_numbers() {
    let mut state = State::default();
    assert_eq!(state.ack_number(), 0);
    assert_eq!(state.t_rx_ack(), T_RX_ACK_INIT);
    assert!(state.may_transmit());
    state.set_last_received_frame_number(7);
    assert_eq!(state.ack_number(), 0);
    state.set_last_received_frame_number(2);
    assert_eq!(state.ack_number(), 3);
    assert_eq!(state.pending_ack_numbers(), vec![1, 2, 3]);
    state.set_last_sent_ack(3);
    assert!(state.pending_ack_numbers().is_empty());
    assert_eq!(state.next_frame_number(), 0);
    assert_eq!(state.next_frame_number(), 1);
}

#[test]
fn state_t_rx_ack_formula() {
    let mut state = State::default();
    // 1600 ms * 7 / 8 + 200 ms / 2 = 1500 ms
    state.update_t_rx_ack(Some(200 * MS));
    assert_eq!(state.t_rx_ack(), 1500 * MS);
    // doubling is capped at the maximum
    state.update_t_rx_ack(None);
    state.update_t_rx_ack(None);
    assert_eq!(state.t_rx_ack(), T_RX_ACK_MAX);
    // fast acknowledgements never go below the minimum
    for _ in 0..50 {
        state.update_t_rx_ack(Some(0));
    }
    assert_eq!(state.t_rx_ack(), T_RX_ACK_MIN);
}

#[test]
fn state_handle_error_counts_timeouts() {
    let mut state = State::default();
    for n in 1..=4u64 {
        assert_eq!(state.handle_error(Error::Io(IoErrorKind::TimedOut)), Ok(n * 1000 * MS));
    }
    assert_eq!(
        state.handle_error(Error::Io(IoErrorKind::TimedOut)),
        Err(Error::Io(IoErrorKind::TimedOut))
    );
    assert_eq!(state.handle_error(Error::Aborted), Err(Error::Aborted));
}

#[test]
fn task_queue_is_fifo() {
    let mut queue = TaskQueue::new();
    assert_eq!(queue.push("a"), 0);
    assert_eq!(queue.push("b"), 1);
    assert_eq!(queue.pop(), Some((0, "a")));
    assert_eq!(queue.push("c"), 2);
    assert_eq!(queue.pop(), Some((1, "b")));
    assert_eq!(queue.pop(), Some((2, "c")));
    assert_eq!(queue.pop(), None);
}

#[test]
fn reset_response_completes_in_either_order() {
    let mut response = ResetResponse::new();
    assert_eq!(response.handle(Event::DataReceived(Ok(()))), (HandleResult::Continue, false));
    assert_eq!(response.handle(Event::DataReceived(Ok(()))), (HandleResult::Reject, false));
    assert_eq!(response.handle(Event::TransmissionCompleted), (HandleResult::Completed, true));
    assert_eq!(response.poll(), Some(Ok(())));

    let mut response = ResetResponse::new();
    assert_eq!(response.handle(Event::TransmissionCompleted), (HandleResult::Continue, false));
    assert_eq!(
        response.handle(Event::DataReceived(Err(Error::Aborted))),
        (HandleResult::Completed, true)
    );
}

#[test]
fn worker_accepts_frames_in_sequence() {
    let mut worker = Worker::new();
    let first = data(SeqNum::Zero, SeqNum::Zero, &[1, 2, 3]);
    assert_eq!(worker.handle_packet(Some(Packet::Data(first)), 10), Reaction::Continue);
    assert_eq!(worker.state().ack_number(), 1);
    let second = data(SeqNum::One, SeqNum::Zero, &[4, 5, 6]);
    worker.handle_packet(Some(Packet::Data(second)), 20);
    assert_eq!(worker.state().ack_number(), 2);
    assert_eq!(worker.received_bytes(), vec![1, 2, 3, 4, 5, 6]);
    assert!(worker.take_outgoing().is_empty());
    worker.send_pending_acks();
    let acks = worker.take_outgoing();
    assert_eq!(acks, vec![wire(&Packet::Ack(Ack::from_ack_num(1))), wire(&Packet::Ack(Ack::from_ack_num(2)))]);
    worker.send_pending_acks();
    assert!(worker.take_outgoing().is_empty());
}

#[test]
fn worker_rejects_out_of_sequence_once() {
    let mut worker = Worker::new();
    worker.handle_packet(Some(Packet::Data(data(SeqNum::Zero, SeqNum::Zero, &[1, 2, 3]))), 0);
    let _ = worker.take_outgoing();
    worker.handle_packet(Some(Packet::Data(data(SeqNum::Three, SeqNum::Zero, &[1, 2, 3]))), 0);
    assert!(worker.state().is_rejecting());
    assert_eq!(worker.take_outgoing(), vec![wire(&Packet::Nak(Nak::from_ack_num(0)))]);
    worker.handle_packet(Some(Packet::Data(data(SeqNum::Four, SeqNum::Zero, &[1, 2, 3]))), 0);
    assert!(worker.take_outgoing().is_empty());
    worker.handle_packet(Some(Packet::Data(data(SeqNum::One, SeqNum::Zero, &[7, 8, 9]))), 0);
    assert!(!worker.state().is_rejecting());
}

#[test]
fn worker_reacts_to_frames() {
    let mut worker = Worker::new();
    let error = ErrorFrame::new(0x51);
    assert_eq!(worker.handle_packet(Some(Packet::Error(error)), 0), Reaction::Reset);
    assert_eq!(worker.handle_packet(Some(Packet::Rst(Rst::new())), 0), Reaction::Continue);
    assert_eq!(worker.handle_packet(Some(Packet::RstAck(RstAck::new(2))), 0), Reaction::Continue);
    // nothing received in sequence yet: no NAK to send
    assert_eq!(worker.handle_packet(None, 0), Reaction::Continue);
    assert!(worker.take_outgoing().is_empty());
}

#[test]
fn worker_sends_and_acknowledges_chunks() {
    let mut worker = Worker::new();
    let mut chunks = vec![vec![1, 2, 3], vec![4, 5, 6]];
    assert!(!worker.is_transaction_complete(&chunks));
    // chunks are taken from the end of the list
    worker.push_chunks(&mut chunks, 100).unwrap();
    assert!(chunks.is_empty());
    let frames = worker.take_outgoing();
    let first = data(SeqNum::Zero, SeqNum::Zero, &[4, 5, 6]);
    let second = data(SeqNum::One, SeqNum::Zero, &[1, 2, 3]);
    assert_eq!(frames, vec![wire(&Packet::Data(first)), wire(&Packet::Data(second))]);
    assert!(!worker.is_transaction_complete(&chunks));
    // the ACK acknowledges both frames; they took 300 ms
    let reaction = worker.handle_packet(Some(Packet::Ack(Ack::from_ack_num(2))), 100 + 300 * MS);
    assert_eq!(reaction, Reaction::SetTimeout(1550 * MS));
    assert!(worker.is_transaction_complete(&chunks));
}

#[test]
fn worker_refuses_oversized_chunk() {
    let mut worker = Worker::new();
    let mut chunks = vec![vec![0u8; 129]];
    assert_eq!(
        worker.push_chunks(&mut chunks, 0),
        Err(Error::Frame(FrameError::PayloadTooLarge { max: 128, found: 129 }))
    );
    assert!(worker.take_outgoing().is_empty());
}

#[test]
fn worker_retransmits_after_nak_and_timeout() {
    let mut worker = Worker::new();
    let mut chunks = vec![vec![1, 2, 3]];
    worker.push_chunks(&mut chunks, 0).unwrap();
    let _ = worker.take_outgoing();
    worker.handle_packet(Some(Packet::Nak(Nak::from_ack_num(0))), 0);
    worker.retransmit(5);
    let mut again = data(SeqNum::Zero, SeqNum::Zero, &[1, 2, 3]);
    again.set_is_retransmission(true);
    assert_eq!(worker.take_outgoing(), vec![wire(&Packet::Data(again))]);
    // after the timeout the frame is queued again and the timeout doubles
    assert!(worker.queue_retransmit_timeout(5 + T_RX_ACK_INIT + 1));
    assert_eq!(worker.state().t_rx_ack(), T_RX_ACK_MAX);
    assert!(!worker.queue_retransmit_timeout(5 + T_RX_ACK_INIT + 1));
}

#[test]
fn worker_reads_bytes_into_frames() {
    let mut worker = Worker::new();
    let ack = Packet::Ack(Ack::from_ack_num(3));
    let mut frame = None;
    for byte in [0x13, 0xFF, 0x55, 0x1A].into_iter().chain(wire(&ack)) {
        if let Some(bytes) = worker.receive_byte(byte) {
            frame = Some(bytes);
        }
    }
    assert!(!worker.state().may_transmit());
    assert_eq!(Packet::try_from(frame.unwrap().as_slice()), Ok(ack));
    assert_eq!(worker.receive_byte(0x11), None);
    assert!(worker.state().may_transmit());
    // a SUBSTITUTE byte spoils the frame being read
    for byte in [0x81, 0x18, 0x60, 0x7E] {
        assert_eq!(worker.receive_byte(byte), None);
    }
    // the wake byte is dropped wherever it is read
    for byte in [0x01, 0xFF, 0x7D, 0x5E] {
        assert_eq!(worker.receive_byte(byte), None);
    }
    assert_eq!(worker.receive_byte(0x7E), Some(vec![0x01, 0x7E]));
}

#[test]
fn listener_handles_data() {
    let mut listener = Listener::new();
    assert!(listener.handle_frame(&Packet::Ack(Ack::from_ack_num(1))).is_empty());
    assert_eq!(listener.handle_frame(&Packet::RstAck(RstAck::new(2))), vec![Action::AbortCommand]);
    assert!(listener.is_connected());
    let frame = data(SeqNum::Zero, SeqNum::One, &[0x00, 0x80, 0x00]);
    assert_eq!(
        listener.handle_frame(&Packet::Data(frame)),
        vec![
            Action::SendAck(1),
            Action::PublishAckNumber(1),
            Action::ForwardAck(1),
            Action::ForwardPayload(vec![0x00, 0x80, 0x00]),
        ]
    );
    assert_eq!(listener.ack_number(), 1);
    let out_of_sequence = data(SeqNum::Five, SeqNum::One, &[1, 2, 3]);
    assert_eq!(listener.handle_frame(&Packet::Data(out_of_sequence.clone())), vec![Action::SendNak(1)]);
    assert!(listener.is_rejecting());
    assert!(listener.handle_frame(&Packet::Data(out_of_sequence)).is_empty());
    let mut corrupt = data(SeqNum::One, SeqNum::One, &[1, 2, 3]);
    corrupt.crc ^= 1;
    assert_eq!(listener.handle_frame(&Packet::Data(corrupt)), vec![Action::SendNak(1)]);
    assert_eq!(listener.handle_frame(&Packet::Nak(Nak::from_ack_num(4))), vec![Action::ForwardNak(4)]);
    assert!(listener.handle_frame(&Packet::Error(ErrorFrame::new(0x51))).is_empty());
    assert!(!listener.is_connected());
}

#[test]
fn listener_forwarding_decisions() {
    let wake = Forwarding { keep_handler: false, wake_handler: true, to_callback: false };
    assert_eq!(forwarding(Some(HandleResult::Completed), true), wake);
    assert_eq!(forwarding(Some(HandleResult::Failed), false), wake);
    assert_eq!(
        forwarding(Some(HandleResult::Continue), true),
        Forwarding { keep_handler: true, wake_handler: false, to_callback: false }
    );
    assert_eq!(
        forwarding(Some(HandleResult::Reject), true),
        Forwarding { keep_handler: true, wake_handler: false, to_callback: true }
    );
    assert_eq!(
        forwarding(None, false),
        Forwarding { keep_handler: false, wake_handler: false, to_callback: false }
    );
}

#[test]
fn transmitter_round_trip() {
    let mut transmitter = Transmitter::new();
    let chunks = vec![vec![1, 2, 3], vec![4, 5, 6]];
    let mut next = 0;
    let sent = transmitter.transmit_round(&[], &[], &chunks, &mut next, 0, 0, true).unwrap();
    assert_eq!(sent, 2);
    assert_eq!(next, 2);
    assert_eq!(transmitter.take_outgoing().len(), 2);
    // a NAK for frame 1 queues it; the next round sends it again
    let sent = transmitter.transmit_round(&[1], &[], &chunks, &mut next, 0, 10, true).unwrap();
    assert_eq!(sent, 1);
    let mut again = data(SeqNum::One, SeqNum::Zero, &[4, 5, 6]);
    again.set_is_retransmission(true);
    assert_eq!(transmitter.take_outgoing(), vec![wire(&Packet::Data(again))]);
    // ACKs 1 and 2 acknowledge both frames
    transmitter.handle_acks(&[1, 2], 20);
    assert!(transmitter.is_transaction_complete());
}

#[test]
fn transmitter_limits_retransmissions() {
    let mut transmitter = Transmitter::new();
    let chunks = vec![vec![1, 2, 3]];
    let mut next = 0;
    transmitter.transmit_round(&[], &[], &chunks, &mut next, 0, 0, true).unwrap();
    for _ in 0..4 {
        assert_eq!(transmitter.transmit_round(&[0], &[], &chunks, &mut next, 0, 0, true), Ok(1));
    }
    assert_eq!(
        transmitter.transmit_round(&[0], &[], &chunks, &mut next, 0, 0, true),
        Err(Error::MaxRetransmitsExceeded)
    );
}

#[test]
fn transmitter_errors() {
    let mut transmitter = Transmitter::new();
    let mut next = 0;
    assert_eq!(
        transmitter.transmit_round(&[], &[], &vec![vec![1, 2, 3]], &mut next, 0, 0, false),
        Err(Error::Aborted)
    );
    let mut next = 0;
    assert_eq!(
        transmitter.transmit_round(&[], &[], &vec![vec![0; 200]], &mut next, 0, 0, true),
        Err(Error::Frame(FrameError::PayloadTooLarge { max: 128, found: 200 }))
    );
    let mut next = 0;
    assert_eq!(
        transmitter.transmit_round(&[], &[], &vec![vec![0; 300]], &mut next, 0, 0, true),
        Err(Error::Io(IoErrorKind::OutOfMemory))
    );
}

#[test]
fn transmitter_timeouts_and_reset() {
    let mut transmitter = Transmitter::new();
    let chunks = vec![vec![1, 2, 3]];
    let mut next = 0;
    transmitter.transmit_round(&[], &[], &chunks, &mut next, 0, 0, true).unwrap();
    transmitter.check_ack_timeouts(T_RX_ACK_INIT + 1);
    assert_eq!(transmitter.t_rx_ack(), T_RX_ACK_MAX);
    assert!(!transmitter.is_transaction_complete());
    let _ = transmitter.take_outgoing();
    transmitter.reset();
    assert!(transmitter.is_transaction_complete());
    assert_eq!(transmitter.t_rx_ack(), T_RX_ACK_INIT);
    assert_eq!(transmitter.take_outgoing(), vec![wire(&Packet::Rst(Rst::new()))]);
    assert_eq!(transmitter.next_frame_number(), 0);
}

#[test]
fn connect_decisions() {
    let rst_ack = Some(Packet::RstAck(RstAck::new(2)));
    assert_eq!(connect_step(0, 1, &rst_ack), ConnectStep::Connected);
    let old = Some(Packet::RstAck(RstAck { header: 0xC1, version: 1, reset_code: 2, crc: 0 }));
    assert_eq!(connect_step(0, 1, &old), ConnectStep::Unsupported);
    assert_eq!(connect_step(0, 1, &Some(Packet::Rst(Rst::new()))), ConnectStep::Resend);
    assert_eq!(connect_step(0, T_RSTACK_MAX, &None), ConnectStep::Wait);
    assert_eq!(connect_step(0, T_RSTACK_MAX + 1, &None), ConnectStep::Resend);
    assert_eq!(connect_step(10, 5, &None), ConnectStep::Resend);
    assert_eq!(wait_outcome(true, 0, 0), WaitOutcome::Connected);
    assert_eq!(wait_outcome(false, 10, 5), WaitOutcome::ClockJumped);
    assert_eq!(wait_outcome(false, 0, T_RSTACK_MAX + 1), WaitOutcome::TimedOut);
    assert_eq!(wait_outcome(false, 0, 1), WaitOutcome::KeepWaiting);
    assert_eq!(next_attempt(1), Some(2));
    assert_eq!(next_attempt(5), None);
}

#[test]
fn headers_encode_numbers() {
    assert_eq!(headers::Ack::new(3, true, false).bits(), 0x8B);
    assert_eq!(headers::Data::new(2, false, 5).bits(), 0x25);
    assert!(headers::Data::from_bits_retain(0x2D).is_retransmission());
}

#[test]
fn output_requeues_rejected_frames_in_frame_order() {
    let mut output = Output::new();
    output.push_data(data(SeqNum::Two, SeqNum::Zero, &[2, 2, 2]), 1);
    output.push_data(data(SeqNum::One, SeqNum::Zero, &[1, 1, 1]), 2);
    output.push_data(data(SeqNum::Zero, SeqNum::Zero, &[0, 0, 0]), 3);
    output.queue_retransmit_nak(1);
    assert_eq!(output.pop_retransmit().unwrap().frame_num(), SeqNum::One);
    assert_eq!(output.pop_retransmit().unwrap().frame_num(), SeqNum::Two);
    assert!(output.pop_retransmit().is_none());
    assert!(!output.queues_are_empty());
    assert_eq!(output.last_ack_duration(1, 10), Some(7));
    output.ack_sent_data(1);
    assert!(output.queues_are_empty());
}

#[test]
fn input_counts_repeated_frames_once() {
    let mut input = Input::new();
    let first = data(SeqNum::Zero, SeqNum::Zero, &[1, 2, 3]);
    input.push_data(first.clone());
    let mut again = first;
    again.set_is_retransmission(true);
    input.push_data(again);
    input.push_data(data(SeqNum::One, SeqNum::Zero, &[4, 5, 6]));
    input.push_data(data(SeqNum::Zero, SeqNum::Zero, &[7, 8, 9]));
    assert_eq!(input.bytes(), vec![1, 2, 3, 4, 5, 6, 7, 8, 9]);
}

#[test]
fn worker_transaction_steps() {
    let mut worker = Worker::new();
    let mut chunks = vec![vec![1, 2, 3]];
    worker.transmit_step(&mut chunks, 0).unwrap();
    assert!(chunks.is_empty());
    assert_eq!(worker.take_outgoing().len(), 1);
    assert_eq!(worker.finish_step(&chunks), None);
    // the NCP acknowledges the frame and sends one of its own
    worker.handle_packet(Some(Packet::Ack(Ack::from_ack_num(1))), 10);
    worker.handle_packet(Some(Packet::Data(data(SeqNum::Zero, SeqNum::One, &[7, 8, 9]))), 10);
    assert_eq!(worker.finish_step(&chunks), Some(vec![7, 8, 9]));
    assert_eq!(worker.take_outgoing(), vec![wire(&Packet::Ack(Ack::from_ack_num(1)))]);
    // in the reject condition the step sends a NAK and does not complete
    worker.handle_packet(Some(Packet::Data(data(SeqNum::Five, SeqNum::One, &[1, 2, 3]))), 20);
    let _ = worker.take_outgoing();
    assert_eq!(worker.finish_step(&chunks), None);
    assert_eq!(worker.take_outgoing(), vec![wire(&Packet::Nak(Nak::from_ack_num(0)))]);
}

#[test]
fn worker_holds_chunks_while_the_ncp_pauses() {
    let mut worker = Worker::new();
    worker.receive_byte(0x13);
    let mut chunks = vec![vec![1, 2, 3]];
    worker.transmit_step(&mut chunks, 0).unwrap();
    assert_eq!(chunks.len(), 1);
    assert!(worker.take_outgoing().is_empty());
}

#[test]
fn worker_reset_waits_for_any_rst_ack() {
    let mut worker = Worker::new();
    worker.handle_packet(Some(Packet::Data(data(SeqNum::Zero, SeqNum::Zero, &[1, 2, 3]))), 0);
    worker.send_rst();
    // frames other than RSTACK, and unreadable ones, are skipped
    assert!(!worker.handle_reset_reply(Some(Packet::Ack(Ack::from_ack_num(1)))));
    assert!(!worker.handle_reset_reply(None));
    assert_eq!(worker.state().ack_number(), 1);
    // an RSTACK of another version ends the wait as well
    let other = RstAck { header: 0xC1, version: 1, reset_code: 2, crc: 0 };
    assert!(worker.handle_reset_reply(Some(Packet::RstAck(other))));
    assert!(worker.state().initialized());
    assert_eq!(worker.state().ack_number(), 0);
    assert!(worker.received_bytes().is_empty());
    assert_eq!(worker.take_outgoing(), vec![wire(&Packet::Rst(Rst::new()))]);
}

#[test]
fn baud_rates() {
    assert_eq!(u32::from(BaudRate::RstCts), 115_200);
    assert_eq!(u32::from(BaudRate::XonXoff), 57_600);
}
