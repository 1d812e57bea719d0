//! The decisions of the host's listener: how each frame from the NCP changes the
//! receive state, and what is to be sent or handed on in return.
//!
//! The listener does no I/O. For each frame it returns the actions to take, in order;
//! the caller writes the frames, hands acknowledgements to the transmitter and payloads
//! to the pending command.
use crate::packet::{Data, DataView, Packet, PacketView};
use crate::protocol::output::frame_of;
use crate::protocol::randomization::spec_masked;
use crate::protocol::response::HandleResult;
use crate::protocol::state::spec_ack_number;
use crate::protocol::worker::{ack_of, is_retransmitted};
use crate::seq_num::{next_three_bit_number, wrap3};
use vstd::prelude::*;

verus! {

/// What the caller of the listener has to do.
#[derive(Clone, Debug, PartialEq, Eq)]
pub enum Action {
    /// Send an ACK frame with this number to the NCP.
    SendAck(u8),
    /// Send a NAK frame with this number to the NCP.
    SendNak(u8),
    /// Tell the transmitter that the NCP acknowledged frames up to this number.
    ForwardAck(u8),
    /// Tell the transmitter that the NCP rejected frames from this number on.
    ForwardNak(u8),
    /// Share the current ACK number with the transmitter.
    PublishAckNumber(u8),
    /// Hand this (unmasked) payload to the pending command or the callback.
    ForwardPayload(Vec<u8>),
    /// Abort the pending command, since the NCP was reset.
    AbortCommand,
}

/// The plain contents of an action.
pub enum ActionView {
    SendAck(u8),
    SendNak(u8),
    ForwardAck(u8),
    ForwardNak(u8),
    PublishAckNumber(u8),
    ForwardPayload(Seq<u8>),
    AbortCommand,
}

impl View for Action {
    type V = ActionView;

    open spec fn view(&self) -> ActionView {
        match self {
            Action::SendAck(n) => ActionView::SendAck(*n),
            Action::SendNak(n) => ActionView::SendNak(*n),
            Action::ForwardAck(n) => ActionView::ForwardAck(*n),
            Action::ForwardNak(n) => ActionView::ForwardNak(*n),
            Action::PublishAckNumber(n) => ActionView::PublishAckNumber(*n),
            Action::ForwardPayload(payload) => ActionView::ForwardPayload(payload@),
            Action::AbortCommand => ActionView::AbortCommand,
        }
    }
}

/// The plain contents of a list of actions.
pub open spec fn actions_view(actions: Seq<Action>) -> Seq<ActionView> {
    actions.map_values(|action: Action| action@)
}

/// The receive state of the listener.
pub struct ListenerView {
    pub connected: bool,
    pub is_rejecting: bool,
    pub last_received_frame_number: Option<u8>,
}

/// Entering the reject condition: a NAK with the current ACK number is sent.
pub open spec fn spec_reject(l: ListenerView) -> (ListenerView, Seq<ActionView>) {
    (
        ListenerView { is_rejecting: true, ..l },
        seq![ActionView::SendNak(spec_ack_number(l.last_received_frame_number))],
    )
}

/// The effect of a DATA frame:
/// - with a wrong checksum, the reject condition is entered;
/// - the frame expected next is acknowledged, leaves the reject condition and becomes the
///   last frame received; the new ACK number is shared, and the frame's ACK number and
///   its unmasked payload are handed on;
/// - a retransmitted frame has the ACK number shared and its ACK number and payload
///   handed on;
/// - any other frame is out of sequence and enters the reject condition, unless it is
///   entered already.
pub open spec fn spec_handle_data(l: ListenerView, data: DataView) -> (ListenerView, Seq<ActionView>) {
    let ack_number = spec_ack_number(l.last_received_frame_number);
    if data.crc != data.spec_calculate_crc() {
        spec_reject(l)
    } else if frame_of(data) == ack_number {
        let next = ListenerView {
            is_rejecting: false,
            last_received_frame_number: Some(frame_of(data)),
            ..l
        };
        (
            next,
            seq![
                ActionView::SendAck(spec_ack_number(Some(frame_of(data)))),
                ActionView::PublishAckNumber(spec_ack_number(Some(frame_of(data)))),
                ActionView::ForwardAck(ack_of(data)),
                ActionView::ForwardPayload(spec_masked(data.payload)),
            ],
        )
    } else if is_retransmitted(data) {
        (
            l,
            seq![
                ActionView::PublishAckNumber(ack_number),
                ActionView::ForwardAck(ack_of(data)),
                ActionView::ForwardPayload(spec_masked(data.payload)),
            ],
        )
    } else if !l.is_rejecting {
        spec_reject(l)
    } else {
        (l, Seq::empty())
    }
}

/// The effect of an RSTACK frame: the receive state starts afresh, the connection is up
/// and the pending command is aborted.
pub open spec fn spec_handle_rst_ack(l: ListenerView) -> (ListenerView, Seq<ActionView>) {
    (
        ListenerView { connected: true, is_rejecting: false, last_received_frame_number: None },
        seq![ActionView::AbortCommand],
    )
}

/// The effect of a frame from the NCP. While not connected, only an RSTACK frame is
/// taken; an ERROR frame ends the connection.
pub open spec fn spec_handle_frame(l: ListenerView, packet: PacketView) -> (
    ListenerView,
    Seq<ActionView>,
) {
    if l.connected {
        match packet {
            PacketView::Ack(ack) => (l, seq![ActionView::ForwardAck(ack.header@ % 8)]),
            PacketView::Data(data) => spec_handle_data(l, data),
            PacketView::Error(_) => (ListenerView { connected: false, ..l }, Seq::empty()),
            PacketView::Nak(nak) => (l, seq![ActionView::ForwardNak(nak.header % 8)]),
            PacketView::RstAck(_) => spec_handle_rst_ack(l),
            PacketView::Rst(_) => (l, Seq::empty()),
        }
    } else {
        match packet {
            PacketView::RstAck(_) => spec_handle_rst_ack(l),
            _ => (l, Seq::empty()),
        }
    }
}

/// What becomes of a received payload, given the pending command's answer to it, if there
/// is a pending command.
#[derive(Clone, Copy, Debug, PartialEq, Eq, Structural)]
pub struct Forwarding {
    /// Whether the command stays pending.
    pub keep_handler: bool,
    /// Whether the task awaiting the command is woken.
    pub wake_handler: bool,
    /// Whether the payload goes to the callback channel.
    pub to_callback: bool,
}

/// A completed or failed command is woken and no longer pending; one that continues stays
/// pending; one that rejects the payload stays pending and the payload goes to the
/// callback, if there is one; with no pending command the payload goes to the callback.
pub open spec fn spec_forwarding(result: Option<HandleResult>, has_callback: bool) -> Forwarding {
    match result {
        None => Forwarding { keep_handler: false, wake_handler: false, to_callback: has_callback },
        Some(HandleResult::Completed) => Forwarding {
            keep_handler: false,
            wake_handler: true,
            to_callback: false,
        },
        Some(HandleResult::Failed) => Forwarding {
            keep_handler: false,
            wake_handler: true,
            to_callback: false,
        },
        Some(HandleResult::Continue) => Forwarding {
            keep_handler: true,
            wake_handler: false,
            to_callback: false,
        },
        Some(HandleResult::Reject) => Forwarding {
            keep_handler: true,
            wake_handler: false,
            to_callback: has_callback,
        },
    }
}

/// Decides what becomes of a received payload, given the answer of the pending command
/// (`None` if there is none) and whether a callback channel is registered.
pub fn forwarding(result: Option<HandleResult>, has_callback: bool) -> (res: Forwarding)
    ensures
        res == spec_forwarding(result, has_callback),
{
    match result {
        None => Forwarding { keep_handler: false, wake_handler: false, to_callback: has_callback },
        Some(HandleResult::Completed) | Some(HandleResult::Failed) => Forwarding {
            keep_handler: false,
            wake_handler: true,
            to_callback: false,
        },
        Some(HandleResult::Continue) => Forwarding {
            keep_handler: true,
            wake_handler: false,
            to_callback: false,
        },
        Some(HandleResult::Reject) => Forwarding {
            keep_handler: true,
            wake_handler: false,
            to_callback: has_callback,
        },
    }
}

/// The receive state of the host.
#[derive(Debug)]
pub struct Listener {
    connected: bool,
    is_rejecting: bool,
    last_received_frame_number: Option<u8>,
}

impl View for Listener {
    type V = ListenerView;

    closed spec fn view(&self) -> ListenerView {
        ListenerView {
            connected: self.connected,
            is_rejecting: self.is_rejecting,
            last_received_frame_number: self.last_received_frame_number,
        }
    }
}

impl Listener {
    /// Creates a listener that is not connected and has received no frame.
    pub fn new() -> (res: Self)
        ensures
            res@ == (ListenerView {
                connected: false,
                is_rejecting: false,
                last_received_frame_number: None,
            }),
    {
        Self { connected: false, is_rejecting: false, last_received_frame_number: None }
    }

    /// Whether the connection is up.
    pub fn is_connected(&self) -> (res: bool)
        ensures
            res == self@.connected,
    {
        self.connected
    }

    /// Whether the reject condition is set.
    pub fn is_rejecting(&self) -> (res: bool)
        ensures
            res == self@.is_rejecting,
    {
        self.is_rejecting
    }

    /// The number of the next frame expected from the NCP.
    pub fn ack_number(&self) -> (res: u8)
        ensures
            res == spec_ack_number(self@.last_received_frame_number),
    {
        match self.last_received_frame_number {
            Some(n) => next_three_bit_number(n),
            None => 0,
        }
    }

    /// Enters the reject condition and sends a NAK.
    fn reject(&mut self, actions: &mut Vec<Action>)
        ensures
            final(self)@ == spec_reject(old(self)@).0,
            actions_view(final(actions)@) == actions_view(old(actions)@) + spec_reject(
                old(self)@,
            ).1,
    {
        let ghost before = actions@;
        self.is_rejecting = true;
        actions.push(Action::SendNak(self.ack_number()));
        assert(actions_view(actions@) =~= actions_view(before) + spec_reject(old(self)@).1);
    }

    /// Forgets the received frames and leaves the reject condition.
    pub fn reset_state(&mut self)
        ensures
            final(self)@ == (ListenerView {
                is_rejecting: false,
                last_received_frame_number: None,
                ..old(self)@
            }),
    {
        self.is_rejecting = false;
        self.last_received_frame_number = None;
    }

    /// Handles a DATA frame; returns the actions to take, in order.
    pub fn handle_data(&mut self, data: &Data) -> (res: Vec<Action>)
        ensures
            (final(self)@, actions_view(res@)) == spec_handle_data(old(self)@, data@),
    {
        let mut actions: Vec<Action> = Vec::new();
        let ack_number = self.ack_number();
        let frame_num = data.frame_num().as_u8();
        if !data.is_crc_valid() {
            self.reject(&mut actions);
        } else if frame_num == ack_number {
            actions.push(Action::SendAck(next_three_bit_number(frame_num)));
            self.is_rejecting = false;
            self.last_received_frame_number = Some(frame_num);
            actions.push(Action::PublishAckNumber(self.ack_number()));
            actions.push(Action::ForwardAck(data.ack_num().as_u8()));
            actions.push(Action::ForwardPayload(data.unmasked_payload()));
        } else if data.is_retransmission() {
            actions.push(Action::PublishAckNumber(ack_number));
            actions.push(Action::ForwardAck(data.ack_num().as_u8()));
            actions.push(Action::ForwardPayload(data.unmasked_payload()));
        } else if !self.is_rejecting {
            self.reject(&mut actions);
        }
        assert(actions_view(actions@) =~= spec_handle_data(old(self)@, data@).1);
        actions
    }

    /// Handles an RSTACK frame.
    pub fn handle_rst_ack(&mut self) -> (res: Vec<Action>)
        ensures
            (final(self)@, actions_view(res@)) == spec_handle_rst_ack(old(self)@),
    {
        self.reset_state();
        self.connected = true;
        let mut actions: Vec<Action> = Vec::new();
        actions.push(Action::AbortCommand);
        assert(actions_view(actions@) =~= spec_handle_rst_ack(old(self)@).1);
        actions
    }

    /// Handles a frame from the NCP; returns the actions to take, in order.
    pub fn handle_frame(&mut self, packet: &Packet) -> (res: Vec<Action>)
        ensures
            (final(self)@, actions_view(res@)) == spec_handle_frame(old(self)@, packet@),
    {
        if self.connected {
            match packet {
                Packet::Ack(ack) => {
                    let mut actions: Vec<Action> = Vec::new();
                    actions.push(Action::ForwardAck(ack.ack_num()));
                    assert(actions_view(actions@) =~= spec_handle_frame(old(self)@, packet@).1);
                    actions
                },
                Packet::Data(data) => self.handle_data(data),
                Packet::Error(_) => {
                    self.connected = false;
                    let actions: Vec<Action> = Vec::new();
                    assert(actions_view(actions@) =~= Seq::<ActionView>::empty());
                    actions
                },
                Packet::Nak(nak) => {
                    let mut actions: Vec<Action> = Vec::new();
                    actions.push(Action::ForwardNak(nak.ack_num()));
                    assert(actions_view(actions@) =~= spec_handle_frame(old(self)@, packet@).1);
                    actions
                },
                Packet::RstAck(_) => self.handle_rst_ack(),
                Packet::Rst(_) => {
                    let actions: Vec<Action> = Vec::new();
                    assert(actions_view(actions@) =~= Seq::<ActionView>::empty());
                    actions
                },
            }
        } else {
            match packet {
                Packet::RstAck(_) => self.handle_rst_ack(),
                _ => {
                    let actions: Vec<Action> = Vec::new();
                    assert(actions_view(actions@) =~= Seq::<ActionView>::empty());
                    actions
                },
            }
        }
    }
}

/// A DATA frame with a valid checksum received in sequence advances the ACK number by
/// one, modulo eight, leaves the reject condition, and is acknowledged with the new ACK
/// number before anything else happens.
pub proof fn lemma_listener_in_sequence(l: ListenerView, data: DataView)
    requires
        data.crc == data.spec_calculate_crc(),
        frame_of(data) == spec_ack_number(l.last_received_frame_number),
    ensures
        ({
            let (next, actions) = spec_handle_data(l, data);
            &&& spec_ack_number(next.last_received_frame_number) == wrap3(
                spec_ack_number(l.last_received_frame_number) + 1,
            )
            &&& !next.is_rejecting
            &&& actions[0] == ActionView::SendAck(spec_ack_number(next.last_received_frame_number))
            &&& actions.last() == ActionView::ForwardPayload(spec_masked(data.payload))
        }),
{
}

/// A DATA frame whose checksum is wrong never reaches the pending command: the listener
/// only rejects it.
pub proof fn lemma_listener_drops_corrupt_data(l: ListenerView, data: DataView)
    requires
        data.crc != data.spec_calculate_crc(),
    ensures
        spec_handle_data(l, data) == (
            ListenerView { is_rejecting: true, ..l },
            seq![ActionView::SendNak(spec_ack_number(l.last_received_frame_number))],
        ),
{
}

/// A DATA frame with a valid checksum that is received in sequence or is retransmitted
/// hands its own ACK number (the low three bits of its header) to the transmitter, and
/// no other: the actions forward exactly what an ACK frame with that number would.
pub proof fn lemma_listener_forwards_data_ack(l: ListenerView, data: DataView)
    requires
        data.crc == data.spec_calculate_crc(),
        frame_of(data) == spec_ack_number(l.last_received_frame_number) || data.header & 0x08u8
            != 0,
    ensures
        ({
            let actions = spec_handle_data(l, data).1;
            &&& exists|k: int|
                0 <= k < actions.len() && #[trigger] actions[k] == ActionView::ForwardAck(
                    data.header & 0x07u8,
                )
            &&& forall|k: int|
                0 <= k < actions.len() && #[trigger] actions[k] is ForwardAck ==> actions[k]
                    == ActionView::ForwardAck(data.header & 0x07u8)
            &&& l.connected ==> spec_handle_frame(l, PacketView::Data(data)).1 == actions
        }),
{
    let actions = spec_handle_data(l, data).1;
    if frame_of(data) == spec_ack_number(l.last_received_frame_number) {
        assert(actions[2] == ActionView::ForwardAck(data.header & 0x07u8));
    } else {
        assert(actions[1] == ActionView::ForwardAck(data.header & 0x07u8));
    }
}

/// The actions for a DATA frame with a valid checksum, in order. One received in sequence
/// is acknowledged with the number after its own frame number, which is also shared,
/// before its ACK number and its unmasked payload are handed on, and it becomes the last
/// frame received. A retransmitted frame out of sequence changes nothing: the current ACK
/// number is shared, and its ACK number and unmasked payload are handed on.
pub proof fn lemma_listener_data_actions(l: ListenerView, data: DataView)
    requires
        data.crc == data.spec_calculate_crc(),
    ensures
        ({
            let (next, actions) = spec_handle_data(l, data);
            let expected = match l.last_received_frame_number {
                Some(n) => (n + 1) % 8,
                None => 0,
            };
            let f = (data.header >> 4u8) & 0x07u8;
            &&& f == expected ==> {
                &&& next == (ListenerView {
                    is_rejecting: false,
                    last_received_frame_number: Some(f),
                    ..l
                })
                &&& actions == seq![
                    ActionView::SendAck(((f + 1) % 8) as u8),
                    ActionView::PublishAckNumber(((f + 1) % 8) as u8),
                    ActionView::ForwardAck(data.header & 0x07u8),
                    ActionView::ForwardPayload(spec_masked(data.payload)),
                ]
            }
            &&& f != expected && data.header & 0x08u8 != 0 ==> {
                &&& next == l
                &&& actions == seq![
                    ActionView::PublishAckNumber(expected as u8),
                    ActionView::ForwardAck(data.header & 0x07u8),
                    ActionView::ForwardPayload(spec_masked(data.payload)),
                ]
            }
        }),
{
}

} // verus!
