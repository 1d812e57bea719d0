//! Writing frames: the bytes of a frame are stuffed and terminated by the flag byte.
use crate::buffers::{
    frame_buffer_clear, frame_buffer_extend_from_slice, frame_buffer_push, frame_bytes,
    FrameBuffer, FRAME_BUFFER_SIZE,
};
use crate::error::FrameError;
use crate::packet::{lemma_packet_roundtrip, Data, Packet, PacketView};
use crate::protocol::control_byte::{CANCEL, ESCAPE, FLAG, SUBSTITUTE, WAKE, X_OFF, X_ON};
use crate::protocol::stuffing::{
    is_reserved, lemma_stuffed_bytes, lemma_unstuff_stuff, spec_stuff, spec_unstuff, stuff_byte,
    Stuffing,
};
use crate::read_frame::{initial_state, spec_run, spec_step, ReadStep, ReaderState};
use vstd::prelude::*;

verus! {

/// The bytes that carry a frame on the wire: the stuffed frame and the flag byte.
pub open spec fn spec_encode(bytes: Seq<u8>) -> Seq<u8> {
    spec_stuff(bytes) + seq![FLAG]
}

/// A stuffed sequence is at most twice as long as the original.
pub proof fn lemma_stuff_max_len(bytes: Seq<u8>)
    ensures
        spec_stuff(bytes).len() <= 2 * bytes.len(),
    decreases bytes.len(),
{
    if bytes.len() > 0 {
        lemma_stuff_max_len(bytes.drop_first());
    }
}

/// Writes the encoded frame into `buffer`, replacing its contents.
pub fn write_frame(packet: &Packet, buffer: &mut FrameBuffer) -> (res: Result<(), FrameError>)
    ensures
        res is Ok <==> spec_encode(packet@.spec_bytes()).len() <= FRAME_BUFFER_SIZE,
        res is Ok ==> frame_bytes(*final(buffer)) == spec_encode(packet@.spec_bytes()),
        res is Err ==> res == Err::<(), FrameError>(FrameError::BufferOverflow),
        packet@.wf() ==> res is Ok,
{
    let bytes = packet.bytes();
    proof {
        lemma_packet_bytes_len(packet@);
        lemma_stuff_max_len(packet@.spec_bytes());
    }
    frame_buffer_clear(buffer);
    if frame_buffer_extend_from_slice(buffer, bytes.as_slice()).is_err() {
        proof {
            crate::protocol::stuffing::lemma_stuff_len(packet@.spec_bytes());
        }
        return Err(FrameError::BufferOverflow);
    }
    assert(frame_bytes(*buffer) =~= packet@.spec_bytes());
    if buffer.stuff().is_err() {
        return Err(FrameError::BufferOverflow);
    }
    match frame_buffer_push(buffer, FLAG) {
        Ok(()) => Ok(()),
        Err(_) => Err(FrameError::BufferOverflow),
    }
}

/// The bytes of a well-formed frame number at most a header, a maximal payload and a
/// checksum, and do not start with the wake byte.
pub proof fn lemma_packet_bytes_len(packet: PacketView)
    ensures
        packet.wf() ==> packet.spec_bytes().len() <= Data::BUFFER_SIZE,
        packet.wf() ==> packet.spec_bytes().len() > 0 && packet.spec_bytes()[0] != WAKE,
{
    if packet.wf() {
        match packet {
            PacketView::Ack(ack) => {
                let h = ack.header@;
                assert(crate::packet::is_ack_header(h) ==> h != 0xFFu8) by (bit_vector);
            },
            PacketView::Nak(nak) => {
                let h = nak.header;
                assert(crate::packet::is_nak_header(h) ==> h != 0xFFu8) by (bit_vector);
            },
            PacketView::Data(data) => {
                let h = data.header;
                assert(crate::packet::is_data_header(h) ==> h != 0xFFu8) by (bit_vector);
            },
            _ => {},
        }
    }
}

/// Bytes that are neither control bytes nor, at the start of a frame, the wake byte
/// are collected, and the flag byte then completes the frame.
pub proof fn lemma_run_collects(state: ReaderState, s: Seq<u8>, t: Seq<u8>)
    requires
        !state.error,
        forall|i: int| 0 <= i < s.len() ==> (#[trigger] s[i] == ESCAPE || !is_reserved(s[i])),
        state.buffer.len() > 0 || (s.len() > 0 && s[0] != WAKE),
        state.buffer.len() + s.len() <= FRAME_BUFFER_SIZE,
    ensures
        spec_run(state, s + seq![FLAG] + t) == (
            ReaderState { buffer: spec_unstuff(state.buffer + s), error: false },
            ReadStep::Frame,
            s.len() + 1,
        ),
    decreases s.len(),
{
    let all = s + seq![FLAG] + t;
    if s.len() == 0 {
        assert(all[0] == FLAG);
        assert(state.buffer + s =~= state.buffer);
    } else {
        let b = s[0];
        assert(all[0] == b);
        assert(b == ESCAPE || !is_reserved(b));
        let next = ReaderState { buffer: state.buffer.push(b), error: false };
        assert(spec_step(state, b) == (next, ReadStep::Pending));
        let rest = s.drop_first();
        assert forall|i: int| 0 <= i < rest.len() implies (#[trigger] rest[i] == ESCAPE
            || !is_reserved(rest[i])) by {
            assert(rest[i] == s[i + 1]);
        }
        lemma_run_collects(next, rest, t);
        assert(all.drop_first() =~= rest + seq![FLAG] + t);
        assert(next.buffer + rest =~= state.buffer + s);
    }
}

/// Reading the encoding of a well-formed frame, followed by any bytes, yields the
/// frame's bytes after reading exactly the encoding, and they parse as the frame.
pub proof fn lemma_read_encoded_frame(packet: PacketView, trailing: Seq<u8>)
    requires
        packet.wf(),
    ensures
        ({
            let (last, step, n) = spec_run(
                initial_state(),
                spec_encode(packet.spec_bytes()) + trailing,
            );
            &&& step == ReadStep::Frame
            &&& n == spec_encode(packet.spec_bytes()).len()
            &&& last.buffer == packet.spec_bytes()
            &&& PacketView::spec_parse(last.buffer) == Ok::<PacketView, FrameError>(packet)
        }),
{
    let bytes = packet.spec_bytes();
    let s = spec_stuff(bytes);
    lemma_packet_bytes_len(packet);
    lemma_stuff_max_len(bytes);
    lemma_stuffed_bytes(bytes);
    lemma_unstuff_stuff(bytes);
    lemma_packet_roundtrip(packet);
    let b0 = bytes[0];
    assert(s =~= stuff_byte(b0) + spec_stuff(bytes.drop_first()));
    if is_reserved(b0) {
        assert(s[0] == ESCAPE);
    } else {
        assert(s[0] == b0);
    }
    assert(initial_state().buffer + s =~= s);
    assert(spec_encode(bytes) + trailing =~= s + seq![FLAG] + trailing);
    lemma_run_collects(initial_state(), s, trailing);
}

} // verus!
