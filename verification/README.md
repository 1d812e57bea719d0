# ashv2

The Asynchronous Serial Host protocol, version 2 (`ASHv2`), as a library whose
behaviour is stated in contracts and proved with Verus, and a small program that
runs it on a serial port.

## Layout

- `src/` — the verified library.
  - `packet/` — the frames (ACK, NAK, DATA, ERROR, RST, RSTACK): parsing, bytes,
    checksums and text forms; `packet.rs` dispatches on the header byte.
  - `crc.rs` — the CRC-16 checksum of the frames; `baud_rate.rs` — the serial rates.
  - `protocol/stuffing.rs`, `protocol/randomization.rs` — byte stuffing and payload
    masking, with their round-trip laws.
  - `read_frame.rs`, `write_frame.rs` — reading frames from a byte stream and encoding
    them for the wire; reading an encoded frame gives the frame back.
  - `protocol/ash_chunks.rs` — splitting a payload into DATA-frame-sized chunks.
  - `protocol/worker.rs`, `protocol/listener.rs`, `protocol/transmitter.rs`,
    `protocol/connect.rs` — the host's decisions: acknowledgements, rejections,
    retransmissions, timeouts and connection set-up, as functions from state and event
    to new state and the frames to send. They do no I/O.
  - `protocol/state.rs`, `input.rs`, `output.rs`, `task_queue.rs`,
    `reset_response.rs` — link state and buffers.
  - `buffers.rs` — the fixed-capacity buffers of the `heapless` crate and the
    contracts assumed of them.
- `tests/` — tests on concrete values.
- `app/` — the program: serial-port I/O, threads and channels around the library.
