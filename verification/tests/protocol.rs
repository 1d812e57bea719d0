use ashv2::read_frame::read_byte;
use ashv2::buffers::FrameBuffer;
use ashv2::error::{Error, FrameError};
use ashv2::packet::{Data, Packet, Rst};
use ashv2::protocol::ash_chunks::ash_chunks;
use ashv2::protocol::{Mask, MaskGenerator, Stuffing};
use ashv2::read_frame::{read_frame, ReadStep};
use ashv2::seq_num::SeqNum;
use ashv2::write_frame::write_frame;

fn chunks(bytes: &[u8]) -> Result<Vec<Vec<u8>>, Error> {
    ash_chunks(bytes)
}

#[test]
fn test_too_few_ash_chunks() {
    let bytes: Vec<u8> = (1..Data::MIN_PAYLOAD_SIZE)
        .map(|num| u8::try_from(num).expect("Number should be a valid u8"))
        .collect();
    let chunks = ash_chunks(&bytes);
    assert!(chunks.is_err());
}

#[test]
fn test_ash_chunks_max_size() {
    let bytes: Vec<u8> = (1..=Data::MAX_PAYLOAD_SIZE)
        .map(|num| u8::try_from(num).expect("Number should be a valid u8"))
        .collect();
    let chunks: Vec<Vec<u8>> = ash_chunks(&bytes).expect("Chunks should be valid.");
    assert_eq!(chunks.len(), 1);
    assert_eq!(chunks[0].len(), bytes.len());
}

#[test]
fn test_ash_chunks() {
    let bytes: Vec<u8> = (u8::MIN..=u8::MAX).collect();
    for chunk in &ash_chunks(&bytes).expect("Chunks should always be able to be distributed.") {
        assert_eq!(
            chunk.len(),
            chunk.len().clamp(Data::MIN_PAYLOAD_SIZE, Data::MAX_PAYLOAD_SIZE)
        );
    }
}

#[test]
fn test_min_payload_size() {
    let bytes = vec![0; Data::MIN_PAYLOAD_SIZE];
    let chunks: Vec<_> = chunks(&bytes).unwrap();
    assert_eq!(chunks.len(), 1);
    assert_eq!(chunks[0].len(), Data::MIN_PAYLOAD_SIZE);
}

#[test]
fn test_max_payload_size() {
    let bytes = vec![0; Data::MAX_PAYLOAD_SIZE];
    let chunks: Vec<_> = chunks(&bytes).unwrap();
    assert_eq!(chunks.len(), 1);
    assert_eq!(chunks[0].len(), Data::MAX_PAYLOAD_SIZE);
}

#[test]
fn test_mid_payload_size() {
    let mid_size = (Data::MIN_PAYLOAD_SIZE + Data::MAX_PAYLOAD_SIZE) / 2;
    let bytes = vec![0; mid_size];
    let chunks: Vec<_> = chunks(&bytes).unwrap();
    assert_eq!(chunks.len(), 1);
    assert_eq!(chunks[0].len(), mid_size);
}

#[test]
fn test_large_even_payload_size() {
    let size = Data::MAX_PAYLOAD_SIZE * 2;
    let bytes = vec![0; size];
    let chunks: Vec<_> = chunks(&bytes).unwrap();
    assert_eq!(chunks.len(), 2);
    assert_eq!(chunks[0].len(), Data::MAX_PAYLOAD_SIZE);
    assert_eq!(chunks[1].len(), Data::MAX_PAYLOAD_SIZE);
}

#[test]
fn test_large_odd_payload_size() {
    let size = Data::MAX_PAYLOAD_SIZE * 2 + Data::MIN_PAYLOAD_SIZE;
    let bytes = vec![0; size];
    let chunks: Vec<_> = chunks(&bytes).unwrap();
    assert_eq!(chunks.len(), 3);
    assert_eq!(chunks[0].len(), Data::MAX_PAYLOAD_SIZE);
    assert_eq!(chunks[1].len(), Data::MAX_PAYLOAD_SIZE);
    assert_eq!(chunks[2].len(), Data::MIN_PAYLOAD_SIZE);
}

#[test]
fn ash_chunks_concatenate_to_input() {
    let bytes: Vec<u8> = (0..=255u8).chain(0..=100u8).collect();
    let chunks = ash_chunks(&bytes).unwrap();
    let joined: Vec<u8> = chunks.concat();
    assert_eq!(joined, bytes);
    assert!(chunks.iter().all(|c| (3..=128).contains(&c.len())));
}

#[test]
fn ash_chunks_empty_is_error() {
    assert!(ash_chunks(&[]).is_err());
}

#[test]
fn test_mask_generator() {
    let mask_generator = MaskGenerator::default();
    let first_five: Vec<_> = mask_generator.take(5);
    assert_eq!(first_five, vec![0x42, 0x21, 0xA8, 0x54, 0x2A]);
}

#[test]
fn test_mask_with_version_command() {
    let mut bytes = vec![0x00, 0x00, 0x00, 0x02];
    let original = bytes.clone();
    bytes.mask();
    assert_eq!(bytes, vec![0x42, 0x21, 0xA8, 0x56]);
    bytes.mask();
    assert_eq!(bytes, original);
}

#[test]
fn test_mask_with_version_response() {
    let mut bytes = vec![0x00, 0x80, 0x00, 0x02, 0x02, 0x11, 0x30];
    let original = bytes.clone();
    bytes.mask();
    assert_eq!(bytes, vec![0x42, 0xA1, 0xA8, 0x56, 0x28, 0x04, 0x82]);
    bytes.mask();
    assert_eq!(bytes, original);
}

fn frame_buffer(bytes: &[u8]) -> FrameBuffer {
    heapless::Vec::from_slice(bytes).unwrap()
}

#[test]
fn test_stuffing() {
    let mut unstuffed = frame_buffer(&[0x7E, 0x11, 0x13, 0x18, 0x1A, 0x7D]);
    let stuffed = [0x7D, 0x5E, 0x7D, 0x31, 0x7D, 0x33, 0x7D, 0x38, 0x7D, 0x3A, 0x7D, 0x5D];
    unstuffed.stuff().expect("could not stuff bytes");
    assert_eq!(unstuffed.as_slice(), stuffed.as_slice());
}

#[test]
fn test_unstuffing() {
    let mut stuffed =
        frame_buffer(&[0x7D, 0x5E, 0x7D, 0x31, 0x7D, 0x33, 0x7D, 0x38, 0x7D, 0x3A, 0x7D, 0x5D]);
    let unstuffed = [0x7E, 0x11, 0x13, 0x18, 0x1A, 0x7D];
    stuffed.unstuff();
    assert_eq!(stuffed.as_slice(), unstuffed.as_slice());
}

#[test]
fn test_unstuffing_unchanged() {
    let payload = frame_buffer(&[
        0xd7, 0x90, 0xd7, 0xa0, 0xd7, 0x99, 0x20, 0xd7, 0x96, 0xd7, 0x95, 0xd7, 0x9b, 0xd7, 0xa8,
        0x20, 0xd7, 0x91, 0xd7, 0x9c, 0xd7, 0x99, 0xd7, 0x9c, 0xd7, 0x95, 0xd7, 0xaa, 0x20, 0xd7,
        0xa9, 0xd7, 0x9c, 0x20, 0xd7, 0x99, 0xd7, 0xa8, 0xd7, 0x97, 0x20, 0xd7, 0x9e, 0xd7, 0x9c,
        0xd7, 0x90, 0x20, 0xd7, 0x94, 0xd7, 0x99, 0xd7, 0x99, 0xd7, 0xaa, 0x20, 0xd7, 0x91, 0xd7,
        0x90, 0xd7, 0x94, 0x20, 0xd7, 0x90, 0xd7, 0x9c, 0xd7, 0x99,
    ]);
    let mut clone = payload.clone();
    clone.unstuff();
    assert_eq!(clone.as_slice(), payload.as_slice());
}

#[test]
fn stuffing_overflow_is_refused() {
    let mut full = frame_buffer(&[0x7E; 200]);
    assert!(full.stuff().is_err());
    // 64 bytes were escaped before the buffer filled up; the next one is complemented
    assert_eq!(full.len(), 264);
    assert_eq!(&full[126..130], &[0x7D, 0x5E, 0x5E, 0x7E]);
}

#[test]
fn stuff_then_unstuff_gives_bytes_back() {
    let bytes: Vec<u8> = (0..=255u8).take(120).chain([0x7E, 0x7D, 0x11, 0x13, 0x18, 0x1A]).collect();
    let mut buffer = frame_buffer(&bytes);
    buffer.stuff().unwrap();
    buffer.unstuff();
    assert_eq!(buffer.as_slice(), bytes.as_slice());
}

#[test]
fn write_then_read_frame_gives_packet_back() {
    let data = Data::new(SeqNum::One, heapless::Vec::from_slice(&[0x7E, 0x11, 0x22]).unwrap(), SeqNum::Three);
    let packet = Packet::Data(data);
    let mut encoded: FrameBuffer = heapless::Vec::new();
    write_frame(&packet, &mut encoded).unwrap();
    assert_eq!(*encoded.last().unwrap(), 0x7E);
    let mut wire: Vec<u8> = vec![0x55, 0x1A];
    wire.extend_from_slice(&encoded);
    wire.extend_from_slice(&[0x01, 0x02]);
    let mut buffer: FrameBuffer = heapless::Vec::new();
    let read = read_frame(&wire, &mut buffer).unwrap();
    assert_eq!(read, 2 + encoded.len());
    assert_eq!(Packet::try_from(buffer.as_slice()), Ok(packet));
}

#[test]
fn read_frame_errors() {
    let mut buffer: FrameBuffer = heapless::Vec::new();
    assert_eq!(read_frame(&[0x01, 0x02], &mut buffer), Err(FrameError::UnexpectedEof));
    let long = vec![0x01u8; 300];
    assert_eq!(read_frame(&long, &mut buffer), Err(FrameError::BufferOverflow));
}

#[test]
fn read_byte_steps() {
    let mut buffer: FrameBuffer = heapless::Vec::new();
    let mut error = false;
    assert_eq!(read_byte(&mut buffer, &mut error, 0xC0), ReadStep::Pending);
    assert_eq!(read_byte(&mut buffer, &mut error, 0x18), ReadStep::Pending);
    assert!(error);
    assert_eq!(read_byte(&mut buffer, &mut error, 0x7E), ReadStep::Pending);
    assert!(!error && buffer.is_empty());
    for byte in [0xC0, 0x38, 0xBC] {
        assert_eq!(read_byte(&mut buffer, &mut error, byte), ReadStep::Pending);
    }
    assert_eq!(read_byte(&mut buffer, &mut error, 0x7E), ReadStep::Frame);
    assert_eq!(Packet::try_from(buffer.as_slice()), Ok(Packet::Rst(Rst::new())));
}
