use ashv2::seq_num::SeqNum;
use ashv2::code::Code;
use ashv2::crc::checksum;
use ashv2::error::FrameError;
use ashv2::packet::headers;
use ashv2::packet::{Ack, Data, Error, Nak, Packet, Rst, RstAck};
use ashv2::protocol::Mask;

fn ack1() -> Ack {
    Ack { header: headers::Ack::from_bits_retain(0x81), crc: 0x6059 }
}

fn ack2() -> Ack {
    Ack { header: headers::Ack::from_bits_retain(0x8E), crc: 0x91B6 }
}
const NAK1: Nak = Nak { header: 0xA6, crc: 0x34DC };
const NAK2: Nak = Nak { header: 0xAD, crc: 0x85B7 };
const ERROR: Error = Error { header: 0xC2, version: 0x02, code: 0x51, crc: 0xA8BD };
const RST: Rst = Rst { header: 0xC0, crc: 0x38BC };
const RST_ACK: RstAck = RstAck { header: 0xC1, version: 0x02, reset_code: 0x02, crc: 0x9B7B };

fn payload(bytes: &[u8]) -> heapless::Vec<u8, 128> {
    heapless::Vec::from_slice(bytes).unwrap()
}

fn version_command() -> Data {
    // EZSP "version" command: 00 00 00 02
    Data {
        header: headers::Data::from_bits_retain(0x25),
        payload: payload(&[0x00, 0x00, 0x00, 0x02]),
        crc: 0x1AAD,
    }
}

fn version_response() -> Data {
    // EZSP "version" response: 00 80 00 02 02 11 30
    Data {
        header: headers::Data::from_bits_retain(0x53),
        payload: payload(&[0x00, 0x80, 0x00, 0x02, 0x02, 0x11, 0x30]),
        crc: 0x6316,
    }
}

#[test]
fn ack_test_ready() {
    assert!(!ack1().not_ready());
    assert!(ack2().not_ready());
}

#[test]
fn ack_test_ack_num() {
    assert_eq!(ack1().ack_num(), 1);
    assert_eq!(ack2().ack_num(), 6);
}

#[test]
fn ack_test_to_string() {
    assert_eq!(&ack1().to_string(), "ACK(1)+");
    assert_eq!(&ack2().to_string(), "ACK(6)-");
}

#[test]
fn ack_test_header() {
    assert_eq!(ack1().header(), 0x81);
    assert_eq!(ack2().header(), 0x8E);
}

#[test]
fn ack_test_crc() {
    assert_eq!(ack1().crc(), 0x6059);
    assert_eq!(ack2().crc(), 0x91B6);
}

#[test]
fn ack_test_is_crc_valid() {
    assert!(ack1().is_crc_valid());
    assert!(ack2().is_crc_valid());
}

#[test]
fn ack_test_from_buffer() {
    let buffer1: Vec<u8> = vec![0x81, 0x60, 0x59];
    assert_eq!(
        Ack::try_from(buffer1.as_slice()).expect("Reference frame should be a valid ACK"),
        ack1()
    );
    let buffer2: Vec<u8> = vec![0x8E, 0x91, 0xB6];
    assert_eq!(
        Ack::try_from(buffer2.as_slice()).expect("Reference frame should be a valid ACK"),
        ack2()
    );
}

#[test]
fn from_ack_num() {
    for ack_num in u8::MIN..=u8::MAX {
        assert_eq!(Ack::from_ack_num(ack_num).ack_num(), ack_num % 8);
    }
}

#[test]
fn test_frame_num() {
    assert_eq!(version_command().frame_num().as_u8(), 2);
    assert_eq!(version_response().frame_num().as_u8(), 5);
}

#[test]
fn data_test_ack_num() {
    assert_eq!(version_command().ack_num().as_u8(), 5);
    assert_eq!(version_response().ack_num().as_u8(), 3);
}

#[test]
fn test_retransmit() {
    let mut data = version_command();
    assert!(!data.is_retransmission());
    data.set_is_retransmission(true);
    assert!(data.is_retransmission());
    assert!(data.is_crc_valid());

    let mut data = version_response();
    assert!(!data.is_retransmission());
    data.set_is_retransmission(true);
    assert!(data.is_retransmission());
    assert!(data.is_crc_valid());
}

#[test]
fn data_test_to_string() {
    assert_eq!(&version_command().to_string(), "DATA(2, 5, 0)");
    assert_eq!(&version_response().to_string(), "DATA(5, 3, 0)");
}

#[test]
fn data_test_crc() {
    assert_eq!(version_command().crc(), 0x1AAD);
    assert_eq!(version_response().crc(), 0x6316);
}

#[test]
fn data_test_is_crc_valid() {
    assert!(version_command().is_crc_valid());
    assert!(version_response().is_crc_valid());
}

#[test]
fn data_test_from_buffer() {
    let buffer: Vec<u8> = vec![0x25, 0x00, 0x00, 0x00, 0x02, 0x1A, 0xAD];
    assert_eq!(Data::try_from(buffer.as_slice()).unwrap(), version_command());
    let buffer: Vec<u8> = vec![0x53, 0x00, 0x80, 0x00, 0x02, 0x02, 0x11, 0x30, 0x63, 0x16];
    assert_eq!(Data::try_from(buffer.as_slice()).unwrap(), version_response());
}

#[test]
fn test_data_frame() {
    let header = 0x00;
    let payload_bytes = vec![0x01, 0x00, 0x00, 0x04];
    let mut masked_payload = payload_bytes.clone();
    masked_payload.mask();
    let mut crc_target = vec![header];
    crc_target.extend_from_slice(&masked_payload);
    let crc = checksum(&crc_target);
    let data = Data {
        header: headers::Data::from_bits_retain(0x00),
        payload: payload(&masked_payload),
        crc,
    };
    let mut unmasked_payload: Vec<u8> = data.clone().into_payload().to_vec();
    unmasked_payload.mask();
    assert_eq!(unmasked_payload, payload_bytes);
    let mut byte_representation: heapless::Vec<u8, 264> = heapless::Vec::new();
    data.buffer(&mut byte_representation).expect("Buffer should be large enough.");
    assert_eq!(byte_representation.as_slice(), &[0, 67, 33, 168, 80, 155, 152]);
}

#[test]
fn error_test_version() {
    assert_eq!(ERROR.version(), 2);
}

#[test]
fn error_test_code() {
    assert_eq!(ERROR.code(), Ok(Code::ExceededMaximumAckTimeoutCount));
}

#[test]
fn error_test_to_string() {
    assert_eq!(&ERROR.to_string(), "ERROR(0x02, 0x51)");
}

#[test]
fn error_test_header() {
    assert_eq!(ERROR.header(), 0xC2);
}

#[test]
fn error_test_crc() {
    assert_eq!(ERROR.crc(), 0xA8BD);
}

#[test]
fn error_test_from_buffer() {
    let buffer: Vec<u8> = vec![0xC2, 0x02, 0x51, 0xA8, 0xBD];
    assert_eq!(
        Error::try_from(buffer.as_slice()).expect("Reference frame should be a valid ERROR."),
        ERROR
    );
}

#[test]
fn test_is_valid() {
    assert!(NAK1.is_valid());
    assert!(NAK2.is_valid());
}

#[test]
fn nak_test_ready() {
    assert!(NAK1.ready());
    assert!(!NAK2.ready());
}

#[test]
fn nak_not_ready_bit() {
    assert!(!Nak::new(0xA8).ready());
    assert!(Nak::new(0xA7).ready());
    assert_eq!(Nak::new(0xA8).to_string(), "NAK(0)-");
}

#[test]
fn nak_test_ack_num() {
    assert_eq!(NAK1.ack_num(), 6);
    assert_eq!(NAK2.ack_num(), 5);
}

#[test]
fn nak_test_to_string() {
    assert_eq!(&NAK1.to_string(), "NAK(6)+");
    assert_eq!(&NAK2.to_string(), "NAK(5)-");
}

#[test]
fn nak_test_header() {
    assert_eq!(NAK1.header(), 0xA6);
    assert_eq!(NAK2.header(), 0xAD);
}

#[test]
fn nak_test_crc() {
    assert_eq!(NAK1.crc(), 0x34DC);
    assert_eq!(NAK2.crc(), 0x85B7);
}

#[test]
fn test_is_header_valid() {
    assert!(NAK1.is_header_valid());
    assert!(NAK2.is_header_valid());
}

#[test]
fn nak_test_from_buffer() {
    let buffer1: Vec<u8> = vec![0xA6, 0x34, 0xDC];
    assert_eq!(Nak::try_from(buffer1.as_slice()).unwrap(), NAK1);
    let buffer2: Vec<u8> = vec![0xAD, 0x85, 0xB7];
    assert_eq!(Nak::try_from(buffer2.as_slice()).unwrap(), NAK2);
}

#[test]
fn rst_test_to_string() {
    assert_eq!(&RST.to_string(), "RST()");
}

#[test]
fn rst_test_header() {
    assert_eq!(RST.header(), 0xC0);
}

#[test]
fn rst_test_crc() {
    assert_eq!(RST.crc(), 0x38BC);
}

#[test]
fn rst_test_from_buffer() {
    let buffer: Vec<u8> = vec![0xC0, 0x38, 0xBC];
    assert_eq!(
        Rst::try_from(buffer.as_slice()).expect("Reference frame should be a valid RST."),
        RST
    );
}

#[test]
fn rst_ack_test_version() {
    assert_eq!(RST_ACK.version(), 0x02);
}

#[test]
fn rst_ack_test_code() {
    assert_eq!(RST_ACK.code(), Ok(Code::PowerOn));
}

#[test]
fn rst_ack_test_to_string() {
    assert_eq!(&RST_ACK.to_string(), "RSTACK(0x02, 0x02)");
}

#[test]
fn rst_ack_test_header() {
    assert_eq!(RST_ACK.header(), 0xC1);
}

#[test]
fn rst_ack_test_crc() {
    assert_eq!(RST_ACK.crc(), 0x9B7B);
}

#[test]
fn rst_ack_test_is_crc_valid() {
    assert!(RST_ACK.is_crc_valid());
}

#[test]
fn rst_ack_test_from_buffer() {
    let buffer: Vec<u8> = vec![0xC1, 0x02, 0x02, 0x9B, 0x7B];
    assert_eq!(
        RstAck::try_from(buffer.as_slice()).expect("Reference frame should be a valid RSTACK"),
        RST_ACK
    );
}

#[test]
fn test_rst_try_from_bytes_slice() {
    const RST_BYTES: [u8; 4] = [0xC0, 0x38, 0xBC, 0x7E];
    let packet = Packet::try_from(&RST_BYTES[..RST_BYTES.len() - 1]).unwrap();
    assert_eq!(packet, Packet::Rst(Rst::new()));
}

#[test]
fn test_rstack_try_from_bytes_slice() {
    const RST_ACK_BYTES: [u8; 6] = [0xC1, 0x02, 0x02, 0x9B, 0x7B, 0x7E];
    match Packet::try_from(&RST_ACK_BYTES[..RST_ACK_BYTES.len() - 1]).unwrap() {
        Packet::RstAck(rst_ack) => {
            assert!(rst_ack.is_ash_v2());
            assert_eq!(rst_ack.version(), 2);
            assert_eq!(rst_ack.code(), Ok(Code::PowerOn));
            assert_eq!(rst_ack.crc(), 0x9B7B);
        }
        packet => panic!("Expected RstAck, got {packet:?}"),
    }
}

#[test]
fn test_error_try_from_bytes_slice() {
    const ERROR_BYTES: [u8; 6] = [0xC2, 0x02, 0x52, 0x98, 0xDE, 0x7E];
    match Packet::try_from(&ERROR_BYTES[..ERROR_BYTES.len() - 1]).unwrap() {
        Packet::Error(error) => {
            assert_eq!(error.version(), 2);
            assert_eq!(error.code(), Err(0x52));
            assert_eq!(error.crc(), 0x98DE);
        }
        packet => panic!("Expected Error, got {packet:?}"),
    }
}

#[test]
fn test_data_try_from_bytes_slice() {
    const DATA: [u8; 11] = [0x53, 0x00, 0x80, 0x00, 0x02, 0x02, 0x11, 0x30, 0x63, 0x16, 0x7E];
    match Packet::try_from(&DATA[..DATA.len() - 1]).unwrap() {
        Packet::Data(data) => {
            assert_eq!(data.crc(), 0x6316);
            assert!(data.is_crc_valid());
            assert_eq!(data.into_payload().as_slice(), &DATA[1..DATA.len() - 3]);
        }
        packet => panic!("Expected Data, got {packet:?}"),
    }
}

#[test]
fn test_ack_try_from_bytes_slice() {
    let ack = [0x81, 0x60, 0x59, 0x7E];
    match Packet::try_from(&ack[..ack.len() - 1]).unwrap() {
        Packet::Ack(ack) => {
            assert!(!ack.not_ready());
            assert_eq!(ack.ack_num(), 1);
            assert_eq!(ack.crc(), 0x6059);
            assert!(ack.is_crc_valid());
        }
        packet => panic!("Expected Ack, got {packet:?}"),
    }
    let ack = [0x8E, 0x91, 0xB6, 0x7E];
    match Packet::try_from(&ack[..ack.len() - 1]).unwrap() {
        Packet::Ack(ack) => {
            assert!(ack.not_ready());
            assert_eq!(ack.ack_num(), 0x06);
            assert_eq!(ack.crc(), 0x91B6);
            assert!(ack.is_crc_valid());
        }
        packet => panic!("Expected Ack, got {packet:?}"),
    }
}

#[test]
fn test_nak_try_from_bytes_slice() {
    let nak = [0xA6, 0x34, 0xDC, 0x7E];
    match Packet::try_from(&nak[..nak.len() - 1]).unwrap() {
        Packet::Nak(nak) => {
            assert!(nak.ready());
            assert_eq!(nak.ack_num(), 0x06);
            assert_eq!(nak.crc(), 0x34DC);
            assert!(nak.is_crc_valid());
        }
        packet => panic!("Expected Nak, got {packet:?}"),
    }
    let nak = [0xAD, 0x85, 0xB7, 0x7E];
    match Packet::try_from(&nak[..nak.len() - 1]).unwrap() {
        Packet::Nak(nak) => {
            assert!(!nak.ready());
            assert_eq!(nak.ack_num(), 0x05);
            assert_eq!(nak.crc(), 0x85B7);
            assert!(nak.is_crc_valid());
        }
        packet => panic!("Expected Nak, got {packet:?}"),
    }
}

#[test]
fn packet_parse_errors() {
    assert_eq!(Packet::try_from(&[0u8; 0][..]), Err(FrameError::MissingHeader));
    assert_eq!(
        Nak::try_from(&[0xA6, 0x34][..]),
        Err(FrameError::InvalidBufferSize { expected: 3, found: 2 })
    );
    assert_eq!(
        Ack::try_from(&[0x81, 0x60][..]),
        Err(FrameError::BufferTooSmall { expected: 3, found: 2 })
    );
    assert_eq!(
        Ack::try_from(&[0x81, 0x60, 0x59, 0x00][..]),
        Err(FrameError::BufferTooLarge { expected: 3, found: 4 })
    );
}

#[test]
fn packet_bytes_roundtrip() {
    for packet in [
        Packet::Ack(ack1()),
        Packet::Nak(NAK2),
        Packet::Error(ERROR),
        Packet::Rst(RST),
        Packet::RstAck(RST_ACK),
        Packet::Data(version_response()),
    ] {
        let bytes = packet.bytes();
        assert_eq!(Packet::try_from(bytes.as_slice()), Ok(packet));
    }
}

#[test]
fn packet_to_string_dispatches() {
    assert_eq!(Packet::Ack(ack2()).to_string(), "ACK(6)-");
    assert_eq!(Packet::Data(version_command()).to_string(), "DATA(2, 5, 0)");
    assert_eq!(Packet::Rst(RST).to_string(), "RST()");
}

#[test]
fn nak_and_rst_ack_constructors() {
    assert_eq!(Nak::from_ack_num(14), Nak { header: 0xA6, crc: 0x34DC });
    assert_eq!(RstAck::new(0x02), RST_ACK);
    assert_eq!(Error::new(0x51), ERROR);
    assert_eq!(Rst::default(), RST);
}

#[test]
fn data_new_masks_payload() {
    let data = Data::new(SeqNum::Two, payload(&[0x00, 0x00, 0x00, 0x02]), SeqNum::Five);
    assert_eq!(data.header(), 0x25);
    assert_eq!(data.payload(), &[0x42, 0x21, 0xA8, 0x56]);
    assert!(data.is_crc_valid());
    assert_eq!(data.unmasked_payload(), vec![0x00, 0x00, 0x00, 0x02]);
}

#[test]
fn rst_ack_buffer_appends_bytes() {
    let mut buffer: heapless::Vec<u8, 264> = heapless::Vec::new();
    RST_ACK.buffer(&mut buffer).unwrap();
    assert_eq!(buffer.as_slice(), &[0xC1, 0x02, 0x02, 0x9B, 0x7B]);
    let mut full: heapless::Vec<u8, 264> = heapless::Vec::from_slice(&[0u8; 262]).unwrap();
    assert_eq!(RST_ACK.buffer(&mut full), Err(()));
    assert_eq!(&full[262..], &[0xC1, 0x02]);
}
