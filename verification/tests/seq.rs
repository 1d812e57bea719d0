use ashv2::protocol::ControlByte;
use ashv2::code::Code;
use ashv2::seq_num::SeqNum;

#[test]
fn test_new() {
    for n in u8::MIN..=u8::MAX {
        let number = SeqNum::try_from(n % 8).unwrap();
        assert_eq!(number.as_u8(), n % 8);
    }
}

#[test]
fn test_const_zero() {
    assert_eq!(SeqNum::Zero.as_u8(), 0);
}

#[test]
fn test_as_u8() {
    for n in u8::MIN..=u8::MAX {
        let number = SeqNum::try_from(n % 8).unwrap();
        assert_eq!(number.as_u8(), n % 8);
    }
}

#[test]
fn seq_num_wraps_after_eight_steps() {
    let mut number = SeqNum::Five;
    number.increment();
    assert_eq!(number, SeqNum::Six);
    for _ in 0..8 {
        number = number.next();
    }
    assert_eq!(number, SeqNum::Six);
    assert_eq!(SeqNum::Seven.next(), SeqNum::Zero);
    assert_eq!(SeqNum::try_from(8), Err(8));
    assert_eq!(SeqNum::from_u8_lossy(13), SeqNum::Five);
    assert_eq!(SeqNum::default(), SeqNum::Zero);
}

#[test]
fn code_bytes() {
    assert_eq!(Code::try_from(0x51), Ok(Code::ExceededMaximumAckTimeoutCount));
    assert_eq!(Code::try_from(0x52), Err(0x52));
    assert_eq!(u8::from(Code::PowerOn), 0x02);
}

#[test]
fn control_bytes() {
    assert_eq!(ControlByte::try_from(0x7E), Ok(ControlByte::Flag));
    assert_eq!(u8::from(ControlByte::Cancel), 0x1A);
    assert!(ControlByte::try_from(0x00).is_err());
}
