use easy2read::header::{Avp, AvpError, Message, MessageError};

#[test]
fn legacy_avp_new() {
    assert!(Avp::new(1, vec![1, 2, 3]).is_ok());
    assert!(matches!(Avp::new(1, vec![0u8; 65530]), Err(AvpError::TooLong)));
}

#[test]
fn legacy_avp_parse() {
    assert!(Avp::try_from(&[0u8, 0, 0, 8, 0, 1, 0, 0x79][..]).is_ok());
    assert!(matches!(Avp::try_from(&[0u8, 0, 0][..]), Err(AvpError::TooShort)));
    assert!(matches!(Avp::try_from(&[0u8, 0, 0, 1, 0, 1][..]), Err(AvpError::InvalidLength)));
    assert!(matches!(Avp::try_from(&[0u8, 0, 0, 9, 0, 1][..]), Err(AvpError::TooShort)));
}

#[test]
fn legacy_message_new() {
    let a = Avp::new(1, vec![0, 0x79]).unwrap();
    assert!(Message::new(0, vec![a]).is_ok());
    let b = Avp::new(1, vec![0u8; 65520]).unwrap();
    assert!(matches!(Message::new(0, vec![b]), Err(MessageError::TooLong)));
}
