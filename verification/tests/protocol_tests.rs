use easy2read::protocol::{
    Avp, AvpError, Header, HeaderError, Message, MessageDir, MessageError, HEADER_LEN, VENDOR_ID,
};

fn rx_header(id: u16, len: u16) -> Vec<u8> {
    let mut v = vec![0x00, 0x01];
    v.extend_from_slice(&id.to_be_bytes());
    v.extend_from_slice(&VENDOR_ID.to_be_bytes());
    v.extend_from_slice(&len.to_be_bytes());
    v
}

#[test]
fn header_new_sets_tx_and_vendor() {
    let h = Header::new(7, 42);
    assert!(matches!(h.direction, MessageDir::Tx));
    assert_eq!(h.message_id, 7);
    assert_eq!(h.vendor_id, 0x5358);
    assert_eq!(h.length, 42);
    assert_eq!(HEADER_LEN, 10);
}

#[test]
fn message_dir_codes() {
    assert!(matches!(MessageDir::try_from(0x8001u16), Ok(MessageDir::Tx)));
    assert!(matches!(MessageDir::try_from(0x0001u16), Ok(MessageDir::Rx)));
    assert!(matches!(MessageDir::try_from(0x0002u16), Err(HeaderError::WrongDirection)));
    assert_eq!(MessageDir::Tx.code(), 0x8001);
    assert_eq!(MessageDir::Rx.code(), 0x0001);
}

#[test]
fn header_parse_ok() {
    let bytes = rx_header(0x1234, 0x0020);
    let h = Header::try_from(&bytes[..]).unwrap();
    assert!(matches!(h.direction, MessageDir::Rx));
    assert_eq!(h.message_id, 0x1234);
    assert_eq!(h.vendor_id, VENDOR_ID);
    assert_eq!(h.length, 0x20);
}

#[test]
fn header_parse_errors() {
    let bytes = rx_header(1, 20);
    assert!(matches!(Header::try_from(&bytes[..9]), Err(HeaderError::TooShort)));
    let mut wrong_dir = bytes.clone();
    wrong_dir[0] = 0x80;
    wrong_dir[1] = 0x00;
    assert!(matches!(Header::try_from(&wrong_dir[..]), Err(HeaderError::WrongDirection)));
    let mut wrong_vendor = bytes.clone();
    wrong_vendor[7] = 0x59;
    assert!(matches!(Header::try_from(&wrong_vendor[..]), Err(HeaderError::WrongVendorId)));
    // The direction is checked before the vendor.
    let mut both = wrong_vendor.clone();
    both[0] = 0xff;
    assert!(matches!(Header::try_from(&both[..]), Err(HeaderError::WrongDirection)));
}

#[test]
fn avp_new_sets_length() {
    let a = Avp::new(0x0054, vec![0, 0, 0, 3]).unwrap();
    assert_eq!(a.reserved, 0);
    assert_eq!(a.length, 10);
    assert_eq!(a.attr_type, 0x0054);
    assert_eq!(a.value, vec![0, 0, 0, 3]);
}

#[test]
fn avp_new_too_long() {
    assert!(Avp::new(1, vec![0u8; 65529]).is_ok());
    assert!(matches!(Avp::new(1, vec![0u8; 65530]), Err(AvpError::TooLong)));
}

#[test]
fn avp_bytes_exact() {
    let a = Avp::new(0x0001, vec![0x00, 0x79]).unwrap();
    let bytes = Vec::<u8>::from(&a);
    assert_eq!(bytes, vec![0, 0, 0, 8, 0, 1, 0, 0x79]);
}

#[test]
fn avp_parse_ok_and_roundtrip() {
    let a = Avp::new(0x005C, b"1.2.3".to_vec()).unwrap();
    let mut bytes = Vec::<u8>::from(&a);
    bytes.extend_from_slice(&[9, 9, 9]);
    let b = Avp::try_from(&bytes[..]).unwrap();
    assert_eq!(b.reserved, 0);
    assert_eq!(b.length, 11);
    assert_eq!(b.attr_type, 0x005C);
    assert_eq!(b.value, b"1.2.3".to_vec());
}

#[test]
fn avp_parse_errors() {
    assert!(matches!(Avp::try_from(&[0u8, 0, 0, 8, 0][..]), Err(AvpError::TooShort)));
    assert!(matches!(Avp::try_from(&[0u8, 0, 0, 5, 0, 1][..]), Err(AvpError::InvalidLength)));
    assert!(matches!(Avp::try_from(&[0u8, 0, 0, 9, 0, 1, 1, 2][..]), Err(AvpError::TooShort)));
    let empty = Avp::try_from(&[0u8, 0, 0, 6, 0, 1][..]).unwrap();
    assert!(empty.value.is_empty());
}

#[test]
fn message_new_counts_lengths() {
    let a = Avp::new(1, vec![0, 0x79]).unwrap();
    let b = Avp::new(0x54, vec![0, 0, 0, 3]).unwrap();
    let m = Message::new(5, vec![a, b]).unwrap();
    assert!(matches!(m.header.direction, MessageDir::Tx));
    assert_eq!(m.header.message_id, 5);
    assert_eq!(m.header.vendor_id, VENDOR_ID);
    assert_eq!(m.header.length, 10 + 8 + 10);
    assert_eq!(m.avp_list.len(), 2);
}

#[test]
fn message_new_too_long() {
    let a = Avp::new(1, vec![0u8; 40000]).unwrap();
    let b = Avp::new(2, vec![0u8; 30000]).unwrap();
    assert!(matches!(Message::new(0, vec![a, b]), Err(MessageError::TooLong)));
    let c = Avp::new(1, vec![0u8; 65519]).unwrap();
    assert_eq!(Message::new(0, vec![c]).unwrap().header.length, 65535);
    let d = Avp::new(1, vec![0u8; 65520]).unwrap();
    assert!(matches!(Message::new(0, vec![d]), Err(MessageError::TooLong)));
}

#[test]
fn message_bytes_exact() {
    let a = Avp::new(0x0001, vec![0x00, 0x79]).unwrap();
    let m = Message::new(0, vec![a]).unwrap();
    let bytes = Vec::<u8>::from(m);
    assert_eq!(
        bytes,
        vec![0x80, 0x01, 0, 0, 0, 0, 0x53, 0x58, 0, 18, 0, 0, 0, 8, 0, 1, 0, 0x79]
    );
}

#[test]
fn message_roundtrip() {
    let a = Avp::new(0x0001, vec![0x00, 0x79]).unwrap();
    let b = Avp::new(0x00FB, b"Source_0\0".to_vec()).unwrap();
    let m = Message::new(3, vec![a, b]).unwrap();
    let bytes = Vec::<u8>::from(m);
    assert_eq!(bytes.len(), 10 + 8 + 15);
    let back = Message::try_from(&bytes[..]).unwrap();
    assert!(matches!(back.header.direction, MessageDir::Tx));
    assert_eq!(back.header.message_id, 3);
    assert_eq!(back.header.length as usize, bytes.len());
    assert_eq!(back.avp_list.len(), 2);
    assert_eq!(back.avp_list[0].attr_type, 1);
    assert_eq!(back.avp_list[0].value, vec![0, 0x79]);
    assert_eq!(back.avp_list[1].attr_type, 0xFB);
    assert_eq!(back.avp_list[1].value, b"Source_0\0".to_vec());
    // Serializing what was read gives the same bytes.
    assert_eq!(Vec::<u8>::from(back), bytes);
}

#[test]
fn message_parse_errors() {
    // Header error.
    assert!(matches!(
        Message::try_from(&[0u8; 5][..]),
        Err(MessageError::Header(HeaderError::TooShort))
    ));
    // Announced length over 0xfff.
    let long = rx_header(0, 0x1000);
    assert!(matches!(Message::try_from(&long[..]), Err(MessageError::TooLong)));
    // No AVP.
    let empty = rx_header(0, 10);
    assert!(matches!(Message::try_from(&empty[..]), Err(MessageError::TooShort)));
    // Truncated AVP.
    let mut trunc = rx_header(0, 18);
    trunc.extend_from_slice(&[0, 0, 0, 8, 0, 1]);
    assert!(matches!(
        Message::try_from(&trunc[..]),
        Err(MessageError::Avp(AvpError::TooShort))
    ));
    // AVP with an invalid length.
    let mut bad = rx_header(0, 16);
    bad.extend_from_slice(&[0, 0, 0, 2, 0, 1]);
    assert!(matches!(
        Message::try_from(&bad[..]),
        Err(MessageError::Avp(AvpError::InvalidLength))
    ));
}

#[test]
fn message_parse_stops_at_announced_length() {
    // Announced length covers one AVP; trailing bytes are ignored.
    let mut bytes = rx_header(0, 18);
    bytes.extend_from_slice(&[0, 0, 0, 8, 0, 2, 0, 0]);
    bytes.extend_from_slice(&[0xff, 0xff, 0xff]);
    let m = Message::try_from(&bytes[..]).unwrap();
    assert_eq!(m.avp_list.len(), 1);
    assert_eq!(m.avp_list[0].attr_type, 2);
    // An AVP that starts before the announced end is read whole, even past it.
    let mut over = rx_header(0, 12);
    over.extend_from_slice(&[0, 0, 0, 8, 0, 2, 7, 7]);
    let m2 = Message::try_from(&over[..]).unwrap();
    assert_eq!(m2.avp_list.len(), 1);
    assert_eq!(m2.avp_list[0].value, vec![7, 7]);
}

#[test]
fn error_conversions() {
    assert!(matches!(
        MessageError::from(HeaderError::WrongVendorId),
        MessageError::Header(HeaderError::WrongVendorId)
    ));
    assert!(matches!(
        MessageError::from(AvpError::InvalidLength),
        MessageError::Avp(AvpError::InvalidLength)
    ));
}

#[test]
fn parsed_message_reserializes_exactly() {
    // Reply direction, a nonzero reserved field and trailing bytes past the AVPs.
    let mut bytes = vec![0x00, 0x01, 0x00, 0x07, 0, 0, 0x53, 0x58, 0, 26];
    bytes.extend_from_slice(&[0x12, 0x34, 0, 8, 0, 2, 0, 0]);
    bytes.extend_from_slice(&[0, 0, 0, 8, 0, 0x52, 0, 1]);
    let m = Message::try_from(&bytes[..]).unwrap();
    assert_eq!(m.avp_list[0].reserved, 0x1234);
    assert_eq!(Vec::<u8>::from(m), bytes);
}
