use std::cell::RefCell;
use std::collections::VecDeque;
use std::rc::Rc;

use easy2read::commands::{CommandError, Easy2ReadClient};
use easy2read::constants::{
    ConfigParameter, ConversionError, FlowCtrl, MemoryBank, Parity, Protocol, RFRegulation,
    ReadPointStatus,
};
use easy2read::protocol::{Avp, AvpError, Header, HeaderError, Message, MessageDir, MessageError, VENDOR_ID};
use easy2read::transport::{Transport, TransportError, TransportTrace};

struct Mock {
    input: Rc<RefCell<VecDeque<u8>>>,
    written: Rc<RefCell<Vec<Vec<u8>>>>,
    fail_write: bool,
}

impl Transport for Mock {
    fn trace(&self) -> TransportTrace {
        unreachable!("the trace is a proof model that compiled code never asks for")
    }

    fn read_exact(&mut self, buf: &mut [u8]) -> Result<(), TransportError> {
        let mut input = self.input.borrow_mut();
        for b in buf.iter_mut() {
            *b = input.pop_front().ok_or(TransportError::Timeout)?;
        }
        Ok(())
    }

    fn write_all(&mut self, buf: &[u8]) -> Result<(), TransportError> {
        if self.fail_write {
            return Err(TransportError::Disconnected);
        }
        self.written.borrow_mut().push(buf.to_vec());
        Ok(())
    }
}

type Written = Rc<RefCell<Vec<Vec<u8>>>>;

fn client_with(input: Vec<u8>) -> (Easy2ReadClient<Mock>, Written) {
    let written: Written = Rc::new(RefCell::new(Vec::new()));
    let mock = Mock {
        input: Rc::new(RefCell::new(input.into_iter().collect())),
        written: written.clone(),
        fail_write: false,
    };
    (Easy2ReadClient::new(mock), written)
}

fn avps_bytes(avps: &[(u16, Vec<u8>)]) -> Vec<u8> {
    let mut body = Vec::new();
    for (t, v) in avps {
        body.extend_from_slice(&0u16.to_be_bytes());
        body.extend_from_slice(&((6 + v.len()) as u16).to_be_bytes());
        body.extend_from_slice(&t.to_be_bytes());
        body.extend_from_slice(v);
    }
    body
}

fn frame(direction: u16, avps: &[(u16, Vec<u8>)]) -> Vec<u8> {
    let body = avps_bytes(avps);
    let mut out = direction.to_be_bytes().to_vec();
    out.extend_from_slice(&[0, 0, 0, 0, 0x53, 0x58]);
    out.extend_from_slice(&((10 + body.len()) as u16).to_be_bytes());
    out.extend_from_slice(&body);
    out
}

fn reply(avps: &[(u16, Vec<u8>)]) -> Vec<u8> {
    frame(0x0001, avps)
}

fn ok_reply(extra: &[(u16, Vec<u8>)]) -> Vec<u8> {
    let mut avps = vec![(0x0002u16, vec![0u8, 0])];
    avps.extend_from_slice(extra);
    reply(&avps)
}

fn request(avps: &[(u16, Vec<u8>)]) -> Vec<u8> {
    frame(0x8001, avps)
}

fn cmd(code: u16) -> (u16, Vec<u8>) {
    (0x0001, code.to_be_bytes().to_vec())
}

fn nt(s: &str) -> Vec<u8> {
    let mut v = s.as_bytes().to_vec();
    v.push(0);
    v
}

#[test]
fn get_protocol_ok() {
    let (mut c, written) = client_with(ok_reply(&[(0x0054, vec![0, 0, 0, 3])]));
    assert_eq!(c.cmd_get_protocol().unwrap(), Protocol::EpcC1G2);
    assert_eq!(*written.borrow(), vec![request(&[cmd(0x0079)])]);
    assert_eq!(
        written.borrow()[0],
        vec![0x80, 0x01, 0, 0, 0, 0, 0x53, 0x58, 0, 18, 0, 0, 0, 8, 0, 1, 0, 0x79]
    );
}

#[test]
fn get_protocol_unknown_value() {
    let (mut c, _) = client_with(ok_reply(&[(0x0054, vec![0, 0, 0, 7])]));
    assert!(matches!(c.cmd_get_protocol(), Err(CommandError::UnknownValue(7))));
}

#[test]
fn get_protocol_missing_avp() {
    let (mut c, _) = client_with(ok_reply(&[]));
    assert!(matches!(c.cmd_get_protocol(), Err(CommandError::Message(MessageError::TooShort))));
}

#[test]
fn get_protocol_short_value() {
    let (mut c, _) = client_with(ok_reply(&[(0x0054, vec![0, 3])]));
    assert!(matches!(c.cmd_get_protocol(), Err(CommandError::Message(MessageError::InvalidValue))));
}

#[test]
fn reader_error_code() {
    let (mut c, _) = client_with(reply(&[(0x0002, vec![0, 200])]));
    assert!(matches!(c.cmd_set_power(100), Err(CommandError::ReaderError(200))));
}

#[test]
fn missing_result_code() {
    let (mut c, _) = client_with(reply(&[(0x0054, vec![0, 0, 0, 3])]));
    assert!(matches!(c.cmd_get_protocol(), Err(CommandError::Message(MessageError::TooShort))));
}

#[test]
fn short_result_code() {
    let (mut c, _) = client_with(reply(&[(0x0002, vec![0])]));
    assert!(matches!(c.cmd_get_power(), Err(CommandError::Message(MessageError::InvalidValue))));
}

#[test]
fn first_result_code_counts() {
    let (mut c, _) = client_with(reply(&[(0x0002, vec![0, 0]), (0x0002, vec![0, 210])]));
    assert!(c.cmd_set_io(1).is_ok());
}

#[test]
fn set_protocol_request() {
    let (mut c, written) = client_with(ok_reply(&[]));
    c.cmd_set_protocol(Protocol::EpcC1G2).unwrap();
    assert_eq!(*written.borrow(), vec![request(&[cmd(0x0074), (0x0054, vec![0, 0, 0, 3])])]);
}

#[test]
fn get_power_ok() {
    let (mut c, written) = client_with(ok_reply(&[(0x0052, vec![0, 0, 0x01, 0x2c])]));
    assert_eq!(c.cmd_get_power().unwrap(), 300);
    assert_eq!(*written.borrow(), vec![request(&[cmd(0x0073)])]);
}

#[test]
fn set_power_request() {
    let (mut c, written) = client_with(ok_reply(&[]));
    c.cmd_set_power(1400).unwrap();
    assert_eq!(
        *written.borrow(),
        vec![request(&[cmd(0x0064), (0x0096, 1400u32.to_be_bytes().to_vec())])]
    );
}

#[test]
fn rf_channel_get_and_set() {
    let (mut c, written) = client_with(ok_reply(&[(0x0078, vec![0, 4])]));
    assert_eq!(c.cmd_get_rf_channel().unwrap(), 4);
    assert_eq!(*written.borrow(), vec![request(&[cmd(0x00A4)])]);
    let (mut c2, written2) = client_with(ok_reply(&[]));
    c2.cmd_set_rf_channel(9).unwrap();
    assert_eq!(*written2.borrow(), vec![request(&[cmd(0x00A3), (0x0078, vec![0, 9])])]);
}

#[test]
fn lbt_mode_get_and_set() {
    let (mut c, written) = client_with(ok_reply(&[(0x0057, vec![0, 1])]));
    assert!(c.cmd_get_lbt_mode().unwrap());
    assert_eq!(*written.borrow(), vec![request(&[cmd(0x00A0)])]);
    let (mut c2, _) = client_with(ok_reply(&[(0x0057, vec![0, 0])]));
    assert!(!c2.cmd_get_lbt_mode().unwrap());
    let (mut c3, written3) = client_with(ok_reply(&[]));
    c3.cmd_set_lbt_mode(true).unwrap();
    assert_eq!(*written3.borrow(), vec![request(&[cmd(0x009F), (0x0057, vec![0, 1])])]);
}

#[test]
fn rf_regulation_get() {
    let (mut c, written) = client_with(ok_reply(&[(0x0077, vec![0, 2])]));
    assert_eq!(c.cmd_get_rf_regulation().unwrap(), RFRegulation::Fcc);
    assert_eq!(*written.borrow(), vec![request(&[cmd(0x00A2)])]);
    let (mut c2, _) = client_with(ok_reply(&[(0x0077, vec![0, 99])]));
    assert!(matches!(c2.cmd_get_rf_regulation(), Err(CommandError::UnknownValue(99))));
}

#[test]
fn rf_on_off_request() {
    let (mut c, written) = client_with(ok_reply(&[]));
    c.cmd_rf_on_off(false).unwrap();
    assert_eq!(*written.borrow(), vec![request(&[cmd(0x0080), (0x005F, vec![0, 0])])]);
}

#[test]
fn firmware_release_text() {
    let (mut c, written) = client_with(ok_reply(&[(0x005C, b"1.0.2\0\0".to_vec())]));
    assert_eq!(c.cmd_get_firmware_release().unwrap(), "1.0.2");
    assert_eq!(*written.borrow(), vec![request(&[cmd(0x007C)])]);
    let (mut c2, _) = client_with(ok_reply(&[(0x005C, vec![0xff, 0xfe])]));
    assert!(matches!(
        c2.cmd_get_firmware_release(),
        Err(CommandError::Message(MessageError::InvalidValue))
    ));
}

#[test]
fn reader_info_text() {
    let (mut c, written) = client_with(ok_reply(&[(0x0076, b"R1240I\0 0001\0".to_vec())]));
    assert_eq!(c.cmd_get_reader_info().unwrap(), "R1240I 0001");
    assert_eq!(*written.borrow(), vec![request(&[cmd(0x009E)])]);
    let (mut c2, _) = client_with(ok_reply(&[(0x0076, "Lettore \u{e8}".as_bytes().to_vec())]));
    assert_eq!(c2.cmd_get_reader_info().unwrap(), "Lettore \u{e8}");
}

#[test]
fn set_rs232_request() {
    let (mut c, written) = client_with(ok_reply(&[]));
    c.cmd_set_rs232(115200, 8, 1, Parity::NoParity, FlowCtrl::Hardware).unwrap();
    assert_eq!(
        *written.borrow(),
        vec![request(&[
            cmd(0x0083),
            (0x0060, 115200u32.to_be_bytes().to_vec()),
            (0x0061, vec![0, 0, 0, 8]),
            (0x0062, vec![0, 0, 0, 1]),
            (0x0063, vec![0, 0, 0, 0]),
            (0x0064, vec![0, 0, 0, 1]),
        ])]
    );
}

#[test]
fn io_commands() {
    let (mut c, written) = client_with(ok_reply(&[(0x0069, vec![0, 0, 0x0f, 0x03])]));
    assert_eq!(c.cmd_get_io().unwrap(), 0x0f03);
    assert_eq!(*written.borrow(), vec![request(&[cmd(0x0086)])]);
    let (mut c2, written2) = client_with(ok_reply(&[(0x0069, vec![0, 0, 0, 0x0c])]));
    assert_eq!(c2.cmd_get_io_direction().unwrap(), 0x0c);
    assert_eq!(*written2.borrow(), vec![request(&[cmd(0x0089)])]);
    let (mut c3, written3) = client_with(ok_reply(&[]));
    c3.cmd_set_io(0x0100).unwrap();
    assert_eq!(*written3.borrow(), vec![request(&[cmd(0x0087), (0x0069, vec![0, 0, 1, 0])])]);
    let (mut c4, written4) = client_with(ok_reply(&[]));
    c4.cmd_set_io_direction(0x000c).unwrap();
    assert_eq!(*written4.borrow(), vec![request(&[cmd(0x0088), (0x0069, vec![0, 0, 0, 0x0c])])]);
}

#[test]
fn source_config_commands() {
    let (mut c, written) = client_with(ok_reply(&[(0x006B, vec![0, 0, 0, 2])]));
    assert_eq!(c.cmd_get_source_config("Source_0", ConfigParameter::Session).unwrap(), 2);
    assert_eq!(
        *written.borrow(),
        vec![request(&[cmd(0x008B), (0x00FB, nt("Source_0")), (0x006A, vec![0, 0, 0, 4])])]
    );
    let (mut c2, written2) = client_with(ok_reply(&[]));
    c2.cmd_set_source_config("Source_0", ConfigParameter::ReadCycle, 5).unwrap();
    assert_eq!(
        *written2.borrow(),
        vec![request(&[
            cmd(0x008A),
            (0x00FB, nt("Source_0")),
            (0x006A, vec![0, 0, 0, 0]),
            (0x006B, vec![0, 0, 0, 5]),
        ])]
    );
}

#[test]
fn read_point_commands() {
    let (mut c, written) = client_with(ok_reply(&[(0x0056, vec![0, 0, 0, 1])]));
    assert_eq!(c.cmd_check_read_point_status("Ant0").unwrap(), ReadPointStatus::Poor);
    assert_eq!(*written.borrow(), vec![request(&[cmd(0x0076), (0x0022, nt("Ant0"))])]);
    let (mut c2, written2) = client_with(ok_reply(&[]));
    c2.cmd_add_read_point_to_source("Source_0", "Ant1").unwrap();
    assert_eq!(
        *written2.borrow(),
        vec![request(&[cmd(0x005F), (0x00FB, nt("Source_0")), (0x0022, nt("Ant1"))])]
    );
    let (mut c3, written3) = client_with(ok_reply(&[]));
    c3.cmd_remove_read_point_from_source("Source_0", "Ant1").unwrap();
    assert_eq!(
        *written3.borrow(),
        vec![request(&[cmd(0x0060), (0x00FB, nt("Source_0")), (0x0022, nt("Ant1"))])]
    );
    let (mut c4, _) = client_with(ok_reply(&[(0x0056, vec![0, 0, 0, 3])]));
    assert!(matches!(c4.cmd_check_read_point_status("Ant0"), Err(CommandError::UnknownValue(3))));
}

#[test]
fn read_tag_data_with_password() {
    let (mut c, written) = client_with(ok_reply(&[(0x004D, vec![0xde, 0xad, 0xbe, 0xef])]));
    let data = c
        .cmd_read_tag_data_epc_c1g2("Source_0", &[1, 2, 3, 4], MemoryBank::User, 2, 4, Some(0x11223344))
        .unwrap();
    assert_eq!(data, vec![0xde, 0xad, 0xbe, 0xef]);
    assert_eq!(
        *written.borrow(),
        vec![request(&[
            cmd(0x0096),
            (0x00FB, nt("Source_0")),
            (0x0011, vec![1, 2, 3, 4]),
            (0x0071, vec![0, 3]),
            (0x004E, vec![0, 2]),
            (0x0050, vec![0, 4]),
            (0x0073, vec![0x11, 0x22, 0x33, 0x44]),
        ])]
    );
}

#[test]
fn read_tag_data_without_password() {
    let (mut c, written) = client_with(ok_reply(&[(0x004D, vec![])]));
    let data = c.cmd_read_tag_data_epc_c1g2("S", &[9], MemoryBank::Epc, 0, 0, None).unwrap();
    assert!(data.is_empty());
    assert_eq!(
        *written.borrow(),
        vec![request(&[
            cmd(0x0096),
            (0x00FB, nt("S")),
            (0x0011, vec![9]),
            (0x0071, vec![0, 1]),
            (0x004E, vec![0, 0]),
            (0x0050, vec![0, 0]),
        ])]
    );
}

#[test]
fn write_tag_data_request() {
    let (mut c, written) = client_with(ok_reply(&[]));
    c.cmd_write_tag_data_epc_c1g2("Source_0", &[7, 7], MemoryBank::Tid, 6, &[0xab, 0xcd], None)
        .unwrap();
    assert_eq!(
        *written.borrow(),
        vec![request(&[
            cmd(0x0097),
            (0x00FB, nt("Source_0")),
            (0x0011, vec![7, 7]),
            (0x0071, vec![0, 2]),
            (0x004E, vec![0, 6]),
            (0x004D, vec![0xab, 0xcd]),
        ])]
    );
}

#[test]
fn transport_error_on_read() {
    let (mut c, written) = client_with(Vec::new());
    assert!(matches!(c.cmd_get_power(), Err(CommandError::Transport(TransportError::Timeout))));
    assert_eq!(written.borrow().len(), 1);
    // Header read, payload missing.
    let mut partial = ok_reply(&[]);
    partial.truncate(12);
    let (mut c2, _) = client_with(partial);
    assert!(matches!(c2.cmd_get_io(), Err(CommandError::Transport(TransportError::Timeout))));
}

#[test]
fn transport_error_on_write() {
    let written: Written = Rc::new(RefCell::new(Vec::new()));
    let mock = Mock {
        input: Rc::new(RefCell::new(ok_reply(&[]).into_iter().collect())),
        written: written.clone(),
        fail_write: true,
    };
    let mut c = Easy2ReadClient::new(mock);
    assert!(matches!(
        c.cmd_set_io(1),
        Err(CommandError::Transport(TransportError::Disconnected))
    ));
    assert!(written.borrow().is_empty());
}

#[test]
fn bad_reply_header() {
    let mut r = ok_reply(&[]);
    r[7] = 0x00;
    let (mut c, _) = client_with(r);
    assert!(matches!(
        c.cmd_set_io(1),
        Err(CommandError::Message(MessageError::Header(HeaderError::WrongVendorId)))
    ));
    let (mut c2, _) = client_with(vec![0, 1, 0, 0, 0, 0, 0x53, 0x58, 0, 4]);
    assert!(matches!(c2.cmd_set_io(1), Err(CommandError::Message(MessageError::TooShort))));
    let (mut c3, _) = client_with(vec![0, 1, 0, 0, 0, 0, 0x53, 0x58, 0, 10]);
    assert!(matches!(c3.cmd_set_io(1), Err(CommandError::Message(MessageError::TooShort))));
}

#[test]
fn request_too_long() {
    let long_name = "x".repeat(70000);
    let (mut c, written) = client_with(ok_reply(&[]));
    assert!(matches!(
        c.cmd_check_read_point_status(&long_name),
        Err(CommandError::Message(MessageError::Avp(AvpError::TooLong)))
    ));
    assert!(written.borrow().is_empty());
    let half = "y".repeat(40000);
    assert!(matches!(
        c.cmd_add_read_point_to_source(&half, &half),
        Err(CommandError::Message(MessageError::TooLong))
    ));
    assert!(written.borrow().is_empty());
}

#[test]
fn successive_commands() {
    let mut input = ok_reply(&[(0x0052, vec![0, 0, 0, 10])]);
    input.extend(ok_reply(&[(0x0078, vec![0, 1])]));
    let (mut c, written) = client_with(input);
    assert_eq!(c.cmd_get_power().unwrap(), 10);
    assert_eq!(c.cmd_get_rf_channel().unwrap(), 1);
    assert_eq!(*written.borrow(), vec![request(&[cmd(0x0073)]), request(&[cmd(0x00A4)])]);
}

#[test]
fn command_error_conversions() {
    assert!(matches!(
        CommandError::from(ConversionError::UnknownValue(9)),
        CommandError::UnknownValue(9)
    ));
    assert!(matches!(
        CommandError::from(HeaderError::TooShort),
        CommandError::Message(MessageError::Header(HeaderError::TooShort))
    ));
    assert!(matches!(
        CommandError::from(AvpError::TooShort),
        CommandError::Message(MessageError::Avp(AvpError::TooShort))
    ));
    assert!(matches!(
        CommandError::from(MessageError::InvalidValue),
        CommandError::Message(MessageError::InvalidValue)
    ));
    assert!(matches!(
        CommandError::from(TransportError::IoError("x".to_string())),
        CommandError::Transport(TransportError::IoError(_))
    ));
}

#[test]
fn reply_written_by_library_is_read_back() {
    let result = Avp::new(0x0002, vec![0, 0]).unwrap();
    let power = Avp::new(0x0052, vec![0, 0, 0x03, 0xe8]).unwrap();
    let mut m = Message::new(0, vec![result, power]).unwrap();
    m.header = Header { direction: MessageDir::Rx, message_id: 0, vendor_id: VENDOR_ID, length: m.header.length };
    let bytes = Vec::<u8>::from(m);
    let (mut c, _) = client_with(bytes);
    assert_eq!(c.cmd_get_power().unwrap(), 1000);
}

#[test]
fn check_result_code_success_and_reader_error() {
    let (c, written) = client_with(Vec::new());
    let ok = Message::try_from(&ok_reply(&[])[..]).unwrap();
    assert!(c.check_result_code(&ok).is_ok());
    let refused = Message::try_from(&reply(&[(0x0002, vec![0, 7])])[..]).unwrap();
    assert!(matches!(c.check_result_code(&refused), Err(CommandError::ReaderError(7))));
    let short = Message::try_from(&reply(&[(0x0002, vec![0])])[..]).unwrap();
    assert!(matches!(
        c.check_result_code(&short),
        Err(CommandError::Message(MessageError::InvalidValue))
    ));
    let missing = Message::try_from(&reply(&[(0x0054, vec![0, 0])])[..]).unwrap();
    assert!(matches!(
        c.check_result_code(&missing),
        Err(CommandError::Message(MessageError::TooShort))
    ));
    assert!(written.borrow().is_empty());
}

#[test]
fn reply_read_in_two_parts_exactly() {
    // The reply is followed by bytes of the next one: only the header and
    // the payload it announces are consumed.
    let mut input = ok_reply(&[(0x0054, vec![0, 0, 0, 3])]);
    input.extend_from_slice(&ok_reply(&[(0x0054, vec![0, 0, 0, 1])]));
    let (mut c, written) = client_with(input);
    assert_eq!(c.cmd_get_protocol().unwrap(), Protocol::EpcC1G2);
    assert_eq!(c.cmd_get_protocol().unwrap(), Protocol::EpcC1G1);
    assert_eq!(written.borrow().len(), 2);
}

#[test]
fn read_tag_data_exact_bytes() {
    let input = vec![
        0x00, 0x01, 0x00, 0x00, 0x00, 0x00, 0x53, 0x58, 0x00, 0x1A, //
        0x00, 0x00, 0x00, 0x08, 0x00, 0x02, 0x00, 0x00, //
        0x00, 0x00, 0x00, 0x08, 0x00, 0x4D, 0xAB, 0xCD,
    ];
    let (mut c, written) = client_with(input);
    let data = c
        .cmd_read_tag_data_epc_c1g2("S", &[0xE2], MemoryBank::Epc, 2, 2, Some(0x12345678))
        .unwrap();
    assert_eq!(data, vec![0xAB, 0xCD]);
    let expected: Vec<u8> = vec![
        0x80, 0x01, 0x00, 0x00, 0x00, 0x00, 0x53, 0x58, 0x00, 0x43, //
        0x00, 0x00, 0x00, 0x08, 0x00, 0x01, 0x00, 0x96, //
        0x00, 0x00, 0x00, 0x08, 0x00, 0xFB, 0x53, 0x00, //
        0x00, 0x00, 0x00, 0x07, 0x00, 0x11, 0xE2, //
        0x00, 0x00, 0x00, 0x08, 0x00, 0x71, 0x00, 0x01, //
        0x00, 0x00, 0x00, 0x08, 0x00, 0x4E, 0x00, 0x02, //
        0x00, 0x00, 0x00, 0x08, 0x00, 0x50, 0x00, 0x02, //
        0x00, 0x00, 0x00, 0x0A, 0x00, 0x73, 0x12, 0x34, 0x56, 0x78,
    ];
    assert_eq!(*written.borrow(), vec![expected]);
}
