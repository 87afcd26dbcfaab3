use easy2read::constants::{
    ConfigParameter, ConversionError, EventMode, EventType, FlowCtrl, MemoryBank, Parity,
    Protocol, RFRegulation, ReadPointStatus, ResultCode, SelUnselOp, TagType, AVP_COMMAND_NAME,
    AVP_RESULT_CODE, AVP_SOURCE_NAME, CMD_GET_PROTOCOL, CMD_READ_BLOCK_PERMALOCK_EPC_C1G2,
};

#[test]
fn protocol_try_from() {
    assert_eq!(Protocol::try_from(0u32).unwrap(), Protocol::Iso18000_6B);
    assert_eq!(Protocol::try_from(1u32).unwrap(), Protocol::EpcC1G1);
    assert_eq!(Protocol::try_from(2u32).unwrap(), Protocol::Iso18000_6A);
    assert_eq!(Protocol::try_from(3u32).unwrap(), Protocol::EpcC1G2);
    assert!(matches!(Protocol::try_from(4u32), Err(ConversionError::UnknownValue(4))));
}

#[test]
fn protocol_code_roundtrip() {
    for p in [Protocol::Iso18000_6B, Protocol::EpcC1G1, Protocol::Iso18000_6A, Protocol::EpcC1G2] {
        let code = p.code();
        assert_eq!(Protocol::try_from(code).unwrap(), p);
    }
}

#[test]
fn read_point_status_try_from() {
    assert_eq!(ReadPointStatus::try_from(0u32).unwrap(), ReadPointStatus::Good);
    assert_eq!(ReadPointStatus::try_from(1u32).unwrap(), ReadPointStatus::Poor);
    assert_eq!(ReadPointStatus::try_from(2u32).unwrap(), ReadPointStatus::Bad);
    assert!(matches!(
        ReadPointStatus::try_from(0xdead_beefu32),
        Err(ConversionError::UnknownValue(0xdead_beef))
    ));
}

#[test]
fn rf_regulation_try_from() {
    assert_eq!(RFRegulation::try_from(0u16).unwrap(), RFRegulation::EtsiEn302208);
    assert_eq!(RFRegulation::try_from(2u16).unwrap(), RFRegulation::Fcc);
    assert_eq!(RFRegulation::try_from(10u16).unwrap(), RFRegulation::Brazil);
    assert_eq!(RFRegulation::try_from(12u16).unwrap(), RFRegulation::JapanStdT107);
    assert!(matches!(RFRegulation::try_from(13u16), Err(ConversionError::UnknownValue(13))));
    for code in 0u16..13 {
        assert_eq!(RFRegulation::try_from(code).unwrap().code(), code);
    }
}

#[test]
fn enum_codes() {
    assert_eq!(ResultCode::Success.code(), 0);
    assert_eq!(ResultCode::InvalidPar.code(), 200);
    assert_eq!(ResultCode::Failed.code(), 210);
    assert_eq!(TagType::Epc119.code(), 5);
    assert_eq!(EventType::Purged.code(), 5);
    assert_eq!(MemoryBank::User.code(), 3);
    assert_eq!(Parity::NoParity.code(), 0);
    assert_eq!(Parity::Even.code(), 2);
    assert_eq!(FlowCtrl::NoFlowCtrl.code(), 0);
    assert_eq!(FlowCtrl::Software.code(), 2);
    assert_eq!(EventMode::NoEvent.code(), 2);
    assert_eq!(ConfigParameter::InventoryType.code(), 9);
    assert_eq!(SelUnselOp::UnselectLower.code(), 7);
}

#[test]
fn constant_values() {
    assert_eq!(AVP_COMMAND_NAME, 0x0001);
    assert_eq!(AVP_RESULT_CODE, 0x0002);
    assert_eq!(AVP_SOURCE_NAME, 0x00FB);
    assert_eq!(CMD_GET_PROTOCOL, 0x0079);
    assert_eq!(CMD_READ_BLOCK_PERMALOCK_EPC_C1G2, 0x00B2);
}
