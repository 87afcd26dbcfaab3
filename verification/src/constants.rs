//! Attribute types, command codes and enumerated values of the easy2read protocol.

use vstd::prelude::*;

verus! {

/// A wire value that names no variant of the enumeration it was read for.
#[derive(Debug)]
pub enum ConversionError {
    UnknownValue(u32),
}

// Attribute types of AVPs.

pub const AVP_COMMAND_NAME: u16 = 0x0001;
pub const AVP_RESULT_CODE: u16 = 0x0002;
pub const AVP_EVENT_TYPE: u16 = 0x000E;
pub const AVP_TAG_ID_LEN: u16 = 0x000F;
pub const AVP_TIMESTAMP: u16 = 0x0010;
pub const AVP_TAG_ID: u16 = 0x0011;
pub const AVP_TAG_TYPE: u16 = 0x0012;
pub const AVP_CHANNEL_NAME: u16 = 0x001E;
pub const AVP_CHANNEL_ADDRESS: u16 = 0x001F;
pub const AVP_TRIGGER_NAME: u16 = 0x0020;
pub const AVP_TRIGGER_TYPE: u16 = 0x0021;
pub const AVP_READ_POINT_NAME: u16 = 0x0022;
pub const AVP_TAG_VALUE: u16 = 0x004D;
pub const AVP_TAG_ADDRESS: u16 = 0x004E;
pub const AVP_LENGTH: u16 = 0x0050;
pub const AVP_BIT_RATE: u16 = 0x0051;
pub const AVP_POWER_GET: u16 = 0x0052;
pub const AVP_PROTOCOL: u16 = 0x0054;
pub const AVP_READ_POINT_STATUS: u16 = 0x0056;
pub const AVP_BOOLEAN: u16 = 0x0057;
pub const AVP_IP_ADDRESS: u16 = 0x0058;
pub const AVP_IP_NET_MASK: u16 = 0x0059;
pub const AVP_IP_GATEWAY: u16 = 0x005A;
pub const AVP_DESB_ENABLE: u16 = 0x005B;
pub const AVP_FW_RELEASE: u16 = 0x005C;
pub const AVP_DESB_STATUS: u16 = 0x005D;
pub const AVP_EPC_PWD: u16 = 0x005E;
pub const AVP_RF_ON_OFF: u16 = 0x005F;
pub const AVP_BAUD_RATE: u16 = 0x0060;
pub const AVP_DATA_BITS: u16 = 0x0061;
pub const AVP_STOP_BITS: u16 = 0x0062;
pub const AVP_PARITY: u16 = 0x0063;
pub const AVP_FLOW_CTRL: u16 = 0x0064;
pub const AVP_DATE_TIME: u16 = 0x0065;
pub const AVP_SEL_UNSEL_OP: u16 = 0x0066;
pub const AVP_BITMASK: u16 = 0x0067;
pub const AVP_IO_REGISTER: u16 = 0x0069;
pub const AVP_CONFIG_PARAMETER: u16 = 0x006A;
pub const AVP_CONFIG_VALUE: u16 = 0x006B;
pub const AVP_NO_OF_TRIGGERS: u16 = 0x006C;
pub const AVP_NO_OF_CHANNELS: u16 = 0x006D;
pub const AVP_EVENT_MODE: u16 = 0x006E;
pub const AVP_UPGRADE_TYPE: u16 = 0x006F;
pub const AVP_UPGRADE_ARGUMENT: u16 = 0x0070;
pub const AVP_MEMORY_BANK: u16 = 0x0071;
pub const AVP_PAYLOAD: u16 = 0x0072;
pub const AVP_G2_PASSWORD: u16 = 0x0073;
pub const AVP_G2_NSI: u16 = 0x0074;
pub const AVP_Q_PARAMETER: u16 = 0x0075;
pub const AVP_READER_INFO: u16 = 0x0076;
pub const AVP_RF_REGULATION: u16 = 0x0077;
pub const AVP_RF_CHANNEL: u16 = 0x0078;
pub const AVP_RSSI: u16 = 0x007A;
pub const AVP_OPTION: u16 = 0x007B;
pub const AVP_XPC: u16 = 0x007C;
pub const AVP_PC: u16 = 0x007D;
pub const AVP_POWER_SET: u16 = 0x0096;
pub const AVP_SOURCE_NAME: u16 = 0x00FB;

// Command codes.

pub const CMD_INVENTORY_TAG: u16 = 0x0013;
pub const CMD_ADD_READ_POINT_TO_SOURCE: u16 = 0x005F;
pub const CMD_REMOVE_READ_POINT_FROM_SOURCE: u16 = 0x0060;
pub const CMD_SET_POWER: u16 = 0x0064;
pub const CMD_GET_POWER: u16 = 0x0073;
pub const CMD_SET_PROTOCOL: u16 = 0x0074;
pub const CMD_CHECK_READ_POINT_STATUS: u16 = 0x0076;
pub const CMD_CHECK_READ_POINT_IN_SOURCE: u16 = 0x0078;
pub const CMD_GET_PROTOCOL: u16 = 0x0079;
pub const CMD_GET_FIRMWARE_RELEASE: u16 = 0x007C;
pub const CMD_RF_ON_OFF: u16 = 0x0080;
pub const CMD_GET_BIT_RATE: u16 = 0x0081;
pub const CMD_SET_RS232: u16 = 0x0083;
pub const CMD_SET_DATE_TIME: u16 = 0x0084;
pub const CMD_GET_IO: u16 = 0x0086;
pub const CMD_SET_IO: u16 = 0x0087;
pub const CMD_SET_IO_DIRECTION: u16 = 0x0088;
pub const CMD_GET_IO_DIRECTION: u16 = 0x0089;
pub const CMD_SET_SOURCE_CONFIG: u16 = 0x008A;
pub const CMD_GET_SOURCE_CONFIG: u16 = 0x008B;
pub const CMD_PROGRAM_ID_EPC_C1G2: u16 = 0x0095;
pub const CMD_READ_TAG_DATA_EPC_C1G2: u16 = 0x0096;
pub const CMD_WRITE_TAG_DATA_EPC_C1G2: u16 = 0x0097;
pub const CMD_LOCK_TAG_EPC_C1G2: u16 = 0x0098;
pub const CMD_KILL_TAG_EPC_C1G2: u16 = 0x0099;
pub const CMD_QUERY_EPC_C1G2: u16 = 0x009A;
pub const CMD_SET_Q_EPC_C1G2: u16 = 0x009B;
pub const CMD_GET_Q_EPC_C1G2: u16 = 0x009C;
pub const CMD_GET_READER_INFO: u16 = 0x009E;
pub const CMD_SET_LBT_MODE: u16 = 0x009F;
pub const CMD_GET_LBT_MODE: u16 = 0x00A0;
pub const CMD_GET_RF_REGULATION: u16 = 0x00A2;
pub const CMD_SET_RF_CHANNEL: u16 = 0x00A3;
pub const CMD_GET_RF_CHANNEL: u16 = 0x00A4;
pub const CMD_LOCK_BLOCK_PERMALOCK_EPC_C1G2: u16 = 0x00B1;
pub const CMD_READ_BLOCK_PERMALOCK_EPC_C1G2: u16 = 0x00B2;

/// Result codes that a reader reports in the result-code AVP.
#[derive(Debug, PartialEq)]
pub enum ResultCode {
    Success,
    Unknown,
    InvalidCmd,
    PwrOutRange,
    InvalidPar,
    TagNotPresent,
    TagWrite,
    TagBadAddress,
    InvalidFunction,
    Locked,
    Failed,
}

impl ResultCode {
    /// The wire value of the variant.
    pub open spec fn spec_code(self) -> u16 {
        match self {
            ResultCode::Success => 0x0000,
            ResultCode::Unknown => 0x0066,
            ResultCode::InvalidCmd => 0x007f,
            ResultCode::PwrOutRange => 0x00b7,
            ResultCode::InvalidPar => 0x00c8,
            ResultCode::TagNotPresent => 0x00ca,
            ResultCode::TagWrite => 0x00cb,
            ResultCode::TagBadAddress => 0x00cd,
            ResultCode::InvalidFunction => 0x00ce,
            ResultCode::Locked => 0x00d1,
            ResultCode::Failed => 0x00d2,
        }
    }

    /// The wire value of the variant.
    pub fn code(&self) -> (r: u16)
        ensures
            r == self.spec_code(),
    {
        match self {
            ResultCode::Success => 0x0000,
            ResultCode::Unknown => 0x0066,
            ResultCode::InvalidCmd => 0x007f,
            ResultCode::PwrOutRange => 0x00b7,
            ResultCode::InvalidPar => 0x00c8,
            ResultCode::TagNotPresent => 0x00ca,
            ResultCode::TagWrite => 0x00cb,
            ResultCode::TagBadAddress => 0x00cd,
            ResultCode::InvalidFunction => 0x00ce,
            ResultCode::Locked => 0x00d1,
            ResultCode::Failed => 0x00d2,
        }
    }
}

/// Air protocols (protocol AVP, four bytes).
#[derive(Debug, PartialEq)]
pub enum Protocol {
    Iso18000_6B,
    EpcC1G1,
    Iso18000_6A,
    EpcC1G2,
}

impl Protocol {
    /// The wire value of the variant.
    pub open spec fn spec_code(self) -> u32 {
        match self {
            Protocol::Iso18000_6B => 0x00000000,
            Protocol::EpcC1G1 => 0x00000001,
            Protocol::Iso18000_6A => 0x00000002,
            Protocol::EpcC1G2 => 0x00000003,
        }
    }

    /// The wire value of the variant.
    pub fn code(&self) -> (r: u32)
        ensures
            r == self.spec_code(),
    {
        match self {
            Protocol::Iso18000_6B => 0x00000000,
            Protocol::EpcC1G1 => 0x00000001,
            Protocol::Iso18000_6A => 0x00000002,
            Protocol::EpcC1G2 => 0x00000003,
        }
    }
}

/// The variant with wire value `value`, or an unknown-value error that carries it.
pub open spec fn spec_protocol(value: u32) -> Result<Protocol, ConversionError> {
    if value == 0x00000000 {
        Ok(Protocol::Iso18000_6B)
    } else if value == 0x00000001 {
        Ok(Protocol::EpcC1G1)
    } else if value == 0x00000002 {
        Ok(Protocol::Iso18000_6A)
    } else if value == 0x00000003 {
        Ok(Protocol::EpcC1G2)
    } else {
        Err(ConversionError::UnknownValue(value))
    }
}

impl vstd::std_specs::convert::TryFromSpecImpl<u32> for Protocol {
    open spec fn obeys_try_from_spec() -> bool {
        true
    }

    open spec fn try_from_spec(v: u32) -> Result<Self, Self::Error> {
        spec_protocol(v)
    }
}

impl TryFrom<u32> for Protocol {
    type Error = ConversionError;

    fn try_from(value: u32) -> (r: Result<Self, Self::Error>)
        ensures
            r == spec_protocol(value),
    {
        match value {
            0x00000000 => Ok(Protocol::Iso18000_6B),
            0x00000001 => Ok(Protocol::EpcC1G1),
            0x00000002 => Ok(Protocol::Iso18000_6A),
            0x00000003 => Ok(Protocol::EpcC1G2),
            _ => Err(ConversionError::UnknownValue(value)),
        }
    }
}

/// Reading back the wire value of any variant gives that variant; any other value is refused as unknown.
pub proof fn lemma_protocol_code_roundtrip(p: Protocol, value: u32)
    ensures
        spec_protocol(p.spec_code()) == Ok::<Protocol, ConversionError>(p),
        spec_protocol(value) matches Ok(q) ==> q.spec_code() == value,
        spec_protocol(value) matches Err(e) ==> e == ConversionError::UnknownValue(value),
{
}

/// Tag types (tag-type AVP).
#[derive(Debug, PartialEq)]
pub enum TagType {
    Iso18KB,
    EpcC1G1,
    Iso18KA,
    EpcC1G2,
    Epc119,
}

impl TagType {
    /// The wire value of the variant.
    pub open spec fn spec_code(self) -> u16 {
        match self {
            TagType::Iso18KB => 0x0000,
            TagType::EpcC1G1 => 0x0001,
            TagType::Iso18KA => 0x0002,
            TagType::EpcC1G2 => 0x0003,
            TagType::Epc119 => 0x0005,
        }
    }

    /// The wire value of the variant.
    pub fn code(&self) -> (r: u16)
        ensures
            r == self.spec_code(),
    {
        match self {
            TagType::Iso18KB => 0x0000,
            TagType::EpcC1G1 => 0x0001,
            TagType::Iso18KA => 0x0002,
            TagType::EpcC1G2 => 0x0003,
            TagType::Epc119 => 0x0005,
        }
    }
}

/// Event types (event-type AVP, four bytes).
#[derive(Debug, PartialEq)]
pub enum EventType {
    Unknown,
    Glimpsed,
    New,
    Observed,
    Lost,
    Purged,
}

impl EventType {
    /// The wire value of the variant.
    pub open spec fn spec_code(self) -> u32 {
        match self {
            EventType::Unknown => 0x00000000,
            EventType::Glimpsed => 0x00000001,
            EventType::New => 0x00000002,
            EventType::Observed => 0x00000003,
            EventType::Lost => 0x00000004,
            EventType::Purged => 0x00000005,
        }
    }

    /// The wire value of the variant.
    pub fn code(&self) -> (r: u32)
        ensures
            r == self.spec_code(),
    {
        match self {
            EventType::Unknown => 0x00000000,
            EventType::Glimpsed => 0x00000001,
            EventType::New => 0x00000002,
            EventType::Observed => 0x00000003,
            EventType::Lost => 0x00000004,
            EventType::Purged => 0x00000005,
        }
    }
}

/// Antenna connection quality (read-point-status AVP, four bytes).
#[derive(Debug, PartialEq)]
pub enum ReadPointStatus {
    Good,
    Poor,
    Bad,
}

impl ReadPointStatus {
    /// The wire value of the variant.
    pub open spec fn spec_code(self) -> u32 {
        match self {
            ReadPointStatus::Good => 0x00000000,
            ReadPointStatus::Poor => 0x00000001,
            ReadPointStatus::Bad => 0x00000002,
        }
    }

    /// The wire value of the variant.
    pub fn code(&self) -> (r: u32)
        ensures
            r == self.spec_code(),
    {
        match self {
            ReadPointStatus::Good => 0x00000000,
            ReadPointStatus::Poor => 0x00000001,
            ReadPointStatus::Bad => 0x00000002,
        }
    }
}

/// The variant with wire value `value`, or an unknown-value error that carries it.
pub open spec fn spec_read_point_status(value: u32) -> Result<ReadPointStatus, ConversionError> {
    if value == 0x00000000 {
        Ok(ReadPointStatus::Good)
    } else if value == 0x00000001 {
        Ok(ReadPointStatus::Poor)
    } else if value == 0x00000002 {
        Ok(ReadPointStatus::Bad)
    } else {
        Err(ConversionError::UnknownValue(value))
    }
}

impl vstd::std_specs::convert::TryFromSpecImpl<u32> for ReadPointStatus {
    open spec fn obeys_try_from_spec() -> bool {
        true
    }

    open spec fn try_from_spec(v: u32) -> Result<Self, Self::Error> {
        spec_read_point_status(v)
    }
}

impl TryFrom<u32> for ReadPointStatus {
    type Error = ConversionError;

    fn try_from(value: u32) -> (r: Result<Self, Self::Error>)
        ensures
            r == spec_read_point_status(value),
    {
        match value {
            0x00000000 => Ok(ReadPointStatus::Good),
            0x00000001 => Ok(ReadPointStatus::Poor),
            0x00000002 => Ok(ReadPointStatus::Bad),
            _ => Err(ConversionError::UnknownValue(value)),
        }
    }
}

/// Reading back the wire value of any variant gives that variant; any other value is refused as unknown.
pub proof fn lemma_read_point_status_code_roundtrip(p: ReadPointStatus, value: u32)
    ensures
        spec_read_point_status(p.spec_code()) == Ok::<ReadPointStatus, ConversionError>(p),
        spec_read_point_status(value) matches Ok(q) ==> q.spec_code() == value,
        spec_read_point_status(value) matches Err(e) ==> e == ConversionError::UnknownValue(value),
{
}

/// Memory banks of a Gen2 tag (memory-bank AVP).
#[derive(Debug, PartialEq)]
pub enum MemoryBank {
    Reserved,
    Epc,
    Tid,
    User,
}

impl MemoryBank {
    /// The wire value of the variant.
    pub open spec fn spec_code(self) -> u16 {
        match self {
            MemoryBank::Reserved => 0x0000,
            MemoryBank::Epc => 0x0001,
            MemoryBank::Tid => 0x0002,
            MemoryBank::User => 0x0003,
        }
    }

    /// The wire value of the variant.
    pub fn code(&self) -> (r: u16)
        ensures
            r == self.spec_code(),
    {
        match self {
            MemoryBank::Reserved => 0x0000,
            MemoryBank::Epc => 0x0001,
            MemoryBank::Tid => 0x0002,
            MemoryBank::User => 0x0003,
        }
    }
}

/// Serial parity settings (parity AVP, four bytes).
#[derive(Debug, PartialEq)]
pub enum Parity {
    NoParity,
    Odd,
    Even,
}

impl Parity {
    /// The wire value of the variant.
    pub open spec fn spec_code(self) -> u32 {
        match self {
            Parity::NoParity => 0x00000000,
            Parity::Odd => 0x00000001,
            Parity::Even => 0x00000002,
        }
    }

    /// The wire value of the variant.
    pub fn code(&self) -> (r: u32)
        ensures
            r == self.spec_code(),
    {
        match self {
            Parity::NoParity => 0x00000000,
            Parity::Odd => 0x00000001,
            Parity::Even => 0x00000002,
        }
    }
}

/// Serial flow-control settings (flow-control AVP, four bytes).
#[derive(Debug, PartialEq)]
pub enum FlowCtrl {
    NoFlowCtrl,
    Hardware,
    Software,
}

impl FlowCtrl {
    /// The wire value of the variant.
    pub open spec fn spec_code(self) -> u32 {
        match self {
            FlowCtrl::NoFlowCtrl => 0x00000000,
            FlowCtrl::Hardware => 0x00000001,
            FlowCtrl::Software => 0x00000002,
        }
    }

    /// The wire value of the variant.
    pub fn code(&self) -> (r: u32)
        ensures
            r == self.spec_code(),
    {
        match self {
            FlowCtrl::NoFlowCtrl => 0x00000000,
            FlowCtrl::Hardware => 0x00000001,
            FlowCtrl::Software => 0x00000002,
        }
    }
}

/// Event modes (event-mode AVP).
#[derive(Debug, PartialEq)]
pub enum EventMode {
    ReadCycle,
    Time,
    NoEvent,
}

impl EventMode {
    /// The wire value of the variant.
    pub open spec fn spec_code(self) -> u16 {
        match self {
            EventMode::ReadCycle => 0x0000,
            EventMode::Time => 0x0001,
            EventMode::NoEvent => 0x0002,
        }
    }

    /// The wire value of the variant.
    pub fn code(&self) -> (r: u16)
        ensures
            r == self.spec_code(),
    {
        match self {
            EventMode::ReadCycle => 0x0000,
            EventMode::Time => 0x0001,
            EventMode::NoEvent => 0x0002,
        }
    }
}

/// Source configuration parameters (config-parameter AVP, four bytes).
#[derive(Debug, PartialEq)]
pub enum ConfigParameter {
    ReadCycle,
    ObservedThreshold,
    LostThreshold,
    StartingQ,
    Session,
    Target,
    Selected,
    DataExchangeStatus,
    AntennaDwellTime,
    InventoryType,
}

impl ConfigParameter {
    /// The wire value of the variant.
    pub open spec fn spec_code(self) -> u32 {
        match self {
            ConfigParameter::ReadCycle => 0x00000000,
            ConfigParameter::ObservedThreshold => 0x00000001,
            ConfigParameter::LostThreshold => 0x00000002,
            ConfigParameter::StartingQ => 0x00000003,
            ConfigParameter::Session => 0x00000004,
            ConfigParameter::Target => 0x00000005,
            ConfigParameter::Selected => 0x00000006,
            ConfigParameter::DataExchangeStatus => 0x00000007,
            ConfigParameter::AntennaDwellTime => 0x00000008,
            ConfigParameter::InventoryType => 0x00000009,
        }
    }

    /// The wire value of the variant.
    pub fn code(&self) -> (r: u32)
        ensures
            r == self.spec_code(),
    {
        match self {
            ConfigParameter::ReadCycle => 0x00000000,
            ConfigParameter::ObservedThreshold => 0x00000001,
            ConfigParameter::LostThreshold => 0x00000002,
            ConfigParameter::StartingQ => 0x00000003,
            ConfigParameter::Session => 0x00000004,
            ConfigParameter::Target => 0x00000005,
            ConfigParameter::Selected => 0x00000006,
            ConfigParameter::DataExchangeStatus => 0x00000007,
            ConfigParameter::AntennaDwellTime => 0x00000008,
            ConfigParameter::InventoryType => 0x00000009,
        }
    }
}

/// RF regulations (RF-regulation AVP).
#[derive(Debug, PartialEq)]
pub enum RFRegulation {
    EtsiEn302208,
    EtsiEn300220,
    Fcc,
    Malaysia,
    Japan,
    Korea,
    Australia,
    China,
    Taiwan,
    Singapore,
    Brazil,
    JapanStdT106,
    JapanStdT107,
}

impl RFRegulation {
    /// The wire value of the variant.
    pub open spec fn spec_code(self) -> u16 {
        match self {
            RFRegulation::EtsiEn302208 => 0x0000,
            RFRegulation::EtsiEn300220 => 0x0001,
            RFRegulation::Fcc => 0x0002,
            RFRegulation::Malaysia => 0x0003,
            RFRegulation::Japan => 0x0004,
            RFRegulation::Korea => 0x0005,
            RFRegulation::Australia => 0x0006,
            RFRegulation::China => 0x0007,
            RFRegulation::Taiwan => 0x0008,
            RFRegulation::Singapore => 0x0009,
            RFRegulation::Brazil => 0x000a,
            RFRegulation::JapanStdT106 => 0x000b,
            RFRegulation::JapanStdT107 => 0x000c,
        }
    }

    /// The wire value of the variant.
    pub fn code(&self) -> (r: u16)
        ensures
            r == self.spec_code(),
    {
        match self {
            RFRegulation::EtsiEn302208 => 0x0000,
            RFRegulation::EtsiEn300220 => 0x0001,
            RFRegulation::Fcc => 0x0002,
            RFRegulation::Malaysia => 0x0003,
            RFRegulation::Japan => 0x0004,
            RFRegulation::Korea => 0x0005,
            RFRegulation::Australia => 0x0006,
            RFRegulation::China => 0x0007,
            RFRegulation::Taiwan => 0x0008,
            RFRegulation::Singapore => 0x0009,
            RFRegulation::Brazil => 0x000a,
            RFRegulation::JapanStdT106 => 0x000b,
            RFRegulation::JapanStdT107 => 0x000c,
        }
    }
}

/// The variant with wire value `value`, or an unknown-value error that carries it.
pub open spec fn spec_rf_regulation(value: u16) -> Result<RFRegulation, ConversionError> {
    if value == 0x0000 {
        Ok(RFRegulation::EtsiEn302208)
    } else if value == 0x0001 {
        Ok(RFRegulation::EtsiEn300220)
    } else if value == 0x0002 {
        Ok(RFRegulation::Fcc)
    } else if value == 0x0003 {
        Ok(RFRegulation::Malaysia)
    } else if value == 0x0004 {
        Ok(RFRegulation::Japan)
    } else if value == 0x0005 {
        Ok(RFRegulation::Korea)
    } else if value == 0x0006 {
        Ok(RFRegulation::Australia)
    } else if value == 0x0007 {
        Ok(RFRegulation::China)
    } else if value == 0x0008 {
        Ok(RFRegulation::Taiwan)
    } else if value == 0x0009 {
        Ok(RFRegulation::Singapore)
    } else if value == 0x000a {
        Ok(RFRegulation::Brazil)
    } else if value == 0x000b {
        Ok(RFRegulation::JapanStdT106)
    } else if value == 0x000c {
        Ok(RFRegulation::JapanStdT107)
    } else {
        Err(ConversionError::UnknownValue(value as u32))
    }
}

impl vstd::std_specs::convert::TryFromSpecImpl<u16> for RFRegulation {
    open spec fn obeys_try_from_spec() -> bool {
        true
    }

    open spec fn try_from_spec(v: u16) -> Result<Self, Self::Error> {
        spec_rf_regulation(v)
    }
}

impl TryFrom<u16> for RFRegulation {
    type Error = ConversionError;

    fn try_from(value: u16) -> (r: Result<Self, Self::Error>)
        ensures
            r == spec_rf_regulation(value),
    {
        match value {
            0x0000 => Ok(RFRegulation::EtsiEn302208),
            0x0001 => Ok(RFRegulation::EtsiEn300220),
            0x0002 => Ok(RFRegulation::Fcc),
            0x0003 => Ok(RFRegulation::Malaysia),
            0x0004 => Ok(RFRegulation::Japan),
            0x0005 => Ok(RFRegulation::Korea),
            0x0006 => Ok(RFRegulation::Australia),
            0x0007 => Ok(RFRegulation::China),
            0x0008 => Ok(RFRegulation::Taiwan),
            0x0009 => Ok(RFRegulation::Singapore),
            0x000a => Ok(RFRegulation::Brazil),
            0x000b => Ok(RFRegulation::JapanStdT106),
            0x000c => Ok(RFRegulation::JapanStdT107),
            _ => Err(ConversionError::UnknownValue(value as u32)),
        }
    }
}

/// Reading back the wire value of any variant gives that variant; any other value is refused as unknown.
pub proof fn lemma_rf_regulation_code_roundtrip(p: RFRegulation, value: u16)
    ensures
        spec_rf_regulation(p.spec_code()) == Ok::<RFRegulation, ConversionError>(p),
        spec_rf_regulation(value) matches Ok(q) ==> q.spec_code() == value,
        spec_rf_regulation(value) matches Err(e) ==> e == ConversionError::UnknownValue(value as u32),
{
}

/// Select/unselect operations (sel-unsel-op AVP).
#[derive(Debug, PartialEq)]
pub enum SelUnselOp {
    SelectEqual,
    SelectNotEqual,
    SelectGreater,
    SelectLower,
    UnselectEqual,
    UnselectNotEqual,
    UnselectGreater,
    UnselectLower,
}

impl SelUnselOp {
    /// The wire value of the variant.
    pub open spec fn spec_code(self) -> u16 {
        match self {
            SelUnselOp::SelectEqual => 0x0000,
            SelUnselOp::SelectNotEqual => 0x0001,
            SelUnselOp::SelectGreater => 0x0002,
            SelUnselOp::SelectLower => 0x0003,
            SelUnselOp::UnselectEqual => 0x0004,
            SelUnselOp::UnselectNotEqual => 0x0005,
            SelUnselOp::UnselectGreater => 0x0006,
            SelUnselOp::UnselectLower => 0x0007,
        }
    }

    /// The wire value of the variant.
    pub fn code(&self) -> (r: u16)
        ensures
            r == self.spec_code(),
    {
        match self {
            SelUnselOp::SelectEqual => 0x0000,
            SelUnselOp::SelectNotEqual => 0x0001,
            SelUnselOp::SelectGreater => 0x0002,
            SelUnselOp::SelectLower => 0x0003,
            SelUnselOp::UnselectEqual => 0x0004,
            SelUnselOp::UnselectNotEqual => 0x0005,
            SelUnselOp::UnselectGreater => 0x0006,
            SelUnselOp::UnselectLower => 0x0007,
        }
    }
}

/// The wire codes of the result codes, as the easy2read protocol numbers
/// them; no two variants share a code.
pub proof fn lemma_result_code_wire_codes()
    ensures
        ResultCode::Success.spec_code() == 0,
        ResultCode::Unknown.spec_code() == 102,
        ResultCode::InvalidCmd.spec_code() == 127,
        ResultCode::PwrOutRange.spec_code() == 183,
        ResultCode::InvalidPar.spec_code() == 200,
        ResultCode::TagNotPresent.spec_code() == 202,
        ResultCode::TagWrite.spec_code() == 203,
        ResultCode::TagBadAddress.spec_code() == 205,
        ResultCode::InvalidFunction.spec_code() == 206,
        ResultCode::Locked.spec_code() == 209,
        ResultCode::Failed.spec_code() == 210,
        forall|a: ResultCode, b: ResultCode| a.spec_code() == b.spec_code() ==> a == b,
{
}

/// The wire codes of the air protocols, as the easy2read protocol numbers
/// them; no two variants share a code.
pub proof fn lemma_protocol_wire_codes()
    ensures
        Protocol::Iso18000_6B.spec_code() == 0,
        Protocol::EpcC1G1.spec_code() == 1,
        Protocol::Iso18000_6A.spec_code() == 2,
        Protocol::EpcC1G2.spec_code() == 3,
        forall|a: Protocol, b: Protocol| a.spec_code() == b.spec_code() ==> a == b,
{
}

/// Which variant each wire value decodes to: the table of the easy2read
/// protocol for codes 0 to 3; every larger value is refused as unknown,
/// carrying the value.
pub proof fn lemma_protocol_decoding(value: u32)
    ensures
        spec_protocol(0) == Ok::<Protocol, ConversionError>(Protocol::Iso18000_6B),
        spec_protocol(1) == Ok::<Protocol, ConversionError>(Protocol::EpcC1G1),
        spec_protocol(2) == Ok::<Protocol, ConversionError>(Protocol::Iso18000_6A),
        spec_protocol(3) == Ok::<Protocol, ConversionError>(Protocol::EpcC1G2),
        value > 3 ==> spec_protocol(value) == Err::<Protocol, ConversionError>(
            ConversionError::UnknownValue(value),
        ),
{
}

/// The wire codes of the tag types, as the easy2read protocol numbers
/// them; no two variants share a code.
pub proof fn lemma_tag_type_wire_codes()
    ensures
        TagType::Iso18KB.spec_code() == 0,
        TagType::EpcC1G1.spec_code() == 1,
        TagType::Iso18KA.spec_code() == 2,
        TagType::EpcC1G2.spec_code() == 3,
        TagType::Epc119.spec_code() == 5,
        forall|a: TagType, b: TagType| a.spec_code() == b.spec_code() ==> a == b,
{
}

/// The wire codes of the event types, as the easy2read protocol numbers
/// them; no two variants share a code.
pub proof fn lemma_event_type_wire_codes()
    ensures
        EventType::Unknown.spec_code() == 0,
        EventType::Glimpsed.spec_code() == 1,
        EventType::New.spec_code() == 2,
        EventType::Observed.spec_code() == 3,
        EventType::Lost.spec_code() == 4,
        EventType::Purged.spec_code() == 5,
        forall|a: EventType, b: EventType| a.spec_code() == b.spec_code() ==> a == b,
{
}

/// The wire codes of the read-point statuses, as the easy2read protocol numbers
/// them; no two variants share a code.
pub proof fn lemma_read_point_status_wire_codes()
    ensures
        ReadPointStatus::Good.spec_code() == 0,
        ReadPointStatus::Poor.spec_code() == 1,
        ReadPointStatus::Bad.spec_code() == 2,
        forall|a: ReadPointStatus, b: ReadPointStatus| a.spec_code() == b.spec_code() ==> a == b,
{
}

/// Which variant each wire value decodes to: the table of the easy2read
/// protocol for codes 0 to 2; every larger value is refused as unknown,
/// carrying the value.
pub proof fn lemma_read_point_status_decoding(value: u32)
    ensures
        spec_read_point_status(0) == Ok::<ReadPointStatus, ConversionError>(ReadPointStatus::Good),
        spec_read_point_status(1) == Ok::<ReadPointStatus, ConversionError>(ReadPointStatus::Poor),
        spec_read_point_status(2) == Ok::<ReadPointStatus, ConversionError>(ReadPointStatus::Bad),
        value > 2 ==> spec_read_point_status(value) == Err::<ReadPointStatus, ConversionError>(
            ConversionError::UnknownValue(value),
        ),
{
}

/// The wire codes of the memory banks, as the easy2read protocol numbers
/// them; no two variants share a code.
pub proof fn lemma_memory_bank_wire_codes()
    ensures
        MemoryBank::Reserved.spec_code() == 0,
        MemoryBank::Epc.spec_code() == 1,
        MemoryBank::Tid.spec_code() == 2,
        MemoryBank::User.spec_code() == 3,
        forall|a: MemoryBank, b: MemoryBank| a.spec_code() == b.spec_code() ==> a == b,
{
}

/// The wire codes of the parity settings, as the easy2read protocol numbers
/// them; no two variants share a code.
pub proof fn lemma_parity_wire_codes()
    ensures
        Parity::NoParity.spec_code() == 0,
        Parity::Odd.spec_code() == 1,
        Parity::Even.spec_code() == 2,
        forall|a: Parity, b: Parity| a.spec_code() == b.spec_code() ==> a == b,
{
}

/// The wire codes of the flow-control settings, as the easy2read protocol numbers
/// them; no two variants share a code.
pub proof fn lemma_flow_ctrl_wire_codes()
    ensures
        FlowCtrl::NoFlowCtrl.spec_code() == 0,
        FlowCtrl::Hardware.spec_code() == 1,
        FlowCtrl::Software.spec_code() == 2,
        forall|a: FlowCtrl, b: FlowCtrl| a.spec_code() == b.spec_code() ==> a == b,
{
}

/// The wire codes of the event modes, as the easy2read protocol numbers
/// them; no two variants share a code.
pub proof fn lemma_event_mode_wire_codes()
    ensures
        EventMode::ReadCycle.spec_code() == 0,
        EventMode::Time.spec_code() == 1,
        EventMode::NoEvent.spec_code() == 2,
        forall|a: EventMode, b: EventMode| a.spec_code() == b.spec_code() ==> a == b,
{
}

/// The wire codes of the configuration parameters, as the easy2read protocol numbers
/// them; no two variants share a code.
pub proof fn lemma_config_parameter_wire_codes()
    ensures
        ConfigParameter::ReadCycle.spec_code() == 0,
        ConfigParameter::ObservedThreshold.spec_code() == 1,
        ConfigParameter::LostThreshold.spec_code() == 2,
        ConfigParameter::StartingQ.spec_code() == 3,
        ConfigParameter::Session.spec_code() == 4,
        ConfigParameter::Target.spec_code() == 5,
        ConfigParameter::Selected.spec_code() == 6,
        ConfigParameter::DataExchangeStatus.spec_code() == 7,
        ConfigParameter::AntennaDwellTime.spec_code() == 8,
        ConfigParameter::InventoryType.spec_code() == 9,
        forall|a: ConfigParameter, b: ConfigParameter| a.spec_code() == b.spec_code() ==> a == b,
{
}

/// The wire codes of the RF regulations, as the easy2read protocol numbers
/// them; no two variants share a code.
pub proof fn lemma_rf_regulation_wire_codes()
    ensures
        RFRegulation::EtsiEn302208.spec_code() == 0,
        RFRegulation::EtsiEn300220.spec_code() == 1,
        RFRegulation::Fcc.spec_code() == 2,
        RFRegulation::Malaysia.spec_code() == 3,
        RFRegulation::Japan.spec_code() == 4,
        RFRegulation::Korea.spec_code() == 5,
        RFRegulation::Australia.spec_code() == 6,
        RFRegulation::China.spec_code() == 7,
        RFRegulation::Taiwan.spec_code() == 8,
        RFRegulation::Singapore.spec_code() == 9,
        RFRegulation::Brazil.spec_code() == 10,
        RFRegulation::JapanStdT106.spec_code() == 11,
        RFRegulation::JapanStdT107.spec_code() == 12,
        forall|a: RFRegulation, b: RFRegulation| a.spec_code() == b.spec_code() ==> a == b,
{
}

/// Which variant each wire value decodes to: the table of the easy2read
/// protocol for codes 0 to 12; every larger value is refused as unknown,
/// carrying the value.
pub proof fn lemma_rf_regulation_decoding(value: u16)
    ensures
        spec_rf_regulation(0) == Ok::<RFRegulation, ConversionError>(RFRegulation::EtsiEn302208),
        spec_rf_regulation(1) == Ok::<RFRegulation, ConversionError>(RFRegulation::EtsiEn300220),
        spec_rf_regulation(2) == Ok::<RFRegulation, ConversionError>(RFRegulation::Fcc),
        spec_rf_regulation(3) == Ok::<RFRegulation, ConversionError>(RFRegulation::Malaysia),
        spec_rf_regulation(4) == Ok::<RFRegulation, ConversionError>(RFRegulation::Japan),
        spec_rf_regulation(5) == Ok::<RFRegulation, ConversionError>(RFRegulation::Korea),
        spec_rf_regulation(6) == Ok::<RFRegulation, ConversionError>(RFRegulation::Australia),
        spec_rf_regulation(7) == Ok::<RFRegulation, ConversionError>(RFRegulation::China),
        spec_rf_regulation(8) == Ok::<RFRegulation, ConversionError>(RFRegulation::Taiwan),
        spec_rf_regulation(9) == Ok::<RFRegulation, ConversionError>(RFRegulation::Singapore),
        spec_rf_regulation(10) == Ok::<RFRegulation, ConversionError>(RFRegulation::Brazil),
        spec_rf_regulation(11) == Ok::<RFRegulation, ConversionError>(RFRegulation::JapanStdT106),
        spec_rf_regulation(12) == Ok::<RFRegulation, ConversionError>(RFRegulation::JapanStdT107),
        value > 12 ==> spec_rf_regulation(value) == Err::<RFRegulation, ConversionError>(
            ConversionError::UnknownValue(value as u32),
        ),
{
}

/// The wire codes of the select/unselect operations, as the easy2read protocol numbers
/// them; no two variants share a code.
pub proof fn lemma_sel_unsel_op_wire_codes()
    ensures
        SelUnselOp::SelectEqual.spec_code() == 0,
        SelUnselOp::SelectNotEqual.spec_code() == 1,
        SelUnselOp::SelectGreater.spec_code() == 2,
        SelUnselOp::SelectLower.spec_code() == 3,
        SelUnselOp::UnselectEqual.spec_code() == 4,
        SelUnselOp::UnselectNotEqual.spec_code() == 5,
        SelUnselOp::UnselectGreater.spec_code() == 6,
        SelUnselOp::UnselectLower.spec_code() == 7,
        forall|a: SelUnselOp, b: SelUnselOp| a.spec_code() == b.spec_code() ==> a == b,
{
}

} // verus!
