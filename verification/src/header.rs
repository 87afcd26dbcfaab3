//! A self-contained framing module: the same header and AVP formats as
//! [`crate::protocol`], with private fields and a message constructor whose
//! only error is an overlong message. Its values are
//! modelled by the models of [`crate::protocol`], whose reading functions
//! it reuses.

use vstd::prelude::*;

use crate::protocol;

verus! {

const HEADER_LEN: u32 = 10;

const AVP_HEADER_LEN: u16 = 6;

const VENDOR_ID: u32 = 0x00005358;

#[derive(Debug)]
enum MessageDir {
    Tx,
    Rx,
}

impl MessageDir {
    /// The direction of [`crate::protocol`] that this one stands for.
    pub closed spec fn model(self) -> protocol::MessageDir {
        match self {
            MessageDir::Tx => protocol::MessageDir::Tx,
            MessageDir::Rx => protocol::MessageDir::Rx,
        }
    }
}

#[derive(Debug)]
enum HeaderError {
    TooShort,
    WrongDirection,
    WrongVendorId,
}

impl HeaderError {
    /// The header error of [`crate::protocol`] that this one stands for.
    pub closed spec fn model(self) -> protocol::HeaderError {
        match self {
            HeaderError::TooShort => protocol::HeaderError::TooShort,
            HeaderError::WrongDirection => protocol::HeaderError::WrongDirection,
            HeaderError::WrongVendorId => protocol::HeaderError::WrongVendorId,
        }
    }
}

impl vstd::std_specs::convert::TryFromSpecImpl<u16> for MessageDir {
    open spec fn obeys_try_from_spec() -> bool {
        false
    }

    open spec fn try_from_spec(v: u16) -> Result<Self, Self::Error> {
        vstd::pervasive::arbitrary()
    }
}

impl TryFrom<u16> for MessageDir {
    type Error = HeaderError;

    fn try_from(value: u16) -> (r: Result<Self, Self::Error>)
        ensures
            match (r, protocol::spec_message_dir(value)) {
                (Ok(d), Ok(p)) => d.model() == p,
                (Err(e), Err(p)) => e.model() == p,
                _ => false,
            },
    {
        match value {
            0x8001 => Ok(MessageDir::Tx),
            0x0001 => Ok(MessageDir::Rx),
            _ => Err(HeaderError::WrongDirection),
        }
    }
}

#[derive(Debug)]
struct Header {
    direction: MessageDir,
    message_id: u16,
    vendor_id: u32,
    length: u16,
}

impl Header {
    /// The header of [`crate::protocol`] that this one stands for.
    pub closed spec fn model(self) -> protocol::Header {
        protocol::Header {
            direction: self.direction.model(),
            message_id: self.message_id,
            vendor_id: self.vendor_id,
            length: self.length,
        }
    }

    /// Header of an outgoing message with identifier `mess_id` and total length `len`.
    pub fn new(mess_id: u16, len: u16) -> (r: Self)
        ensures
            r.model() == (protocol::Header {
                direction: protocol::MessageDir::Tx,
                message_id: mess_id,
                vendor_id: protocol::VENDOR_ID,
                length: len,
            }),
    {
        Header { direction: MessageDir::Tx, message_id: mess_id, vendor_id: VENDOR_ID, length: len }
    }
}

impl vstd::std_specs::convert::TryFromSpecImpl<&[u8]> for Header {
    open spec fn obeys_try_from_spec() -> bool {
        false
    }

    open spec fn try_from_spec(v: &[u8]) -> Result<Self, Self::Error> {
        vstd::pervasive::arbitrary()
    }
}

impl TryFrom<&[u8]> for Header {
    type Error = HeaderError;

    fn try_from(data: &[u8]) -> (r: Result<Self, Self::Error>)
        ensures
            match (r, protocol::spec_parse_header(data@)) {
                (Ok(h), Ok(p)) => h.model() == p,
                (Err(e), Err(p)) => e.model() == p,
                _ => false,
            },
    {
        if data.len() < HEADER_LEN as usize {
            return Err(HeaderError::TooShort);
        }
        let direction = match MessageDir::try_from(protocol::read_be16(data, 0)) {
            Ok(d) => d,
            Err(e) => return Err(e),
        };
        let message_id = protocol::read_be16(data, 2);
        let vendor_id = protocol::read_be32(data, 4);
        if vendor_id != VENDOR_ID {
            return Err(HeaderError::WrongVendorId);
        }
        let length = protocol::read_be16(data, 8);
        Ok(Header { direction, message_id, vendor_id, length })
    }
}

/// Why an AVP was refused.
#[derive(Debug)]
pub enum AvpError {
    TooShort,
    TooLong,
    InvalidLength,
}

impl AvpError {
    /// The AVP error of [`crate::protocol`] that this one stands for.
    pub open spec fn model(self) -> protocol::AvpError {
        match self {
            AvpError::TooShort => protocol::AvpError::TooShort,
            AvpError::TooLong => protocol::AvpError::TooLong,
            AvpError::InvalidLength => protocol::AvpError::InvalidLength,
        }
    }
}

/// Attribute-value pair, modelled by [`protocol::AvpView`].
pub struct Avp {
    reserved: u16,
    length: u16,
    attr_type: u16,
    value: Vec<u8>,
}

impl View for Avp {
    type V = protocol::AvpView;

    closed spec fn view(&self) -> protocol::AvpView {
        protocol::AvpView {
            reserved: self.reserved,
            length: self.length,
            attr_type: self.attr_type,
            value: self.value@,
        }
    }
}

/// The model of a result that holds an [`Avp`].
pub open spec fn avp_result_model(r: Result<Avp, AvpError>) -> Result<
    protocol::AvpView,
    protocol::AvpError,
> {
    match r {
        Ok(a) => Ok(a@),
        Err(e) => Err(e.model()),
    }
}

impl Avp {
    /// AVP of type `attr_type` carrying `value`, with its length field set;
    /// refused when the length does not fit in a `u16`.
    pub fn new(attr_type: u16, value: Vec<u8>) -> (r: Result<Self, AvpError>)
        ensures
            avp_result_model(r) == protocol::spec_avp_new(attr_type, value@),
    {
        if value.len() > (u16::MAX - AVP_HEADER_LEN) as usize {
            return Err(AvpError::TooLong);
        }
        let length: u16 = AVP_HEADER_LEN + value.len() as u16;
        Ok(Avp { reserved: 0, length, attr_type, value })
    }
}

impl vstd::std_specs::convert::TryFromSpecImpl<&[u8]> for Avp {
    open spec fn obeys_try_from_spec() -> bool {
        false
    }

    open spec fn try_from_spec(v: &[u8]) -> Result<Self, Self::Error> {
        vstd::pervasive::arbitrary()
    }
}

impl TryFrom<&[u8]> for Avp {
    type Error = AvpError;

    fn try_from(data: &[u8]) -> (r: Result<Self, Self::Error>)
        ensures
            avp_result_model(r) == protocol::spec_parse_avp(data@),
    {
        assert(data@.subrange(0, data@.len() as int) =~= data@);
        match protocol::parse_avp_at(data, 0) {
            Ok(a) => Ok(Avp { reserved: a.reserved, length: a.length, attr_type: a.attr_type, value: a.value }),
            Err(protocol::AvpError::TooShort) => Err(AvpError::TooShort),
            Err(protocol::AvpError::TooLong) => Err(AvpError::TooLong),
            Err(protocol::AvpError::InvalidLength) => Err(AvpError::InvalidLength),
        }
    }
}

/// A message: a header and its AVPs, modelled by [`protocol::MessageView`].
pub struct Message {
    header: Header,
    avp_list: Vec<Avp>,
}

/// The models of a sequence of AVPs.
pub open spec fn avps_model(avps: Seq<Avp>) -> Seq<protocol::AvpView> {
    avps.map_values(|a: Avp| a@)
}

impl View for Message {
    type V = protocol::MessageView;

    closed spec fn view(&self) -> protocol::MessageView {
        protocol::MessageView { header: self.header.model(), avps: avps_model(self.avp_list@) }
    }
}

/// Why a message could not be built.
#[derive(Debug)]
pub enum MessageError {
    TooLong,
}

/// The model of a result that holds a [`Message`].
pub open spec fn message_result_model(r: Result<Message, MessageError>) -> Result<
    protocol::MessageView,
    protocol::MessageError,
> {
    match r {
        Ok(m) => Ok(m@),
        Err(MessageError::TooLong) => Err(protocol::MessageError::TooLong),
    }
}

impl Message {
    /// Outgoing message with identifier `message_id` carrying `avp_list`; its
    /// header counts the header and the length fields of all AVPs. Refused when
    /// that total does not fit in a `u16`.
    pub fn new(message_id: u16, avp_list: Vec<Avp>) -> (r: Result<Self, MessageError>)
        requires
            protocol::spec_sum_lengths(avps_model(avp_list@)) + 10 <= u32::MAX,
        ensures
            message_result_model(r) == protocol::spec_message_new(message_id, avps_model(avp_list@)),
    {
        let ghost views = avps_model(avp_list@);
        let mut total: u32 = 0;
        let mut i: usize = 0;
        while i < avp_list.len()
            invariant
                i <= avp_list@.len(),
                views == avps_model(avp_list@),
                total == protocol::spec_sum_lengths(views.take(i as int)),
                protocol::spec_sum_lengths(views) + HEADER_LEN <= u32::MAX,
            decreases avp_list@.len() - i,
        {
            proof {
                protocol::lemma_sum_lengths_take_le(views, i as int + 1);
                assert(views.take(i as int + 1).drop_last() =~= views.take(i as int));
                assert(views.take(i as int + 1).last() == avp_list@[i as int]@);
            }
            total = total + avp_list[i].length as u32;
            i = i + 1;
        }
        assert(views.take(i as int) =~= views);
        let total = total + HEADER_LEN;
        if total > u16::MAX as u32 {
            return Err(MessageError::TooLong);
        }
        let len: u16 = total as u16;
        Ok(Message { header: Header::new(message_id, len), avp_list })
    }
}

} // verus!
