//! Wire format of easy2read messages: a ten-byte header followed by a list of
//! attribute-value pairs (AVPs), all multi-byte fields in big-endian order.

use vstd::prelude::*;

verus! {

/// Length in bytes of a message header.
pub const HEADER_LEN: u16 = 10;

/// Length in bytes of the fixed part of an AVP (reserved, length and type fields).
pub const AVP_HEADER_LEN: u16 = 6;

/// CAEN vendor identifier carried in every header.
pub const VENDOR_ID: u32 = 0x00005358;

/// The `u16` stored big-endian at `b[i]`, `b[i + 1]`.
pub open spec fn be16_at(b: Seq<u8>, i: int) -> u16 {
    (b[i] as int * 256 + b[i + 1] as int) as u16
}

/// The `u32` stored big-endian at `b[i]` .. `b[i + 3]`.
pub open spec fn be32_at(b: Seq<u8>, i: int) -> u32 {
    (b[i] as int * 16777216 + b[i + 1] as int * 65536 + b[i + 2] as int * 256
        + b[i + 3] as int) as u32
}

/// Big-endian bytes of a `u16`.
pub open spec fn be16_bytes(v: u16) -> Seq<u8> {
    seq![(v / 256) as u8, (v % 256) as u8]
}

/// Big-endian bytes of a `u32`.
pub open spec fn be32_bytes(v: u32) -> Seq<u8> {
    seq![
        (v / 16777216) as u8,
        ((v / 65536) % 256) as u8,
        ((v / 256) % 256) as u8,
        (v % 256) as u8,
    ]
}

/// Decoding the big-endian bytes of a `u16` gives it back.
pub proof fn lemma_be16_roundtrip(v: u16, rest: Seq<u8>)
    ensures
        be16_at(be16_bytes(v) + rest, 0) == v,
        (be16_bytes(v) + rest).len() == 2 + rest.len(),
{
    let b = be16_bytes(v) + rest;
    assert(b[0] == (v / 256) as u8);
    assert(b[1] == (v % 256) as u8);
}

/// Decoding the big-endian bytes of a `u32` gives it back.
pub proof fn lemma_be32_roundtrip(v: u32, rest: Seq<u8>)
    ensures
        be32_at(be32_bytes(v) + rest, 0) == v,
        (be32_bytes(v) + rest).len() == 4 + rest.len(),
{
    let b = be32_bytes(v) + rest;
    assert(b[0] == (v / 16777216) as u8);
    assert(b[1] == ((v / 65536) % 256) as u8);
    assert(b[2] == ((v / 256) % 256) as u8);
    assert(b[3] == (v % 256) as u8);
    assert((v / 16777216) * 16777216 + ((v / 65536) % 256) * 65536 + ((v / 256) % 256) * 256
        + v % 256 == v) by (nonlinear_arith);
}

/// Encoding a decoded big-endian `u16` gives back the two bytes it came from.
pub proof fn lemma_be16_canonical(b: Seq<u8>, i: int)
    requires
        0 <= i,
        i + 2 <= b.len(),
    ensures
        be16_bytes(be16_at(b, i)) == b.subrange(i, i + 2),
{
    let v = be16_at(b, i);
    assert(v / 256 == b[i] && v % 256 == b[i + 1]);
    assert(be16_bytes(v) =~= b.subrange(i, i + 2));
}

/// Encoding a decoded big-endian `u32` gives back the four bytes it came from.
pub proof fn lemma_be32_canonical(b: Seq<u8>, i: int)
    requires
        0 <= i,
        i + 4 <= b.len(),
    ensures
        be32_bytes(be32_at(b, i)) == b.subrange(i, i + 4),
{
    let v = be32_at(b, i);
    let (b0, b1, b2, b3) = (b[i] as int, b[i + 1] as int, b[i + 2] as int, b[i + 3] as int);
    assert(v == b0 * 16777216 + b1 * 65536 + b2 * 256 + b3);
    assert(v / 16777216 == b0 && (v / 65536) % 256 == b1 && (v / 256) % 256 == b2 && v % 256
        == b3) by (nonlinear_arith)
        requires
            v == b0 * 16777216 + b1 * 65536 + b2 * 256 + b3,
            0 <= b0 < 256,
            0 <= b1 < 256,
            0 <= b2 < 256,
            0 <= b3 < 256,
    ;
    assert(be32_bytes(v) =~= b.subrange(i, i + 4));
}


/// Direction of a message: from host to reader (`Tx`) or from reader to host (`Rx`).
#[derive(Debug)]
pub enum MessageDir {
    Tx,
    Rx,
}

impl MessageDir {
    /// The wire code of the direction.
    pub open spec fn spec_code(self) -> u16 {
        match self {
            MessageDir::Tx => 0x8001,
            MessageDir::Rx => 0x0001,
        }
    }

    /// The wire code of the direction.
    pub fn code(&self) -> (r: u16)
        ensures
            r == self.spec_code(),
    {
        match self {
            MessageDir::Tx => 0x8001,
            MessageDir::Rx => 0x0001,
        }
    }
}

/// The direction with wire code `value`, if there is one.
pub open spec fn spec_message_dir(value: u16) -> Result<MessageDir, HeaderError> {
    if value == 0x8001 {
        Ok(MessageDir::Tx)
    } else if value == 0x0001 {
        Ok(MessageDir::Rx)
    } else {
        Err(HeaderError::WrongDirection)
    }
}

impl vstd::std_specs::convert::TryFromSpecImpl<u16> for MessageDir {
    open spec fn obeys_try_from_spec() -> bool {
        true
    }

    open spec fn try_from_spec(v: u16) -> Result<Self, Self::Error> {
        spec_message_dir(v)
    }
}

impl TryFrom<u16> for MessageDir {
    type Error = HeaderError;

    fn try_from(value: u16) -> (r: Result<Self, Self::Error>)
        ensures
            r == spec_message_dir(value),
    {
        match value {
            0x8001 => Ok(MessageDir::Tx),
            0x0001 => Ok(MessageDir::Rx),
            _ => Err(HeaderError::WrongDirection),
        }
    }
}

/// Why a header was refused.
#[derive(Debug)]
pub enum HeaderError {
    TooShort,
    WrongDirection,
    WrongVendorId,
}

/// Message header: direction, message identifier, vendor identifier and the
/// total length of the message in bytes, header included.
#[derive(Debug)]
pub struct Header {
    pub direction: MessageDir,
    pub message_id: u16,
    pub vendor_id: u32,
    pub length: u16,
}

impl Header {
    /// Header of an outgoing message with identifier `mess_id` and total length `len`.
    pub fn new(mess_id: u16, len: u16) -> (r: Self)
        ensures
            r == (Header { direction: MessageDir::Tx, message_id: mess_id, vendor_id: VENDOR_ID, length: len }),
    {
        Header { direction: MessageDir::Tx, message_id: mess_id, vendor_id: VENDOR_ID, length: len }
    }
}

/// The header that the first ten bytes of `data` hold, or why there is none.
pub open spec fn spec_parse_header(data: Seq<u8>) -> Result<Header, HeaderError> {
    if data.len() < HEADER_LEN {
        Err(HeaderError::TooShort)
    } else {
        match spec_message_dir(be16_at(data, 0)) {
            Err(e) => Err(e),
            Ok(direction) => if be32_at(data, 4) != VENDOR_ID {
                Err(HeaderError::WrongVendorId)
            } else {
                Ok(
                    Header {
                        direction,
                        message_id: be16_at(data, 2),
                        vendor_id: be32_at(data, 4),
                        length: be16_at(data, 8),
                    },
                )
            },
        }
    }
}

/// The ten bytes that encode a header.
pub open spec fn spec_header_bytes(h: Header) -> Seq<u8> {
    be16_bytes(h.direction.spec_code()) + be16_bytes(h.message_id) + be32_bytes(h.vendor_id)
        + be16_bytes(h.length)
}

impl vstd::std_specs::convert::TryFromSpecImpl<&[u8]> for Header {
    open spec fn obeys_try_from_spec() -> bool {
        true
    }

    open spec fn try_from_spec(v: &[u8]) -> Result<Self, Self::Error> {
        spec_parse_header(v@)
    }
}

impl TryFrom<&[u8]> for Header {
    type Error = HeaderError;

    fn try_from(data: &[u8]) -> (r: Result<Self, Self::Error>)
        ensures
            r == spec_parse_header(data@),
    {
        if data.len() < HEADER_LEN as usize {
            return Err(HeaderError::TooShort);
        }
        let direction = match MessageDir::try_from(read_be16(data, 0)) {
            Ok(d) => d,
            Err(e) => return Err(e),
        };
        let message_id = read_be16(data, 2);
        let vendor_id = read_be32(data, 4);
        if vendor_id != VENDOR_ID {
            return Err(HeaderError::WrongVendorId);
        }
        let length = read_be16(data, 8);
        Ok(Header { direction, message_id, vendor_id, length })
    }
}

/// Writes the ten bytes of a header.
pub fn push_header(out: &mut Vec<u8>, h: &Header)
    ensures
        final(out)@ == old(out)@ + spec_header_bytes(*h),
{
    push_be16(out, h.direction.code());
    push_be16(out, h.message_id);
    push_be32(out, h.vendor_id);
    push_be16(out, h.length);
    assert(final(out)@ =~= old(out)@ + spec_header_bytes(*h));
}

/// A header is read back from its own bytes, whatever follows them,
/// when it carries the CAEN vendor identifier; otherwise it is refused
/// for its vendor identifier.
pub proof fn lemma_header_roundtrip(h: Header, rest: Seq<u8>)
    ensures
        spec_header_bytes(h).len() == HEADER_LEN,
        h.vendor_id == VENDOR_ID ==> spec_parse_header(spec_header_bytes(h) + rest) == Ok::<
            Header,
            HeaderError,
        >(h),
        h.vendor_id != VENDOR_ID ==> spec_parse_header(spec_header_bytes(h) + rest) == Err::<
            Header,
            HeaderError,
        >(HeaderError::WrongVendorId),
{
    let b = spec_header_bytes(h) + rest;
    let d = be16_bytes(h.direction.spec_code());
    let i = be16_bytes(h.message_id);
    let v = be32_bytes(h.vendor_id);
    let l = be16_bytes(h.length);
    assert(b =~= d + (i + (v + (l + rest))));
    lemma_be16_roundtrip(h.direction.spec_code(), i + (v + (l + rest)));
    lemma_be16_roundtrip(h.message_id, v + (l + rest));
    lemma_be32_roundtrip(h.vendor_id, l + rest);
    lemma_be16_roundtrip(h.length, rest);
    assert(be16_at(b, 0) == be16_at(d + (i + (v + (l + rest))), 0));
    assert(be16_at(b, 2) == be16_at(i + (v + (l + rest)), 0));
    assert(be32_at(b, 4) == be32_at(v + (l + rest), 0));
    assert(be16_at(b, 8) == be16_at(l + rest, 0));
}

/// A header that was read from `data` is written back as exactly the first
/// ten bytes of `data`.
pub proof fn lemma_header_canonical(data: Seq<u8>)
    requires
        spec_parse_header(data) is Ok,
    ensures
        spec_header_bytes(spec_parse_header(data)->Ok_0) == data.take(HEADER_LEN as int),
{
    let h = spec_parse_header(data)->Ok_0;
    lemma_be16_canonical(data, 0);
    lemma_be16_canonical(data, 2);
    lemma_be32_canonical(data, 4);
    lemma_be16_canonical(data, 8);
    assert(be16_bytes(h.direction.spec_code()) == data.subrange(0, 2));
    assert(spec_header_bytes(h) =~= data.take(HEADER_LEN as int));
}


/// Why an AVP was refused.
#[derive(Debug)]
pub enum AvpError {
    TooShort,
    TooLong,
    InvalidLength,
}

/// Attribute-value pair: a reserved field, the total length of the pair in
/// bytes (fixed part included), the attribute type and the value bytes.
pub struct Avp {
    pub reserved: u16,
    pub length: u16,
    pub attr_type: u16,
    pub value: Vec<u8>,
}

/// Mathematical model of an [`Avp`].
pub struct AvpView {
    pub reserved: u16,
    pub length: u16,
    pub attr_type: u16,
    pub value: Seq<u8>,
}

impl View for Avp {
    type V = AvpView;

    open spec fn view(&self) -> AvpView {
        AvpView {
            reserved: self.reserved,
            length: self.length,
            attr_type: self.attr_type,
            value: self.value@,
        }
    }
}

/// An AVP is well formed when its length field counts its fixed part and its value.
pub open spec fn avp_wf(a: AvpView) -> bool {
    a.length == AVP_HEADER_LEN + a.value.len()
}

/// The AVP that [`Avp::new`] builds for `attr_type` and `value`, or why it cannot.
pub open spec fn spec_avp_new(attr_type: u16, value: Seq<u8>) -> Result<AvpView, AvpError> {
    if AVP_HEADER_LEN + value.len() <= u16::MAX {
        Ok(
            AvpView {
                reserved: 0,
                length: (AVP_HEADER_LEN + value.len()) as u16,
                attr_type,
                value,
            },
        )
    } else {
        Err(AvpError::TooLong)
    }
}

/// The model of a result that holds an [`Avp`].
pub open spec fn avp_result_view(r: Result<Avp, AvpError>) -> Result<AvpView, AvpError> {
    match r {
        Ok(a) => Ok(a@),
        Err(e) => Err(e),
    }
}

impl Avp {
    /// AVP of type `attr_type` carrying `value`, with its length field set;
    /// refused when the length does not fit in a `u16`.
    pub fn new(attr_type: u16, value: Vec<u8>) -> (r: Result<Self, AvpError>)
        ensures
            avp_result_view(r) == spec_avp_new(attr_type, value@),
    {
        if value.len() > (u16::MAX - AVP_HEADER_LEN) as usize {
            return Err(AvpError::TooLong);
        }
        let length: u16 = AVP_HEADER_LEN + value.len() as u16;
        Ok(Avp { reserved: 0, length, attr_type, value })
    }
}

/// The AVP at the start of `data`, or why there is none.
pub open spec fn spec_parse_avp(data: Seq<u8>) -> Result<AvpView, AvpError> {
    if data.len() < AVP_HEADER_LEN {
        Err(AvpError::TooShort)
    } else if be16_at(data, 2) < AVP_HEADER_LEN {
        Err(AvpError::InvalidLength)
    } else if data.len() < be16_at(data, 2) {
        Err(AvpError::TooShort)
    } else {
        Ok(
            AvpView {
                reserved: be16_at(data, 0),
                length: be16_at(data, 2),
                attr_type: be16_at(data, 4),
                value: data.subrange(AVP_HEADER_LEN as int, be16_at(data, 2) as int),
            },
        )
    }
}

/// The bytes that encode an AVP.
pub open spec fn spec_avp_bytes(a: AvpView) -> Seq<u8> {
    be16_bytes(a.reserved) + be16_bytes(a.length) + be16_bytes(a.attr_type) + a.value
}

/// Reads the AVP that starts at `data[offset]`.
pub fn parse_avp_at(data: &[u8], offset: usize) -> (r: Result<Avp, AvpError>)
    requires
        offset <= data@.len(),
    ensures
        avp_result_view(r) == spec_parse_avp(data@.subrange(offset as int, data@.len() as int)),
        r matches Ok(a) ==> offset + a.length <= data.len() && a.length >= AVP_HEADER_LEN,
{
    let ghost d = data@.subrange(offset as int, data@.len() as int);
    if data.len() - offset < AVP_HEADER_LEN as usize {
        return Err(AvpError::TooShort);
    }
    let reserved = read_be16(data, offset);
    let length = read_be16(data, offset + 2);
    let attr_type = read_be16(data, offset + 4);
    assert(reserved == be16_at(d, 0) && length == be16_at(d, 2) && attr_type == be16_at(d, 4));
    if length < AVP_HEADER_LEN {
        return Err(AvpError::InvalidLength);
    }
    let value_len = (length - AVP_HEADER_LEN) as usize;
    if data.len() - offset < AVP_HEADER_LEN as usize + value_len {
        return Err(AvpError::TooShort);
    }
    let mut value: Vec<u8> = Vec::new();
    let start = offset + AVP_HEADER_LEN as usize;
    let mut i: usize = 0;
    while i < value_len
        invariant
            start + value_len <= data.len(),
            i <= value_len,
            value@ == data@.subrange(start as int, start + i),
        decreases value_len - i,
    {
        value.push(data[start + i]);
        i = i + 1;
        assert(value@ =~= data@.subrange(start as int, start + i));
    }
    assert(value@ =~= d.subrange(AVP_HEADER_LEN as int, length as int));
    Ok(Avp { reserved, length, attr_type, value })
}

impl vstd::std_specs::convert::TryFromSpecImpl<&[u8]> for Avp {
    open spec fn obeys_try_from_spec() -> bool {
        false
    }

    open spec fn try_from_spec(v: &[u8]) -> Result<Self, Self::Error> {
        vstd::pervasive::arbitrary()
    }
}

impl TryFrom<&[u8]> for Avp {
    type Error = AvpError;

    fn try_from(data: &[u8]) -> (r: Result<Self, Self::Error>)
        ensures
            avp_result_view(r) == spec_parse_avp(data@),
    {
        assert(data@.subrange(0, data@.len() as int) =~= data@);
        parse_avp_at(data, 0)
    }
}

/// Writes the bytes of an AVP.
pub fn push_avp(out: &mut Vec<u8>, avp: &Avp)
    ensures
        final(out)@ == old(out)@ + spec_avp_bytes(avp@),
{
    push_be16(out, avp.reserved);
    push_be16(out, avp.length);
    push_be16(out, avp.attr_type);
    push_all(out, avp.value.as_slice());
    assert(final(out)@ =~= old(out)@ + spec_avp_bytes(avp@));
}

impl vstd::std_specs::convert::FromSpecImpl<&Avp> for Vec<u8> {
    open spec fn obeys_from_spec() -> bool {
        false
    }

    open spec fn from_spec(v: &Avp) -> Self {
        vstd::pervasive::arbitrary()
    }
}

impl From<&Avp> for Vec<u8> {
    fn from(avp: &Avp) -> (r: Vec<u8>)
        ensures
            r@ == spec_avp_bytes(avp@),
    {
        let mut bytes: Vec<u8> = Vec::new();
        push_avp(&mut bytes, avp);
        bytes
    }
}

/// A well-formed AVP is read back from its own bytes, whatever follows them.
pub proof fn lemma_avp_roundtrip(a: AvpView, rest: Seq<u8>)
    requires
        avp_wf(a),
    ensures
        spec_avp_bytes(a).len() == a.length,
        spec_parse_avp(spec_avp_bytes(a) + rest) == Ok::<AvpView, AvpError>(a),
{
    let b = spec_avp_bytes(a) + rest;
    let r = be16_bytes(a.reserved);
    let l = be16_bytes(a.length);
    let t = be16_bytes(a.attr_type);
    assert(b =~= r + (l + (t + (a.value + rest))));
    lemma_be16_roundtrip(a.reserved, l + (t + (a.value + rest)));
    lemma_be16_roundtrip(a.length, t + (a.value + rest));
    lemma_be16_roundtrip(a.attr_type, a.value + rest);
    assert(be16_at(b, 0) == be16_at(r + (l + (t + (a.value + rest))), 0));
    assert(be16_at(b, 2) == be16_at(l + (t + (a.value + rest)), 0));
    assert(be16_at(b, 4) == be16_at(t + (a.value + rest), 0));
    assert(b.subrange(AVP_HEADER_LEN as int, a.length as int) =~= a.value);
}

/// An AVP that was read from `data` is well formed, and is written back as
/// exactly the bytes of `data` that it took.
pub proof fn lemma_avp_canonical(data: Seq<u8>)
    requires
        spec_parse_avp(data) is Ok,
    ensures
        avp_wf(spec_parse_avp(data)->Ok_0),
        spec_avp_bytes(spec_parse_avp(data)->Ok_0) == data.take(
            spec_parse_avp(data)->Ok_0.length as int,
        ),
{
    let a = spec_parse_avp(data)->Ok_0;
    lemma_be16_canonical(data, 0);
    lemma_be16_canonical(data, 2);
    lemma_be16_canonical(data, 4);
    assert(spec_avp_bytes(a) =~= data.take(a.length as int));
}

/// `Avp::new` builds a well-formed AVP with a zero reserved field.
pub proof fn lemma_avp_new_wf(attr_type: u16, value: Seq<u8>)
    requires
        spec_avp_new(attr_type, value) is Ok,
    ensures
        avp_wf(spec_avp_new(attr_type, value)->Ok_0),
        spec_avp_new(attr_type, value)->Ok_0.reserved == 0,
{
}


/// Largest total length that a received message may announce.
pub const MAX_MESSAGE_LEN: u16 = 0xfff;

/// A message: a header and its list of AVPs.
pub struct Message {
    pub header: Header,
    pub avp_list: Vec<Avp>,
}

/// Mathematical model of a [`Message`].
pub struct MessageView {
    pub header: Header,
    pub avps: Seq<AvpView>,
}

/// The models of a sequence of AVPs.
pub open spec fn avps_view(avps: Seq<Avp>) -> Seq<AvpView> {
    avps.map_values(|a: Avp| a@)
}

impl View for Message {
    type V = MessageView;

    open spec fn view(&self) -> MessageView {
        MessageView { header: self.header, avps: avps_view(self.avp_list@) }
    }
}

/// Why a message was refused.
#[derive(Debug)]
pub enum MessageError {
    TooLong,
    TooShort,
    Header(HeaderError),
    Avp(AvpError),
    InvalidValue,
}

impl vstd::std_specs::convert::FromSpecImpl<HeaderError> for MessageError {
    open spec fn obeys_from_spec() -> bool {
        true
    }

    open spec fn from_spec(e: HeaderError) -> Self {
        MessageError::Header(e)
    }
}

impl From<HeaderError> for MessageError {
    fn from(e: HeaderError) -> (r: Self)
        ensures
            r == MessageError::Header(e),
    {
        MessageError::Header(e)
    }
}

impl vstd::std_specs::convert::FromSpecImpl<AvpError> for MessageError {
    open spec fn obeys_from_spec() -> bool {
        true
    }

    open spec fn from_spec(e: AvpError) -> Self {
        MessageError::Avp(e)
    }
}

impl From<AvpError> for MessageError {
    fn from(e: AvpError) -> (r: Self)
        ensures
            r == MessageError::Avp(e),
    {
        MessageError::Avp(e)
    }
}

/// Sum of the length fields of `avps`.
pub open spec fn spec_sum_lengths(avps: Seq<AvpView>) -> int
    decreases avps.len(),
{
    if avps.len() == 0 {
        0
    } else {
        spec_sum_lengths(avps.drop_last()) + avps.last().length
    }
}

/// All of `avps` are well formed.
pub open spec fn avps_wf(avps: Seq<AvpView>) -> bool {
    forall|i: int| 0 <= i < avps.len() ==> #[trigger] avp_wf(avps[i])
}

/// The message that [`Message::new`] builds, or why it cannot.
pub open spec fn spec_message_new(message_id: u16, avps: Seq<AvpView>) -> Result<
    MessageView,
    MessageError,
> {
    if spec_sum_lengths(avps) + HEADER_LEN <= u16::MAX {
        Ok(
            MessageView {
                header: Header {
                    direction: MessageDir::Tx,
                    message_id,
                    vendor_id: VENDOR_ID,
                    length: (spec_sum_lengths(avps) + HEADER_LEN) as u16,
                },
                avps,
            },
        )
    } else {
        Err(MessageError::TooLong)
    }
}

/// The model of a result that holds a [`Message`].
pub open spec fn message_result_view<E>(r: Result<Message, E>) -> Result<MessageView, E> {
    match r {
        Ok(m) => Ok(m@),
        Err(e) => Err(e),
    }
}

impl Message {
    /// Outgoing message with identifier `message_id` carrying `avp_list`; its
    /// header counts the header and the length fields of all AVPs. Refused when
    /// that total does not fit in a `u16`.
    pub fn new(message_id: u16, avp_list: Vec<Avp>) -> (r: Result<Self, MessageError>)
        requires
            spec_sum_lengths(avps_view(avp_list@)) + HEADER_LEN <= u32::MAX,
        ensures
            message_result_view(r) == spec_message_new(message_id, avps_view(avp_list@)),
    {
        let ghost views = avps_view(avp_list@);
        let mut total: u32 = 0;
        let mut i: usize = 0;
        while i < avp_list.len()
            invariant
                i <= avp_list@.len(),
                views == avps_view(avp_list@),
                total == spec_sum_lengths(views.take(i as int)),
                spec_sum_lengths(views) + HEADER_LEN <= u32::MAX,
            decreases avp_list@.len() - i,
        {
            proof {
                lemma_sum_lengths_take_le(views, i as int + 1);
                assert(views.take(i as int + 1).drop_last() =~= views.take(i as int));
            }
            total = total + avp_list[i].length as u32;
            i = i + 1;
        }
        assert(views.take(i as int) =~= views);
        let total = total + HEADER_LEN as u32;
        if total > u16::MAX as u32 {
            return Err(MessageError::TooLong);
        }
        let len: u16 = total as u16;
        let m = Message { header: Header::new(message_id, len), avp_list };
        assert(m@.avps == views);
        Ok(m)
    }
}

/// The sum over a prefix is at most the sum over the whole sequence.
pub proof fn lemma_sum_lengths_take_le(avps: Seq<AvpView>, n: int)
    requires
        0 <= n <= avps.len(),
    ensures
        0 <= spec_sum_lengths(avps.take(n)) <= spec_sum_lengths(avps),
    decreases avps.len(),
{
    if avps.len() == 0 {
    } else if n == avps.len() {
        assert(avps.take(n) =~= avps);
        lemma_sum_lengths_take_le(avps.drop_last(), n - 1);
    } else {
        assert(avps.take(n) =~= avps.drop_last().take(n));
        lemma_sum_lengths_take_le(avps.drop_last(), n);
    }
}

/// The sum over a sequence that starts with `a` is `a`'s length plus the sum over the rest.
pub proof fn lemma_sum_lengths_prepend(a: AvpView, avps: Seq<AvpView>)
    ensures
        spec_sum_lengths(seq![a] + avps) == a.length + spec_sum_lengths(avps),
    decreases avps.len(),
{
    let s = seq![a] + avps;
    if avps.len() == 0 {
        assert(s.drop_last() =~= Seq::<AvpView>::empty());
        assert(s.last() == a);
        assert(spec_sum_lengths(s.drop_last()) == 0);
        assert(spec_sum_lengths(s) == spec_sum_lengths(s.drop_last()) + s.last().length);
    } else {
        assert(s.drop_last() =~= seq![a] + avps.drop_last());
        assert(s.last() == avps.last());
        lemma_sum_lengths_prepend(a, avps.drop_last());
        assert(spec_sum_lengths(s) == spec_sum_lengths(s.drop_last()) + s.last().length);
    }
}

/// The sum of the lengths of at most `n` AVPs is at most `n * 65535`.
pub proof fn lemma_sum_lengths_bound(avps: Seq<AvpView>)
    ensures
        0 <= spec_sum_lengths(avps) <= avps.len() * 65535,
    decreases avps.len(),
{
    if avps.len() > 0 {
        lemma_sum_lengths_bound(avps.drop_last());
    }
}

/// The bytes that encode a sequence of AVPs, one after the other.
pub open spec fn spec_avps_bytes(avps: Seq<AvpView>) -> Seq<u8>
    decreases avps.len(),
{
    if avps.len() == 0 {
        Seq::empty()
    } else {
        spec_avps_bytes(avps.drop_last()) + spec_avp_bytes(avps.last())
    }
}

/// The bytes that encode a message: its header, then its AVPs.
pub open spec fn spec_message_bytes(m: MessageView) -> Seq<u8> {
    spec_header_bytes(m.header) + spec_avps_bytes(m.avps)
}

/// The AVPs found in `data` from `offset` on, one after the other, up to the
/// first one that starts at or after `end`; or why one of them was refused.
pub open spec fn spec_parse_avps(data: Seq<u8>, offset: int, end: int) -> Result<
    Seq<AvpView>,
    AvpError,
>
    decreases data.len() - offset,
{
    if offset >= end || offset < 0 || offset > data.len() {
        Ok(Seq::empty())
    } else {
        match spec_parse_avp(data.subrange(offset, data.len() as int)) {
            Err(e) => Err(e),
            Ok(a) => {
                proof {
                    lemma_parse_avp_length(data.subrange(offset, data.len() as int));
                }
                match spec_parse_avps(data, offset + a.length, end) {
                Err(e) => Err(e),
                    Ok(rest) => Ok(seq![a] + rest),
                }
            },
        }
    }
}

/// An AVP that was read from `data` covers at least its fixed part and at most `data`.
pub proof fn lemma_parse_avp_length(data: Seq<u8>)
    ensures
        spec_parse_avp(data) matches Ok(a) ==> AVP_HEADER_LEN <= a.length <= data.len(),
{
}

/// The message that `data` holds, or why there is none.
pub open spec fn spec_parse_message(data: Seq<u8>) -> Result<MessageView, MessageError> {
    match spec_parse_header(data) {
        Err(e) => Err(MessageError::Header(e)),
        Ok(h) => if h.length > MAX_MESSAGE_LEN {
            Err(MessageError::TooLong)
        } else {
            match spec_parse_avps(data, HEADER_LEN as int, h.length as int) {
                Err(e) => Err(MessageError::Avp(e)),
                Ok(avps) => if avps.len() > 0 {
                    Ok(MessageView { header: h, avps })
                } else {
                    Err(MessageError::TooShort)
                },
            }
        }
    }
}


impl vstd::std_specs::convert::TryFromSpecImpl<&[u8]> for Message {
    open spec fn obeys_try_from_spec() -> bool {
        false
    }

    open spec fn try_from_spec(v: &[u8]) -> Result<Self, Self::Error> {
        vstd::pervasive::arbitrary()
    }
}

impl TryFrom<&[u8]> for Message {
    type Error = MessageError;

    fn try_from(data: &[u8]) -> (r: Result<Self, Self::Error>)
        ensures
            message_result_view(r) == spec_parse_message(data@),
            r matches Ok(m) ==> HEADER_LEN + AVP_HEADER_LEN * m.avp_list@.len() <= data@.len(),
    {
        let header = match Header::try_from(data) {
            Ok(h) => h,
            Err(e) => return Err(MessageError::Header(e)),
        };
        let mut avp_list: Vec<Avp> = Vec::new();
        let mut offset: usize = HEADER_LEN as usize;
        if header.length > MAX_MESSAGE_LEN {
            return Err(MessageError::TooLong);
        }
        let end = header.length as usize;
        let ghost all = spec_parse_avps(data@, HEADER_LEN as int, end as int);
        while offset < end
            invariant
                HEADER_LEN <= offset <= data.len(),
                spec_parse_header(data@) == Ok::<Header, HeaderError>(header),
                header.length <= MAX_MESSAGE_LEN,
                end == header.length,
                all == spec_parse_avps(data@, HEADER_LEN as int, end as int),
                all == match spec_parse_avps(data@, offset as int, end as int) {
                    Ok(rest) => Ok(avps_view(avp_list@) + rest),
                    Err(e) => Err(e),
                },
            decreases data@.len() - offset,
        {
            let avp = match parse_avp_at(data, offset) {
                Ok(a) => a,
                Err(e) => return Err(MessageError::Avp(e)),
            };
            let ghost old_list = avps_view(avp_list@);
            let ghost old_offset = offset as int;
            offset = offset + avp.length as usize;
            avp_list.push(avp);
            proof {
                assert(avps_view(avp_list@) =~= old_list.push(avp@));
                match spec_parse_avps(data@, offset as int, end as int) {
                    Ok(rest) => {
                        assert(old_list + (seq![avp@] + rest) =~= avps_view(avp_list@) + rest);
                    },
                    Err(e) => {},
                }
            }
        }
        assert(avps_view(avp_list@) + Seq::<AvpView>::empty() =~= avps_view(avp_list@));
        if avp_list.len() > 0 {
            let m = Message { header, avp_list };
            proof {
                lemma_parse_message_bounds(data@);
            }
            Ok(m)
        } else {
            Err(MessageError::TooShort)
        }
    }
}

impl vstd::std_specs::convert::FromSpecImpl<Message> for Vec<u8> {
    open spec fn obeys_from_spec() -> bool {
        false
    }

    open spec fn from_spec(v: Message) -> Self {
        vstd::pervasive::arbitrary()
    }
}

impl From<Message> for Vec<u8> {
    fn from(message: Message) -> (r: Vec<u8>)
        ensures
            r@ == spec_message_bytes(message@),
    {
        let mut bytes: Vec<u8> = Vec::new();
        push_header(&mut bytes, &message.header);
        let ghost views = avps_view(message.avp_list@);
        let mut i: usize = 0;
        while i < message.avp_list.len()
            invariant
                i <= message.avp_list@.len(),
                views == avps_view(message.avp_list@),
                bytes@ == spec_header_bytes(message.header) + spec_avps_bytes(views.take(i as int)),
            decreases message.avp_list@.len() - i,
        {
            push_avp(&mut bytes, &message.avp_list[i]);
            proof {
                assert(views.take(i as int + 1).drop_last() =~= views.take(i as int));
                assert(views.take(i as int + 1).last() == message.avp_list@[i as int]@);
            }
            i = i + 1;
            assert(bytes@ =~= spec_header_bytes(message.header) + spec_avps_bytes(
                views.take(i as int),
            ));
        }
        assert(views.take(i as int) =~= views);
        bytes
    }
}


/// The bytes of a sequence that starts with `a` are `a`'s bytes followed by the bytes of the rest.
pub proof fn lemma_avps_bytes_prepend(a: AvpView, avps: Seq<AvpView>)
    ensures
        spec_avps_bytes(seq![a] + avps) == spec_avp_bytes(a) + spec_avps_bytes(avps),
    decreases avps.len(),
{
    let s = seq![a] + avps;
    if avps.len() == 0 {
        assert(s.drop_last() =~= Seq::<AvpView>::empty());
        assert(s.last() == a);
        assert(spec_avps_bytes(s.drop_last()) =~= Seq::<u8>::empty());
        assert(spec_avps_bytes(avps) =~= Seq::<u8>::empty());
        assert(spec_avps_bytes(s) =~= spec_avp_bytes(a) + spec_avps_bytes(avps));
    } else {
        assert(s.drop_last() =~= seq![a] + avps.drop_last());
        assert(s.last() == avps.last());
        lemma_avps_bytes_prepend(a, avps.drop_last());
        assert(spec_avps_bytes(s) =~= spec_avp_bytes(a) + spec_avps_bytes(avps));
    }
}

/// Well-formed AVPs take as many bytes as their length fields add up to.
pub proof fn lemma_avps_bytes_len(avps: Seq<AvpView>)
    requires
        avps_wf(avps),
    ensures
        spec_avps_bytes(avps).len() == spec_sum_lengths(avps),
    decreases avps.len(),
{
    if avps.len() > 0 {
        assert(avp_wf(avps[avps.len() - 1]));
        assert(avps_wf(avps.drop_last())) by {
            assert forall|i: int| 0 <= i < avps.drop_last().len() implies #[trigger] avp_wf(
                avps.drop_last()[i],
            ) by {
                assert(avp_wf(avps[i]));
            }
        }
        lemma_avps_bytes_len(avps.drop_last());
    }
}

/// Well-formed AVPs written one after the other are read back, whatever
/// precedes and follows them, when the reading stops where they end.
pub proof fn lemma_parse_avps_roundtrip(prefix: Seq<u8>, avps: Seq<AvpView>, rest: Seq<u8>)
    requires
        avps_wf(avps),
    ensures
        spec_parse_avps(
            prefix + spec_avps_bytes(avps) + rest,
            prefix.len() as int,
            prefix.len() + spec_sum_lengths(avps),
        ) == Ok::<Seq<AvpView>, AvpError>(avps),
    decreases avps.len(),
{
    let data = prefix + spec_avps_bytes(avps) + rest;
    let off = prefix.len() as int;
    if avps.len() == 0 {
        assert(spec_sum_lengths(avps) == 0);
        assert(avps =~= Seq::<AvpView>::empty());
    } else {
        let a = avps[0];
        let tail = avps.drop_first();
        assert(avps =~= seq![a] + tail);
        assert(avp_wf(a));
        assert(avps_wf(tail)) by {
            assert forall|i: int| 0 <= i < tail.len() implies #[trigger] avp_wf(tail[i]) by {
                assert(avp_wf(avps[i + 1]));
            }
        }
        lemma_avps_bytes_prepend(a, tail);
        lemma_sum_lengths_prepend(a, tail);
        lemma_sum_lengths_bound(tail);
        lemma_avp_roundtrip(a, spec_avps_bytes(tail) + rest);
        assert(data.subrange(off, data.len() as int) =~= spec_avp_bytes(a) + (spec_avps_bytes(tail)
            + rest));
        let prefix2 = prefix + spec_avp_bytes(a);
        assert(data =~= prefix2 + spec_avps_bytes(tail) + rest);
        lemma_parse_avps_roundtrip(prefix2, tail, rest);
        assert(seq![a] + tail == avps);
    }
}

/// AVPs read from `data` are well formed and are written back as exactly the
/// bytes of `data` that they took.
pub proof fn lemma_parse_avps_canonical(data: Seq<u8>, offset: int, end: int)
    requires
        0 <= offset <= data.len(),
        spec_parse_avps(data, offset, end) is Ok,
    ensures
        ({
            let avps = spec_parse_avps(data, offset, end)->Ok_0;
            &&& avps_wf(avps)
            &&& offset + spec_sum_lengths(avps) <= data.len()
            &&& spec_avps_bytes(avps) == data.subrange(offset, offset + spec_sum_lengths(avps))
        }),
    decreases data.len() - offset,
{
    let avps = spec_parse_avps(data, offset, end)->Ok_0;
    if offset >= end {
        assert(avps =~= Seq::<AvpView>::empty());
        assert(data.subrange(offset, offset) =~= Seq::<u8>::empty());
    } else {
        let d = data.subrange(offset, data.len() as int);
        let a = spec_parse_avp(d)->Ok_0;
        lemma_parse_avp_length(d);
        lemma_avp_canonical(d);
        let next = offset + a.length;
        lemma_parse_avps_canonical(data, next, end);
        let tail = spec_parse_avps(data, next, end)->Ok_0;
        assert(spec_parse_avp(d) == Ok::<AvpView, AvpError>(a));
        assert(spec_parse_avps(data, next, end) == Ok::<Seq<AvpView>, AvpError>(tail));
        assert(avps == seq![a] + tail);
        assert(next + spec_sum_lengths(tail) <= data.len());
        lemma_avps_bytes_prepend(a, tail);
        lemma_sum_lengths_prepend(a, tail);
        assert(spec_sum_lengths(avps) == a.length + spec_sum_lengths(tail));
        lemma_sum_lengths_bound(tail);
        assert(avps_wf(avps)) by {
            assert forall|i: int| 0 <= i < avps.len() implies #[trigger] avp_wf(avps[i]) by {
                if i > 0 {
                    assert(avps[i] == tail[i - 1]);
                }
            }
        }
        assert(spec_avp_bytes(a) == data.subrange(offset, next));
        assert(spec_avps_bytes(tail) == data.subrange(next, next + spec_sum_lengths(tail)));
        assert(data.subrange(offset, next) + data.subrange(next, next + spec_sum_lengths(tail))
            =~= data.subrange(offset, offset + spec_sum_lengths(avps)));
        assert(spec_avps_bytes(avps) =~= data.subrange(offset, offset + spec_sum_lengths(avps)));
    }
}

/// Well-formed AVPs take at least their six fixed bytes each.
pub proof fn lemma_sum_lengths_min(avps: Seq<AvpView>)
    requires
        avps_wf(avps),
    ensures
        AVP_HEADER_LEN * avps.len() <= spec_sum_lengths(avps),
    decreases avps.len(),
{
    if avps.len() > 0 {
        assert(avp_wf(avps[avps.len() - 1]));
        assert(avps_wf(avps.drop_last())) by {
            assert forall|i: int| 0 <= i < avps.drop_last().len() implies #[trigger] avp_wf(
                avps.drop_last()[i],
            ) by {
                assert(avps.drop_last()[i] == avps[i]);
            }
        }
        lemma_sum_lengths_min(avps.drop_last());
    }
}

/// When AVPs are read from `offset` up to `end` and there is at least one,
/// the last of them starts before `end`.
pub proof fn lemma_parse_avps_last_start(data: Seq<u8>, offset: int, end: int)
    requires
        0 <= offset <= data.len(),
        spec_parse_avps(data, offset, end) matches Ok(avps) && avps.len() > 0,
    ensures
        offset + spec_sum_lengths(spec_parse_avps(data, offset, end)->Ok_0.drop_last()) < end,
    decreases data.len() - offset,
{
    let avps = spec_parse_avps(data, offset, end)->Ok_0;
    let d = data.subrange(offset, data.len() as int);
    let a = spec_parse_avp(d)->Ok_0;
    lemma_parse_avp_length(d);
    let next = offset + a.length;
    let tail = spec_parse_avps(data, next, end)->Ok_0;
    assert(spec_parse_avp(d) == Ok::<AvpView, AvpError>(a));
    assert(spec_parse_avps(data, next, end) == Ok::<Seq<AvpView>, AvpError>(tail));
    assert(avps == seq![a] + tail);
    if tail.len() == 0 {
        assert(avps.drop_last() =~= Seq::<AvpView>::empty());
    } else {
        lemma_parse_avps_last_start(data, next, end);
        assert(avps.drop_last() =~= seq![a] + tail.drop_last());
        lemma_sum_lengths_prepend(a, tail.drop_last());
    }
}

/// What the message reader's loop reads is bounded by the bytes it is
/// given: a message read from `data` has well-formed AVPs, at least six
/// bytes each, that together take no more than the bytes after the header,
/// so there are at most `(data.len() - 10) / 6` of them; and the last of
/// them starts before the length the header announces.
pub proof fn lemma_parse_message_bounds(data: Seq<u8>)
    requires
        spec_parse_message(data) is Ok,
    ensures
        ({
            let m = spec_parse_message(data)->Ok_0;
            &&& avps_wf(m.avps)
            &&& AVP_HEADER_LEN * m.avps.len() <= spec_sum_lengths(m.avps)
            &&& HEADER_LEN + spec_sum_lengths(m.avps) <= data.len()
            &&& HEADER_LEN + spec_sum_lengths(m.avps.drop_last()) < m.header.length
        }),
{
    let h = spec_parse_header(data)->Ok_0;
    let m = spec_parse_message(data)->Ok_0;
    assert(m.avps == spec_parse_avps(data, HEADER_LEN as int, h.length as int)->Ok_0);
    lemma_parse_avps_canonical(data, HEADER_LEN as int, h.length as int);
    lemma_sum_lengths_min(m.avps);
    lemma_parse_avps_last_start(data, HEADER_LEN as int, h.length as int);
}

/// A message is consistent when its AVPs are well formed and its header
/// length counts the header and all AVPs.
pub open spec fn message_wf(m: MessageView) -> bool {
    &&& avps_wf(m.avps)
    &&& m.header.length == HEADER_LEN + spec_sum_lengths(m.avps)
}

/// A consistent message with the CAEN vendor identifier, at least one AVP and
/// a length the reader side accepts is read back from its own bytes, whatever follows them.
pub proof fn lemma_message_roundtrip(m: MessageView, rest: Seq<u8>)
    requires
        message_wf(m),
        m.header.vendor_id == VENDOR_ID,
        m.header.length <= MAX_MESSAGE_LEN,
        m.avps.len() > 0,
    ensures
        spec_message_bytes(m).len() == m.header.length,
        spec_parse_message(spec_message_bytes(m) + rest) == Ok::<MessageView, MessageError>(m),
{
    let hb = spec_header_bytes(m.header);
    let data = spec_message_bytes(m) + rest;
    lemma_header_roundtrip(m.header, spec_avps_bytes(m.avps) + rest);
    assert(data =~= hb + (spec_avps_bytes(m.avps) + rest));
    lemma_avps_bytes_len(m.avps);
    lemma_parse_avps_roundtrip(hb, m.avps, rest);
    assert(hb + spec_avps_bytes(m.avps) + rest =~= data);
}

/// A message read from `data` is written back as exactly the bytes of `data`
/// that its header and AVPs took.
pub proof fn lemma_message_canonical(data: Seq<u8>)
    requires
        spec_parse_message(data) is Ok,
    ensures
        ({
            let m = spec_parse_message(data)->Ok_0;
            &&& avps_wf(m.avps)
            &&& spec_message_bytes(m) == data.take(
                HEADER_LEN + spec_sum_lengths(m.avps),
            )
        }),
{
    let m = spec_parse_message(data)->Ok_0;
    assert(spec_parse_header(data) == Ok::<Header, HeaderError>(m.header));
    assert(spec_parse_avps(data, HEADER_LEN as int, m.header.length as int) == Ok::<
        Seq<AvpView>,
        AvpError,
    >(m.avps));
    lemma_header_canonical(data);
    lemma_parse_avps_canonical(data, HEADER_LEN as int, m.header.length as int);
    let n = spec_sum_lengths(m.avps);
    lemma_sum_lengths_bound(m.avps);
    assert(spec_avps_bytes(m.avps) == data.subrange(HEADER_LEN as int, HEADER_LEN + n));
    assert(data.take(HEADER_LEN as int) + data.subrange(HEADER_LEN as int, HEADER_LEN + n)
        =~= data.take(HEADER_LEN + n));
    assert(spec_message_bytes(m) =~= data.take(HEADER_LEN + spec_sum_lengths(m.avps)));
}

/// A message that [`Message::new`] builds from well-formed AVPs is read back
/// from its bytes when it has at least one AVP and its length is within
/// [`MAX_MESSAGE_LEN`].
pub proof fn lemma_message_new_roundtrip(message_id: u16, avps: Seq<AvpView>)
    requires
        avps_wf(avps),
        avps.len() > 0,
        spec_sum_lengths(avps) + HEADER_LEN <= MAX_MESSAGE_LEN,
    ensures
        spec_message_new(message_id, avps) is Ok,
        spec_message_bytes(spec_message_new(message_id, avps)->Ok_0).len() == spec_sum_lengths(
            avps,
        ) + HEADER_LEN,
        spec_parse_message(spec_message_bytes(spec_message_new(message_id, avps)->Ok_0))
            == spec_message_new(message_id, avps),
{
    lemma_sum_lengths_bound(avps);
    let m = spec_message_new(message_id, avps)->Ok_0;
    lemma_message_roundtrip(m, Seq::empty());
    assert(spec_message_bytes(m) + Seq::<u8>::empty() =~= spec_message_bytes(m));
}


/// Reading back the wire code of a direction gives that direction; any other
/// code is refused as a wrong direction.
pub proof fn lemma_message_dir_roundtrip(d: MessageDir, value: u16)
    ensures
        spec_message_dir(d.spec_code()) == Ok::<MessageDir, HeaderError>(d),
        spec_message_dir(value) matches Ok(e) ==> e.spec_code() == value,
        spec_message_dir(value) is Err ==> spec_message_dir(value) == Err::<MessageDir, HeaderError>(
            HeaderError::WrongDirection,
        ),
{
}

/// An AVP that [`Avp::new`] builds is read back from its bytes, whatever follows them.
pub proof fn lemma_avp_new_roundtrip(attr_type: u16, value: Seq<u8>, rest: Seq<u8>)
    requires
        spec_avp_new(attr_type, value) is Ok,
    ensures
        spec_parse_avp(spec_avp_bytes(spec_avp_new(attr_type, value)->Ok_0) + rest) == spec_avp_new(
            attr_type,
            value,
        ),
{
    lemma_avp_roundtrip(spec_avp_new(attr_type, value)->Ok_0, rest);
}

/// Reads the big-endian `u16` at `data[i]`.
pub fn read_be16(data: &[u8], i: usize) -> (r: u16)
    requires
        i + 2 <= data@.len(),
    ensures
        r == be16_at(data@, i as int),
{
    (data[i] as u16) * 256 + (data[i + 1] as u16)
}

/// Reads the big-endian `u32` at `data[i]`.
pub fn read_be32(data: &[u8], i: usize) -> (r: u32)
    requires
        i + 4 <= data@.len(),
    ensures
        r == be32_at(data@, i as int),
{
    (data[i] as u32) * 16777216 + (data[i + 1] as u32) * 65536 + (data[i + 2] as u32) * 256 + (
    data[i + 3] as u32)
}

/// Appends the big-endian bytes of `v` to `out`.
pub fn push_be16(out: &mut Vec<u8>, v: u16)
    ensures
        final(out)@ == old(out)@ + be16_bytes(v),
{
    out.push((v / 256) as u8);
    out.push((v % 256) as u8);
    assert(final(out)@ =~= old(out)@ + be16_bytes(v));
}

/// Appends the big-endian bytes of `v` to `out`.
pub fn push_be32(out: &mut Vec<u8>, v: u32)
    ensures
        final(out)@ == old(out)@ + be32_bytes(v),
{
    out.push((v / 16777216) as u8);
    out.push(((v / 65536) % 256) as u8);
    out.push(((v / 256) % 256) as u8);
    out.push((v % 256) as u8);
    assert(final(out)@ =~= old(out)@ + be32_bytes(v));
}

/// Appends all of `src` to `out`.
pub fn push_all(out: &mut Vec<u8>, src: &[u8])
    ensures
        final(out)@ == old(out)@ + src@,
{
    let ghost start = out@;
    let mut i: usize = 0;
    while i < src.len()
        invariant
            i <= src@.len(),
            out@ == start + src@.take(i as int),
        decreases src@.len() - i,
    {
        out.push(src[i]);
        i = i + 1;
        assert(out@ =~= start + src@.take(i as int));
    }
    assert(src@.take(i as int) =~= src@);
}

} // verus!
