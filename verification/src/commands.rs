//! Command client for an easy2read reader: each command is sent as one
//! request message and answered by one reply message.

use vstd::prelude::*;
use vstd::string::StringSliceAdditionalSpecFns;
use vstd::utf8::{decode_utf8, valid_utf8};

use crate::constants::{
    lemma_config_parameter_wire_codes,    spec_protocol, spec_read_point_status, spec_rf_regulation, ConfigParameter, ConversionError,
    FlowCtrl, MemoryBank, Parity, Protocol, RFRegulation, ReadPointStatus, ResultCode,
    AVP_BAUD_RATE, AVP_BOOLEAN, AVP_COMMAND_NAME, AVP_CONFIG_PARAMETER, AVP_CONFIG_VALUE,
    AVP_DATA_BITS, AVP_FLOW_CTRL, AVP_FW_RELEASE, AVP_G2_PASSWORD, AVP_IO_REGISTER, AVP_LENGTH,
    AVP_MEMORY_BANK, AVP_PARITY, AVP_POWER_GET, AVP_POWER_SET, AVP_PROTOCOL,
    AVP_READER_INFO, AVP_READ_POINT_NAME, AVP_READ_POINT_STATUS, AVP_RESULT_CODE, AVP_RF_CHANNEL,
    AVP_RF_ON_OFF, AVP_RF_REGULATION, AVP_SOURCE_NAME, AVP_STOP_BITS, AVP_TAG_ADDRESS,
    AVP_TAG_ID, AVP_TAG_VALUE, CMD_ADD_READ_POINT_TO_SOURCE, CMD_CHECK_READ_POINT_STATUS,
    CMD_GET_FIRMWARE_RELEASE, CMD_GET_IO, CMD_GET_IO_DIRECTION, CMD_GET_LBT_MODE, CMD_GET_POWER,
    CMD_GET_PROTOCOL, CMD_GET_READER_INFO, CMD_GET_RF_CHANNEL, CMD_GET_RF_REGULATION,
    CMD_GET_SOURCE_CONFIG, CMD_READ_TAG_DATA_EPC_C1G2, CMD_REMOVE_READ_POINT_FROM_SOURCE,
    CMD_RF_ON_OFF, CMD_SET_IO, CMD_SET_IO_DIRECTION, CMD_SET_LBT_MODE, CMD_SET_POWER,
    CMD_SET_PROTOCOL, CMD_SET_RF_CHANNEL, CMD_SET_RS232, CMD_SET_SOURCE_CONFIG,
    CMD_WRITE_TAG_DATA_EPC_C1G2,
};
use crate::protocol::{
    avp_wf, avps_view, avps_wf, be16_at, be16_bytes, be32_at, be32_bytes, lemma_be16_roundtrip, lemma_be32_roundtrip, lemma_header_roundtrip,
    lemma_message_new_roundtrip, lemma_message_roundtrip, lemma_sum_lengths_bound,
    message_result_view, message_wf, push_all, push_be16, push_be32, spec_avp_new, spec_avps_bytes,
    spec_avp_bytes, spec_header_bytes, spec_message_bytes, spec_message_new, spec_parse_header, spec_parse_message, spec_sum_lengths,
    Avp, AvpError, AvpView, Header, HeaderError, Message, MessageDir, MessageError, MessageView,
    AVP_HEADER_LEN, HEADER_LEN, MAX_MESSAGE_LEN, VENDOR_ID,
};
use crate::transport::{Transport, TransportError, TransportEvent};

verus! {

/// Why a command failed.
#[derive(Debug)]
pub enum CommandError {
    /// The request could not be built, or the reply could not be read.
    Message(MessageError),
    /// The transport failed to move the bytes.
    Transport(TransportError),
    /// The reader answered with this non-success result code.
    ReaderError(u16),
    /// The reply carried a value that names no known variant.
    UnknownValue(u32),
}

impl vstd::std_specs::convert::FromSpecImpl<MessageError> for CommandError {
    open spec fn obeys_from_spec() -> bool {
        true
    }

    open spec fn from_spec(e: MessageError) -> Self {
        CommandError::Message(e)
    }
}

impl From<MessageError> for CommandError {
    fn from(e: MessageError) -> (r: Self)
        ensures
            r == CommandError::Message(e),
    {
        CommandError::Message(e)
    }
}

impl vstd::std_specs::convert::FromSpecImpl<TransportError> for CommandError {
    open spec fn obeys_from_spec() -> bool {
        true
    }

    open spec fn from_spec(e: TransportError) -> Self {
        CommandError::Transport(e)
    }
}

impl From<TransportError> for CommandError {
    fn from(e: TransportError) -> (r: Self)
        ensures
            r == CommandError::Transport(e),
    {
        CommandError::Transport(e)
    }
}

impl vstd::std_specs::convert::FromSpecImpl<HeaderError> for CommandError {
    open spec fn obeys_from_spec() -> bool {
        true
    }

    open spec fn from_spec(e: HeaderError) -> Self {
        CommandError::Message(MessageError::Header(e))
    }
}

impl From<HeaderError> for CommandError {
    fn from(e: HeaderError) -> (r: Self)
        ensures
            r == CommandError::Message(MessageError::Header(e)),
    {
        CommandError::Message(MessageError::Header(e))
    }
}

impl vstd::std_specs::convert::FromSpecImpl<AvpError> for CommandError {
    open spec fn obeys_from_spec() -> bool {
        true
    }

    open spec fn from_spec(e: AvpError) -> Self {
        CommandError::Message(MessageError::Avp(e))
    }
}

impl From<AvpError> for CommandError {
    fn from(e: AvpError) -> (r: Self)
        ensures
            r == CommandError::Message(MessageError::Avp(e)),
    {
        CommandError::Message(MessageError::Avp(e))
    }
}

/// The command error for a value that names no variant.
pub open spec fn spec_conversion_error(e: ConversionError) -> CommandError {
    match e {
        ConversionError::UnknownValue(v) => CommandError::UnknownValue(v),
    }
}

impl vstd::std_specs::convert::FromSpecImpl<ConversionError> for CommandError {
    open spec fn obeys_from_spec() -> bool {
        true
    }

    open spec fn from_spec(e: ConversionError) -> Self {
        spec_conversion_error(e)
    }
}

impl From<ConversionError> for CommandError {
    fn from(e: ConversionError) -> (r: Self)
        ensures
            r == spec_conversion_error(e),
    {
        match e {
            ConversionError::UnknownValue(v) => CommandError::UnknownValue(v),
        }
    }
}

// ------------------------------------------------------------------
// Requests
// ------------------------------------------------------------------

/// The (attribute type, value) pairs from which a request's AVPs are built, by their models.
pub open spec fn items_view(items: Seq<(u16, Vec<u8>)>) -> Seq<(u16, Seq<u8>)> {
    items.map_values(|p: (u16, Vec<u8>)| (p.0, p.1@))
}

/// Every value is short enough for its AVP's length field.
pub open spec fn items_fit(items: Seq<(u16, Seq<u8>)>) -> bool {
    forall|i: int| 0 <= i < items.len() ==> #[trigger] items[i].1.len() + AVP_HEADER_LEN <= u16::MAX
}

/// The AVPs built from (attribute type, value) pairs.
pub open spec fn items_avps(items: Seq<(u16, Seq<u8>)>) -> Seq<AvpView> {
    Seq::new(items.len(), |i: int| spec_avp_new(items[i].0, items[i].1)->Ok_0)
}

/// The bytes of the request message with identifier `message_id` whose AVPs
/// are built from `items` in order; or why it cannot be built.
pub open spec fn spec_request(message_id: u16, items: Seq<(u16, Seq<u8>)>) -> Result<
    Seq<u8>,
    CommandError,
> {
    if !items_fit(items) {
        Err(CommandError::Message(MessageError::Avp(AvpError::TooLong)))
    } else {
        match spec_message_new(message_id, items_avps(items)) {
            Err(e) => Err(CommandError::Message(e)),
            Ok(m) => Ok(spec_message_bytes(m)),
        }
    }
}

/// Builds one AVP per (attribute type, value) pair, in order.
fn build_avps(items: Vec<(u16, Vec<u8>)>) -> (r: Result<Vec<Avp>, CommandError>)
    ensures
        r matches Ok(v) ==> items_fit(items_view(items@)) && avps_view(v@) == items_avps(
            items_view(items@),
        ),
        r matches Err(e) ==> !items_fit(items_view(items@)) && e == CommandError::Message(
            MessageError::Avp(AvpError::TooLong),
        ),
{
    let ghost orig = items@;
    let ghost all = items_view(items@);
    let n = items.len();
    let mut rest = items;
    let mut avps: Vec<Avp> = Vec::new();
    let mut i: usize = 0;
    while i < n
        invariant
            n == orig.len(),
            orig == items@,
            all == items_view(orig),
            i <= n,
            rest@ == orig.skip(i as int),
            avps@.len() == i,
            forall|j: int| 0 <= j < i ==> #[trigger] all[j].1.len() + AVP_HEADER_LEN <= u16::MAX,
            forall|j: int| 0 <= j < i ==> #[trigger] avps@[j]@ == spec_avp_new(all[j].0, all[j].1)->Ok_0,
        decreases n - i,
    {
        assert(rest@[0] == orig[i as int]);
        let (attr_type, value) = rest.remove(0);
        assert(rest@ =~= orig.skip(i as int + 1));
        assert(all[i as int] == (attr_type, value@));
        match Avp::new(attr_type, value) {
            Ok(a) => {
                avps.push(a);
            },
            Err(e) => {
                assert(!(all[i as int].1.len() + AVP_HEADER_LEN <= u16::MAX));
                assert(!items_fit(all));
                return Err(CommandError::Message(MessageError::Avp(AvpError::TooLong)));
            },
        }
        i = i + 1;
    }
    assert(avps_view(avps@) =~= items_avps(all));
    Ok(avps)
}

/// `s` followed by a zero byte, as the protocol wants its strings.
pub open spec fn spec_null_terminated(s: &str) -> Seq<u8> {
    s.spec_bytes().push(0)
}

/// Big-endian bytes of `v` in a vector.
pub fn be16_vec(v: u16) -> (r: Vec<u8>)
    ensures
        r@ == be16_bytes(v),
{
    let mut out: Vec<u8> = Vec::new();
    push_be16(&mut out, v);
    assert(out@ =~= be16_bytes(v));
    out
}

/// Big-endian bytes of `v` in a vector.
pub fn be32_vec(v: u32) -> (r: Vec<u8>)
    ensures
        r@ == be32_bytes(v),
{
    let mut out: Vec<u8> = Vec::new();
    push_be32(&mut out, v);
    assert(out@ =~= be32_bytes(v));
    out
}

// ------------------------------------------------------------------
// Replies
// ------------------------------------------------------------------

/// The first AVP of type `attr_type` in `avps`, if there is one.
pub open spec fn spec_find_avp(avps: Seq<AvpView>, attr_type: u16) -> Option<AvpView>
    decreases avps.len(),
{
    if avps.len() == 0 {
        None
    } else if avps[0].attr_type == attr_type {
        Some(avps[0])
    } else {
        spec_find_avp(avps.drop_first(), attr_type)
    }
}

/// The `u16` at the start of the value of the first AVP of type `attr_type`.
pub open spec fn spec_u16_value(m: MessageView, attr_type: u16) -> Result<u16, CommandError> {
    match spec_find_avp(m.avps, attr_type) {
        None => Err(CommandError::Message(MessageError::TooShort)),
        Some(a) => if a.value.len() < 2 {
            Err(CommandError::Message(MessageError::InvalidValue))
        } else {
            Ok(be16_at(a.value, 0))
        },
    }
}

/// The `u32` at the start of the value of the first AVP of type `attr_type`.
pub open spec fn spec_u32_value(m: MessageView, attr_type: u16) -> Result<u32, CommandError> {
    match spec_find_avp(m.avps, attr_type) {
        None => Err(CommandError::Message(MessageError::TooShort)),
        Some(a) => if a.value.len() < 4 {
            Err(CommandError::Message(MessageError::InvalidValue))
        } else {
            Ok(be32_at(a.value, 0))
        },
    }
}

/// The reader's verdict in a reply: success, or the result code it reported.
pub open spec fn spec_check_result(m: MessageView) -> Result<(), CommandError> {
    match spec_u16_value(m, AVP_RESULT_CODE) {
        Err(e) => Err(e),
        Ok(c) => if c == ResultCode::Success.spec_code() {
            Ok(())
        } else {
            Err(CommandError::ReaderError(c))
        },
    }
}

/// The message that a frame read from the transport holds, or why there is none.
pub open spec fn spec_receive(frame: Seq<u8>) -> Result<MessageView, CommandError> {
    match spec_parse_header(frame) {
        Err(e) => Err(CommandError::Message(MessageError::Header(e))),
        Ok(h) => if h.length < HEADER_LEN {
            Err(CommandError::Message(MessageError::TooShort))
        } else {
            match spec_parse_message(frame) {
                Err(e) => Err(CommandError::Message(e)),
                Ok(m) => Ok(m),
            }
        },
    }
}

/// The reply that a frame holds when the reader reported success; otherwise why not.
pub open spec fn spec_reply(frame: Seq<u8>) -> Result<MessageView, CommandError> {
    match spec_receive(frame) {
        Err(e) => Err(e),
        Ok(m) => match spec_check_result(m) {
            Err(e) => Err(e),
            Ok(_) => Ok(m),
        },
    }
}

/// Decodes a successful reply with `decode`; passes an error on.
pub open spec fn spec_then<T>(
    reply: Result<MessageView, CommandError>,
    decode: spec_fn(MessageView) -> Result<T, CommandError>,
) -> Result<T, CommandError> {
    match reply {
        Err(e) => Err(e),
        Ok(m) => decode(m),
    }
}

/// The number of bytes that the ten header bytes `head` announce after
/// themselves: present when the header can be read and its length covers at
/// least the header itself.
pub open spec fn spec_payload_len(head: Seq<u8>) -> Option<nat> {
    match spec_parse_header(head) {
        Ok(h) => if h.length >= HEADER_LEN {
            Some((h.length - HEADER_LEN) as nat)
        } else {
            None
        },
        Err(_) => None,
    }
}

/// What reading one reply did to the transport (`ev`, the events it added)
/// and what it returned (`r`). It asked `read_exact` for the ten header
/// bytes; a failure there is passed on as it came. Otherwise, when the
/// header announces no payload length, nothing more was read and `r` is
/// `outcome` of the header bytes; when it announces one, it asked
/// `read_exact` for exactly that many bytes, and `r` is `outcome` of the
/// header bytes followed by those bytes, or that read's failure as it came.
pub open spec fn reply_events<T>(
    ev: Seq<TransportEvent>,
    r: Result<T, CommandError>,
    outcome: spec_fn(Seq<u8>) -> Result<T, CommandError>,
) -> bool {
    &&& ev.len() >= 1
    &&& match ev[0] {
        TransportEvent::ReadFailed(n, e) => {
            &&& ev.len() == 1
            &&& n == HEADER_LEN
            &&& r == Err::<T, CommandError>(CommandError::Transport(e))
        },
        TransportEvent::Read(head) => {
            &&& head.len() == HEADER_LEN
            &&& match spec_payload_len(head) {
                None => ev.len() == 1 && r == outcome(head),
                Some(n) => {
                    &&& ev.len() == 2
                    &&& match ev[1] {
                        TransportEvent::Read(payload) => payload.len() == n && r == outcome(
                            head + payload,
                        ),
                        TransportEvent::ReadFailed(k, e) => k == n && r == Err::<T, CommandError>(
                            CommandError::Transport(e),
                        ),
                        _ => false,
                    }
                },
            }
        },
        _ => false,
    }
}

/// What exchanging `request` did to the transport (`ev`, the events it
/// added) and what it returned (`r`): `write_all` was handed exactly the
/// request bytes, before any read; a failure there is passed on as it came
/// and nothing is read; otherwise one reply is read as [`reply_events`] says.
pub open spec fn request_events<T>(
    ev: Seq<TransportEvent>,
    request: Seq<u8>,
    r: Result<T, CommandError>,
    outcome: spec_fn(Seq<u8>) -> Result<T, CommandError>,
) -> bool {
    &&& ev.len() >= 1
    &&& match ev[0] {
        TransportEvent::WriteFailed(bytes, e) => {
            &&& bytes == request
            &&& ev.len() == 1
            &&& r == Err::<T, CommandError>(CommandError::Transport(e))
        },
        TransportEvent::Written(bytes) => bytes == request && reply_events(
            ev.drop_first(),
            r,
            outcome,
        ),
        _ => false,
    }
}

/// Decodes a checked reply into the reply itself, or the failure that its
/// result code gives.
pub open spec fn spec_checked(m: MessageView) -> Result<MessageView, CommandError> {
    match spec_check_result(m) {
        Err(e) => Err(e),
        Ok(_) => Ok(m),
    }
}

// ------------------------------------------------------------------
// Client
// ------------------------------------------------------------------

/// Client of an easy2read reader over a transport `C`, which it owns; its
/// contracts speak of that transport's trace.
pub struct Easy2ReadClient<C: Transport> {
    transport: C,
    message_id: u16,
}

/// What a command did: it kept the message identifier and only added events
/// to the transport's trace; when its request could not be built it failed
/// with that error and did not use the transport at all; otherwise the events
/// it added are the exchange of the request bytes that [`request_events`]
/// describes, with `outcome` of the reply frame as its result.
pub open spec fn command_done<T, C: Transport>(
    before: Easy2ReadClient<C>,
    after: Easy2ReadClient<C>,
    request: Result<Seq<u8>, CommandError>,
    r: Result<T, CommandError>,
    outcome: spec_fn(Seq<u8>) -> Result<T, CommandError>,
) -> bool {
    &&& after.id() == before.id()
    &&& before.trace().len() <= after.trace().len()
    &&& after.trace().take(before.trace().len() as int) == before.trace()
    &&& match request {
        Err(e) => {
            &&& r == Err::<T, CommandError>(e)
            &&& after.trace() == before.trace()
        },
        Ok(bytes) => request_events(
            after.trace().skip(before.trace().len() as int),
            bytes,
            r,
            outcome,
        ),
    }
}

/// Decoding the result of a reply read as [`reply_events`] says gives a
/// result read in the same way, with the decoding applied to the outcome.
proof fn lemma_reply_then<T>(
    ev: Seq<TransportEvent>,
    reply: Result<MessageView, CommandError>,
    outcome: spec_fn(Seq<u8>) -> Result<MessageView, CommandError>,
    r: Result<T, CommandError>,
    decode: spec_fn(MessageView) -> Result<T, CommandError>,
    decoded: spec_fn(Seq<u8>) -> Result<T, CommandError>,
)
    requires
        reply_events(ev, reply, outcome),
        r == spec_then(reply, decode),
        forall|f: Seq<u8>| #[trigger] decoded(f) == spec_then(outcome(f), decode),
    ensures
        reply_events(ev, r, decoded),
{
    match ev[0] {
        TransportEvent::Read(head) => {
            match spec_payload_len(head) {
                None => {
                    assert(decoded(head) == spec_then(outcome(head), decode));
                },
                Some(n) => {
                    match ev[1] {
                        TransportEvent::Read(payload) => {
                            assert(decoded(head + payload) == spec_then(
                                outcome(head + payload),
                                decode,
                            ));
                        },
                        _ => {},
                    }
                },
            }
        },
        _ => {},
    }
}

/// A command whose reply is decoded by `decode` did what [`command_done`]
/// says when the exchange of its request did, and its result is the decoding.
pub proof fn lemma_command_then<T, C: Transport>(
    before: Easy2ReadClient<C>,
    after: Easy2ReadClient<C>,
    request: Result<Seq<u8>, CommandError>,
    reply: Result<MessageView, CommandError>,
    r: Result<T, CommandError>,
    decode: spec_fn(MessageView) -> Result<T, CommandError>,
)
    requires
        command_done(before, after, request, reply, |f: Seq<u8>| spec_reply(f)),
        r == spec_then(reply, decode),
    ensures
        command_done(before, after, request, r, |f: Seq<u8>| spec_then(spec_reply(f), decode)),
{
    if request is Ok {
        let ev = after.trace().skip(before.trace().len() as int);
        if ev[0] is Written {
            lemma_reply_then(
                ev.drop_first(),
                reply,
                |f: Seq<u8>| spec_reply(f),
                r,
                decode,
                |f: Seq<u8>| spec_then(spec_reply(f), decode),
            );
        }
    }
}

/// A command that succeeded had a request that could be built, handed it to
/// `write_all` once, then read one whole reply and nothing else: a header and
/// exactly the payload that the header announces. Its result is the decoding
/// of that reply.
pub proof fn lemma_command_ok_exchange<T, C: Transport>(
    before: Easy2ReadClient<C>,
    after: Easy2ReadClient<C>,
    request: Result<Seq<u8>, CommandError>,
    r: Result<T, CommandError>,
    decode: spec_fn(MessageView) -> Result<T, CommandError>,
)
    requires
        command_done(before, after, request, r, |f: Seq<u8>| spec_then(spec_reply(f), decode)),
        r is Ok,
    ensures
        request is Ok,
        ({
            let ev = after.trace().skip(before.trace().len() as int);
            &&& ev.len() == 3
            &&& ev[0] == TransportEvent::Written(request->Ok_0)
            &&& ev[1] is Read
            &&& ev[2] is Read
            &&& ev[1]->Read_0.len() == HEADER_LEN
            &&& spec_payload_len(ev[1]->Read_0) == Some(ev[2]->Read_0.len())
            &&& r == spec_then(spec_reply(ev[1]->Read_0 + ev[2]->Read_0), decode)
        }),
{
    let ev = after.trace().skip(before.trace().len() as int);
    let replies = ev.drop_first();
    assert(replies[0] == ev[1]);
    if replies.len() == 2 {
        assert(replies[1] == ev[2]);
    }
}

impl<C: Transport> Easy2ReadClient<C> {
    /// Identifier put in every request.
    pub closed spec fn id(&self) -> u16 {
        self.message_id
    }

    /// Everything the client's transport did, oldest first: the transport's
    /// own trace.
    pub closed spec fn trace(&self) -> Seq<TransportEvent> {
        self.transport.trace().events
    }

    /// Client over an opened transport, which it holds as it was handed,
    /// unused; requests carry message identifier 0.
    pub fn new(transport: C) -> (c: Self)
        ensures
            c.id() == 0,
            c.trace() == transport.trace().events,
    {
        Easy2ReadClient { transport, message_id: 0 }
    }

    /// Reads one reply: first the header, then as many bytes as it announces.
    fn receive_message(&mut self) -> (r: Result<Message, CommandError>)
        ensures
            final(self).id() == old(self).id(),
            old(self).trace().len() <= final(self).trace().len(),
            final(self).trace().take(old(self).trace().len() as int) == old(self).trace(),
            reply_events(
                final(self).trace().skip(old(self).trace().len() as int),
                message_result_view(r),
                |f: Seq<u8>| spec_receive(f),
            ),
    {
        let ghost t0 = self.trace();
        let mut frame: Vec<u8> = vec![0u8; HEADER_LEN as usize];
        match self.transport.read_exact(frame.as_mut_slice()) {
            Ok(()) => {},
            Err(e) => {
                proof {
                    assert(self.trace().take(t0.len() as int) =~= t0);
                    assert(self.trace().skip(t0.len() as int) =~= seq![
                        TransportEvent::ReadFailed(HEADER_LEN as usize, e),
                    ]);
                }
                return Err(CommandError::Transport(e));
            },
        }
        let ghost head = frame@;
        let ghost t1 = self.trace();
        assert(head.len() == HEADER_LEN);
        assert(t1 == t0.push(TransportEvent::Read(head)));
        assert(t1.take(t0.len() as int) =~= t0);
        assert(t1.skip(t0.len() as int) =~= seq![TransportEvent::Read(head)]);
        let header = match Header::try_from(frame.as_slice()) {
            Ok(h) => h,
            Err(e) => {
                return Err(CommandError::Message(MessageError::Header(e)));
            },
        };
        if header.length < HEADER_LEN {
            return Err(CommandError::Message(MessageError::TooShort));
        }
        let payload_len = (header.length - HEADER_LEN) as usize;
        let mut payload: Vec<u8> = vec![0u8; payload_len];
        match self.transport.read_exact(payload.as_mut_slice()) {
            Ok(()) => {},
            Err(e) => {
                proof {
                    assert(self.trace().take(t0.len() as int) =~= t0);
                    assert(self.trace().skip(t0.len() as int) =~= seq![
                        TransportEvent::Read(head),
                        TransportEvent::ReadFailed(payload_len, e),
                    ]);
                }
                return Err(CommandError::Transport(e));
            },
        }
        proof {
            assert(self.trace().take(t0.len() as int) =~= t0);
            assert(self.trace().skip(t0.len() as int) =~= seq![
                TransportEvent::Read(head),
                TransportEvent::Read(payload@),
            ]);
        }
        push_all(&mut frame, payload.as_slice());
        proof {
            assert(frame@ =~= head + payload@);
            assert(frame@.take(HEADER_LEN as int) =~= head);
            lemma_parse_header_prefix(frame@, head);
        }
        match Message::try_from(frame.as_slice()) {
            Ok(m) => Ok(m),
            Err(e) => Err(CommandError::Message(e)),
        }
    }

    /// Checks the result code of a reply: success, or the code the reader reported.
    pub fn check_result_code(&self, response: &Message) -> (r: Result<(), CommandError>)
        ensures
            r == spec_check_result(response@),
    {
        match u16_value(response, AVP_RESULT_CODE) {
            Err(e) => Err(e),
            Ok(c) => if c == ResultCode::Success.code() {
                Ok(())
            } else {
                Err(CommandError::ReaderError(c))
            },
        }
    }

    /// Sends the request built from `items` and reads a successful reply.
    fn transact(&mut self, items: Vec<(u16, Vec<u8>)>) -> (r: Result<Message, CommandError>)
        requires
            items@.len() <= 8,
        ensures
            command_done(
                *old(self),
                *final(self),
                spec_request(old(self).id(), items_view(items@)),
                message_result_view(r),
                |f: Seq<u8>| spec_reply(f),
            ),
    {
        let ghost t0 = self.trace();
        assert(t0.take(t0.len() as int) =~= t0);
        let avp_list = match build_avps(items) {
            Ok(v) => v,
            Err(e) => return Err(e),
        };
        proof {
            lemma_sum_lengths_bound(avps_view(avp_list@));
        }
        let message = match Message::new(self.message_id, avp_list) {
            Ok(m) => m,
            Err(e) => return Err(CommandError::Message(e)),
        };
        let bytes = Vec::<u8>::from(message);
        match self.transport.write_all(bytes.as_slice()) {
            Ok(()) => {},
            Err(e) => {
                proof {
                    assert(self.trace().take(t0.len() as int) =~= t0);
                    assert(self.trace().skip(t0.len() as int) =~= seq![
                        TransportEvent::WriteFailed(bytes@, e),
                    ]);
                }
                return Err(CommandError::Transport(e));
            },
        }
        let ghost t1 = self.trace();
        assert(t1 == t0.push(TransportEvent::Written(bytes@)));
        let received = self.receive_message();
        let ghost received_view = message_result_view(received);
        let r = match received {
            Ok(response) => match self.check_result_code(&response) {
                Ok(()) => Ok(response),
                Err(e) => Err(e),
            },
            Err(e) => Err(e),
        };
        proof {
            let t2 = self.trace();
            let ev = t2.skip(t0.len() as int);
            assert(t2.take(t1.len() as int) == t1);
            assert(t2.take(t0.len() as int) =~= t0) by {
                assert(t2.take(t0.len() as int) =~= t1.take(t0.len() as int));
            }
            assert(ev[0] == TransportEvent::Written(bytes@)) by {
                assert(t2[t0.len() as int] == t1[t0.len() as int]);
            }
            assert(ev.drop_first() =~= t2.skip(t1.len() as int));
            assert(message_result_view(r) == spec_then(received_view, |m: MessageView| spec_checked(m)));
            lemma_reply_then(
                ev.drop_first(),
                received_view,
                |f: Seq<u8>| spec_receive(f),
                message_result_view(r),
                |m: MessageView| spec_checked(m),
                |f: Seq<u8>| spec_reply(f),
            );
        }
        r
    }
}

/// A request that the client builds from at least one item and that is no
/// longer than [`MAX_MESSAGE_LEN`] is read back by the message reader as an
/// outgoing message with the client's identifier and the AVPs built from the
/// items, in order.
pub proof fn lemma_request_roundtrip(message_id: u16, items: Seq<(u16, Seq<u8>)>)
    requires
        items.len() > 0,
        items_fit(items),
        spec_sum_lengths(items_avps(items)) + HEADER_LEN <= MAX_MESSAGE_LEN,
    ensures
        spec_request(message_id, items) is Ok,
        spec_parse_message(spec_request(message_id, items)->Ok_0) == Ok::<MessageView, MessageError>(
            MessageView {
                header: Header {
                    direction: MessageDir::Tx,
                    message_id,
                    vendor_id: VENDOR_ID,
                    length: (spec_sum_lengths(items_avps(items)) + HEADER_LEN) as u16,
                },
                avps: items_avps(items),
            },
        ),
{
    let avps = items_avps(items);
    assert(avps_wf(avps)) by {
        assert forall|i: int| 0 <= i < avps.len() implies #[trigger] avp_wf(avps[i]) by {
            assert(items[i].1.len() + AVP_HEADER_LEN <= u16::MAX);
        }
    }
    lemma_message_new_roundtrip(message_id, avps);
}

/// The bytes of a consistent message with the CAEN vendor identifier, at
/// least one AVP and a length within [`MAX_MESSAGE_LEN`] are read by the
/// client as a reply whole: its first ten bytes announce exactly the bytes
/// that follow them, and the client reads the bytes back as that message
/// when its result code is success, and as the failure that the result code
/// gives otherwise.
pub proof fn lemma_reply_roundtrip(m: MessageView)
    requires
        message_wf(m),
        m.header.vendor_id == VENDOR_ID,
        m.header.length <= MAX_MESSAGE_LEN,
        m.avps.len() > 0,
    ensures
        spec_message_bytes(m).len() >= HEADER_LEN,
        spec_payload_len(spec_message_bytes(m).take(HEADER_LEN as int)) == Some(
            (spec_message_bytes(m).len() - HEADER_LEN) as nat,
        ),
        spec_receive(spec_message_bytes(m)) == Ok::<MessageView, CommandError>(m),
        spec_reply(spec_message_bytes(m)) == match spec_check_result(m) {
            Ok(_) => Ok::<MessageView, CommandError>(m),
            Err(e) => Err(e),
        },
{
    let bytes = spec_message_bytes(m);
    lemma_message_roundtrip(m, Seq::empty());
    assert(bytes + Seq::<u8>::empty() =~= bytes);
    lemma_header_roundtrip(m.header, spec_avps_bytes(m.avps));
    lemma_sum_lengths_bound(m.avps);
    lemma_parse_header_prefix(bytes, bytes.take(HEADER_LEN as int));
}

/// The header read from a frame depends only on its first ten bytes.
pub proof fn lemma_parse_header_prefix(frame: Seq<u8>, head: Seq<u8>)
    requires
        head.len() == HEADER_LEN,
        frame.len() >= HEADER_LEN,
        frame.take(HEADER_LEN as int) == head,
    ensures
        spec_parse_header(frame) == spec_parse_header(head),
{
    assert(frame[0] == head[0] && frame[1] == head[1] && frame[2] == head[2] && frame[3] == head[3]);
    assert(frame[4] == head[4] && frame[5] == head[5] && frame[6] == head[6] && frame[7] == head[7]);
    assert(frame[8] == head[8] && frame[9] == head[9]);
}

/// Index of the first AVP of type `attr_type`, if there is one.
fn find_avp(avps: &Vec<Avp>, attr_type: u16) -> (r: Option<usize>)
    ensures
        r matches Some(i) ==> i < avps@.len() && spec_find_avp(avps_view(avps@), attr_type) == Some(avps@[i as int]@),
        r is None ==> spec_find_avp(avps_view(avps@), attr_type) is None,
{
    let ghost all = avps_view(avps@);
    let mut i: usize = 0;
    assert(all.skip(0) =~= all);
    while i < avps.len()
        invariant
            i <= avps@.len(),
            all == avps_view(avps@),
            spec_find_avp(all, attr_type) == spec_find_avp(all.skip(i as int), attr_type),
        decreases avps@.len() - i,
    {
        assert(all.skip(i as int)[0] == all[i as int]);
        assert(all.skip(i as int).drop_first() =~= all.skip(i as int + 1));
        if avps[i].attr_type == attr_type {
            return Some(i);
        }
        i = i + 1;
    }
    assert(all.skip(i as int).len() == 0);
    None
}

/// The `u16` at the start of the value of the first AVP of type `attr_type` in a reply.
pub fn u16_value(response: &Message, attr_type: u16) -> (r: Result<u16, CommandError>)
    ensures
        r == spec_u16_value(response@, attr_type),
{
    match find_avp(&response.avp_list, attr_type) {
        None => Err(CommandError::Message(MessageError::TooShort)),
        Some(i) => {
            let value = &response.avp_list[i].value;
            if value.len() < 2 {
                Err(CommandError::Message(MessageError::InvalidValue))
            } else {
                Ok(crate::protocol::read_be16(value.as_slice(), 0))
            }
        },
    }
}

/// The `u32` at the start of the value of the first AVP of type `attr_type` in a reply.
pub fn u32_value(response: &Message, attr_type: u16) -> (r: Result<u32, CommandError>)
    ensures
        r == spec_u32_value(response@, attr_type),
{
    match find_avp(&response.avp_list, attr_type) {
        None => Err(CommandError::Message(MessageError::TooShort)),
        Some(i) => {
            let value = &response.avp_list[i].value;
            if value.len() < 4 {
                Err(CommandError::Message(MessageError::InvalidValue))
            } else {
                Ok(crate::protocol::read_be32(value.as_slice(), 0))
            }
        },
    }
}


/// `s` as the protocol sends it: its UTF-8 bytes and a terminating zero byte.
fn null_terminate(s: &str) -> (r: Vec<u8>)
    ensures
        r@ == spec_null_terminated(s),
{
    let mut v: Vec<u8> = Vec::new();
    push_all(&mut v, s.as_bytes());
    v.push(0);
    v
}

/// A copy of `s` in a vector.
fn bytes_vec(s: &[u8]) -> (r: Vec<u8>)
    ensures
        r@ == s@,
{
    let mut v: Vec<u8> = Vec::new();
    push_all(&mut v, s);
    assert(v@ =~= s@);
    v
}

/// The protocol decoded from the protocol AVP of a reply.
pub open spec fn spec_decode_protocol(m: MessageView) -> Result<Protocol, CommandError> {
    match spec_u32_value(m, AVP_PROTOCOL) {
        Err(e) => Err(e),
        Ok(v) => match spec_protocol(v) {
            Ok(p) => Ok(p),
            Err(e) => Err(spec_conversion_error(e)),
        },
    }
}

/// The protocol decoded from the protocol AVP of a reply.
pub fn decode_protocol(response: &Message) -> (r: Result<Protocol, CommandError>)
    ensures
        r == spec_decode_protocol(response@),
{
    match u32_value(response, AVP_PROTOCOL) {
        Err(e) => Err(e),
        Ok(v) => match Protocol::try_from(v) {
            Ok(p) => Ok(p),
            Err(e) => Err(CommandError::from(e)),
        },
    }
}

/// The RF regulation decoded from the RF-regulation AVP of a reply.
pub open spec fn spec_decode_rf_regulation(m: MessageView) -> Result<RFRegulation, CommandError> {
    match spec_u16_value(m, AVP_RF_REGULATION) {
        Err(e) => Err(e),
        Ok(v) => match spec_rf_regulation(v) {
            Ok(p) => Ok(p),
            Err(e) => Err(spec_conversion_error(e)),
        },
    }
}

/// The RF regulation decoded from the RF-regulation AVP of a reply.
pub fn decode_rf_regulation(response: &Message) -> (r: Result<RFRegulation, CommandError>)
    ensures
        r == spec_decode_rf_regulation(response@),
{
    match u16_value(response, AVP_RF_REGULATION) {
        Err(e) => Err(e),
        Ok(v) => match RFRegulation::try_from(v) {
            Ok(p) => Ok(p),
            Err(e) => Err(CommandError::from(e)),
        },
    }
}

/// The read-point status decoded from the read-point-status AVP of a reply.
pub open spec fn spec_decode_read_point_status(m: MessageView) -> Result<
    ReadPointStatus,
    CommandError,
> {
    match spec_u32_value(m, AVP_READ_POINT_STATUS) {
        Err(e) => Err(e),
        Ok(v) => match spec_read_point_status(v) {
            Ok(p) => Ok(p),
            Err(e) => Err(spec_conversion_error(e)),
        },
    }
}

/// The read-point status decoded from the read-point-status AVP of a reply.
pub fn decode_read_point_status(response: &Message) -> (r: Result<ReadPointStatus, CommandError>)
    ensures
        r == spec_decode_read_point_status(response@),
{
    match u32_value(response, AVP_READ_POINT_STATUS) {
        Err(e) => Err(e),
        Ok(v) => match ReadPointStatus::try_from(v) {
            Ok(p) => Ok(p),
            Err(e) => Err(CommandError::from(e)),
        },
    }
}

/// Whether the `u16` at the start of the value of the first AVP of type `attr_type` is nonzero.
pub open spec fn spec_flag_value(m: MessageView, attr_type: u16) -> Result<bool, CommandError> {
    match spec_u16_value(m, attr_type) {
        Err(e) => Err(e),
        Ok(v) => Ok(v != 0),
    }
}

/// Whether the `u16` at the start of the value of the first AVP of type `attr_type` in a reply is nonzero.
pub fn flag_value(response: &Message, attr_type: u16) -> (r: Result<bool, CommandError>)
    ensures
        r == spec_flag_value(response@, attr_type),
{
    match u16_value(response, attr_type) {
        Err(e) => Err(e),
        Ok(v) => Ok(v != 0),
    }
}

/// The value of the first AVP of type `attr_type`.
pub open spec fn spec_bytes_value(m: MessageView, attr_type: u16) -> Result<Seq<u8>, CommandError> {
    match spec_find_avp(m.avps, attr_type) {
        None => Err(CommandError::Message(MessageError::TooShort)),
        Some(a) => Ok(a.value),
    }
}

/// The model of a result that holds bytes.
pub open spec fn bytes_result_view(r: Result<Vec<u8>, CommandError>) -> Result<Seq<u8>, CommandError> {
    match r {
        Ok(v) => Ok(v@),
        Err(e) => Err(e),
    }
}

/// A copy of the value of the first AVP of type `attr_type` in a reply.
pub fn bytes_value(response: &Message, attr_type: u16) -> (r: Result<Vec<u8>, CommandError>)
    ensures
        bytes_result_view(r) == spec_bytes_value(response@, attr_type),
{
    match find_avp(&response.avp_list, attr_type) {
        None => Err(CommandError::Message(MessageError::TooShort)),
        Some(i) => Ok(bytes_vec(response.avp_list[i].value.as_slice())),
    }
}

/// `s` without its zero bytes.
pub open spec fn spec_drop_zeros(s: Seq<u8>) -> Seq<u8>
    decreases s.len(),
{
    if s.len() == 0 {
        s
    } else if s.last() == 0 {
        spec_drop_zeros(s.drop_last())
    } else {
        spec_drop_zeros(s.drop_last()).push(s.last())
    }
}

/// The text in the value of the first AVP of type `attr_type`: its bytes
/// without zero bytes, decoded as UTF-8.
pub open spec fn spec_text_value(m: MessageView, attr_type: u16) -> Result<Seq<char>, CommandError> {
    match spec_find_avp(m.avps, attr_type) {
        None => Err(CommandError::Message(MessageError::TooShort)),
        Some(a) => if valid_utf8(spec_drop_zeros(a.value)) {
            Ok(decode_utf8(spec_drop_zeros(a.value)))
        } else {
            Err(CommandError::Message(MessageError::InvalidValue))
        },
    }
}

/// The model of a result that holds a string.
pub open spec fn text_result_view(r: Result<String, CommandError>) -> Result<Seq<char>, CommandError> {
    match r {
        Ok(s) => Ok(s@),
        Err(e) => Err(e),
    }
}

/// `String::from_utf8`: the string that `bytes` encode in UTF-8, when they
/// are valid UTF-8. Claimed: it returns a string exactly when the bytes are
/// valid UTF-8 (as vstd's `valid_utf8` states it), and the string's
/// characters are the decoded ones.
#[verifier::external_body]
fn string_from_utf8(bytes: Vec<u8>) -> (r: Option<String>)
    ensures
        r is Some <==> valid_utf8(bytes@),
        r matches Some(s) ==> s@ == decode_utf8(bytes@),
{
    String::from_utf8(bytes).ok()
}

/// The text in the value of the first AVP of type `attr_type` in a reply.
pub fn text_value(response: &Message, attr_type: u16) -> (r: Result<String, CommandError>)
    ensures
        text_result_view(r) == spec_text_value(response@, attr_type),
{
    match find_avp(&response.avp_list, attr_type) {
        None => Err(CommandError::Message(MessageError::TooShort)),
        Some(i) => {
            let value = &response.avp_list[i].value;
            let mut kept: Vec<u8> = Vec::new();
            let mut j: usize = 0;
            while j < value.len()
                invariant
                    j <= value@.len(),
                    kept@ == spec_drop_zeros(value@.take(j as int)),
                decreases value@.len() - j,
            {
                proof {
                    assert(value@.take(j as int + 1).drop_last() =~= value@.take(j as int));
                }
                if value[j] != 0 {
                    kept.push(value[j]);
                }
                j = j + 1;
            }
            assert(value@.take(j as int) =~= value@);
            match string_from_utf8(kept) {
                Some(text) => Ok(text),
                None => Err(CommandError::Message(MessageError::InvalidValue)),
            }
        },
    }
}

/// The password AVP item of a tag command, when a password is given.
pub open spec fn spec_password_item(passwd: Option<u32>) -> Seq<(u16, Seq<u8>)> {
    match passwd {
        Some(p) => seq![(AVP_G2_PASSWORD, be32_bytes(p))],
        None => Seq::empty(),
    }
}

/// The (attribute type, value) pairs of the request that
/// [`Easy2ReadClient::cmd_get_protocol`] sends, in order.
pub open spec fn cmd_get_protocol_items() -> Seq<(u16, Seq<u8>)> {
    seq![
        (AVP_COMMAND_NAME, be16_bytes(CMD_GET_PROTOCOL)),
    ]
}

/// The (attribute type, value) pairs of the request that
/// [`Easy2ReadClient::cmd_set_protocol`] sends, in order.
pub open spec fn cmd_set_protocol_items(protocol: Protocol) -> Seq<(u16, Seq<u8>)> {
    seq![
        (AVP_COMMAND_NAME, be16_bytes(CMD_SET_PROTOCOL)),
        (AVP_PROTOCOL, be32_bytes(protocol.spec_code())),
    ]
}

/// The (attribute type, value) pairs of the request that
/// [`Easy2ReadClient::cmd_get_power`] sends, in order.
pub open spec fn cmd_get_power_items() -> Seq<(u16, Seq<u8>)> {
    seq![
        (AVP_COMMAND_NAME, be16_bytes(CMD_GET_POWER)),
    ]
}

/// The (attribute type, value) pairs of the request that
/// [`Easy2ReadClient::cmd_set_power`] sends, in order.
pub open spec fn cmd_set_power_items(power_mw: u32) -> Seq<(u16, Seq<u8>)> {
    seq![
        (AVP_COMMAND_NAME, be16_bytes(CMD_SET_POWER)),
        (AVP_POWER_SET, be32_bytes(power_mw)),
    ]
}

/// The (attribute type, value) pairs of the request that
/// [`Easy2ReadClient::cmd_get_rf_channel`] sends, in order.
pub open spec fn cmd_get_rf_channel_items() -> Seq<(u16, Seq<u8>)> {
    seq![
        (AVP_COMMAND_NAME, be16_bytes(CMD_GET_RF_CHANNEL)),
    ]
}

/// The (attribute type, value) pairs of the request that
/// [`Easy2ReadClient::cmd_set_rf_channel`] sends, in order.
pub open spec fn cmd_set_rf_channel_items(channel: u16) -> Seq<(u16, Seq<u8>)> {
    seq![
        (AVP_COMMAND_NAME, be16_bytes(CMD_SET_RF_CHANNEL)),
        (AVP_RF_CHANNEL, be16_bytes(channel)),
    ]
}

/// The (attribute type, value) pairs of the request that
/// [`Easy2ReadClient::cmd_get_lbt_mode`] sends, in order.
pub open spec fn cmd_get_lbt_mode_items() -> Seq<(u16, Seq<u8>)> {
    seq![
        (AVP_COMMAND_NAME, be16_bytes(CMD_GET_LBT_MODE)),
    ]
}

/// The (attribute type, value) pairs of the request that
/// [`Easy2ReadClient::cmd_set_lbt_mode`] sends, in order.
pub open spec fn cmd_set_lbt_mode_items(enabled: bool) -> Seq<(u16, Seq<u8>)> {
    seq![
        (AVP_COMMAND_NAME, be16_bytes(CMD_SET_LBT_MODE)),
        (AVP_BOOLEAN, be16_bytes(if enabled { 1u16 } else { 0u16 })),
    ]
}

/// The (attribute type, value) pairs of the request that
/// [`Easy2ReadClient::cmd_get_rf_regulation`] sends, in order.
pub open spec fn cmd_get_rf_regulation_items() -> Seq<(u16, Seq<u8>)> {
    seq![
        (AVP_COMMAND_NAME, be16_bytes(CMD_GET_RF_REGULATION)),
    ]
}

/// The (attribute type, value) pairs of the request that
/// [`Easy2ReadClient::cmd_rf_on_off`] sends, in order.
pub open spec fn cmd_rf_on_off_items(enabled: bool) -> Seq<(u16, Seq<u8>)> {
    seq![
        (AVP_COMMAND_NAME, be16_bytes(CMD_RF_ON_OFF)),
        (AVP_RF_ON_OFF, be16_bytes(if enabled { 1u16 } else { 0u16 })),
    ]
}

/// The (attribute type, value) pairs of the request that
/// [`Easy2ReadClient::cmd_get_firmware_release`] sends, in order.
pub open spec fn cmd_get_firmware_release_items() -> Seq<(u16, Seq<u8>)> {
    seq![
        (AVP_COMMAND_NAME, be16_bytes(CMD_GET_FIRMWARE_RELEASE)),
    ]
}

/// The (attribute type, value) pairs of the request that
/// [`Easy2ReadClient::cmd_get_reader_info`] sends, in order.
pub open spec fn cmd_get_reader_info_items() -> Seq<(u16, Seq<u8>)> {
    seq![
        (AVP_COMMAND_NAME, be16_bytes(CMD_GET_READER_INFO)),
    ]
}

/// The (attribute type, value) pairs of the request that
/// [`Easy2ReadClient::cmd_set_rs232`] sends, in order.
pub open spec fn cmd_set_rs232_items(baud_rate: u32, data_bits: u32, stop_bits: u32, parity: Parity, flow_ctlr: FlowCtrl) -> Seq<(u16, Seq<u8>)> {
    seq![
        (AVP_COMMAND_NAME, be16_bytes(CMD_SET_RS232)),
        (AVP_BAUD_RATE, be32_bytes(baud_rate)),
        (AVP_DATA_BITS, be32_bytes(data_bits)),
        (AVP_STOP_BITS, be32_bytes(stop_bits)),
        (AVP_PARITY, be32_bytes(parity.spec_code())),
        (AVP_FLOW_CTRL, be32_bytes(flow_ctlr.spec_code())),
    ]
}

/// The (attribute type, value) pairs of the request that
/// [`Easy2ReadClient::cmd_get_io`] sends, in order.
pub open spec fn cmd_get_io_items() -> Seq<(u16, Seq<u8>)> {
    seq![
        (AVP_COMMAND_NAME, be16_bytes(CMD_GET_IO)),
    ]
}

/// The (attribute type, value) pairs of the request that
/// [`Easy2ReadClient::cmd_set_io`] sends, in order.
pub open spec fn cmd_set_io_items(io_register: u32) -> Seq<(u16, Seq<u8>)> {
    seq![
        (AVP_COMMAND_NAME, be16_bytes(CMD_SET_IO)),
        (AVP_IO_REGISTER, be32_bytes(io_register)),
    ]
}

/// The (attribute type, value) pairs of the request that
/// [`Easy2ReadClient::cmd_get_io_direction`] sends, in order.
pub open spec fn cmd_get_io_direction_items() -> Seq<(u16, Seq<u8>)> {
    seq![
        (AVP_COMMAND_NAME, be16_bytes(CMD_GET_IO_DIRECTION)),
    ]
}

/// The (attribute type, value) pairs of the request that
/// [`Easy2ReadClient::cmd_set_io_direction`] sends, in order.
pub open spec fn cmd_set_io_direction_items(io_register: u32) -> Seq<(u16, Seq<u8>)> {
    seq![
        (AVP_COMMAND_NAME, be16_bytes(CMD_SET_IO_DIRECTION)),
        (AVP_IO_REGISTER, be32_bytes(io_register)),
    ]
}

/// The (attribute type, value) pairs of the request that
/// [`Easy2ReadClient::cmd_get_source_config`] sends, in order.
pub open spec fn cmd_get_source_config_items(source_name: &str, param: ConfigParameter) -> Seq<(u16, Seq<u8>)> {
    seq![
        (AVP_COMMAND_NAME, be16_bytes(CMD_GET_SOURCE_CONFIG)),
        (AVP_SOURCE_NAME, spec_null_terminated(source_name)),
        (AVP_CONFIG_PARAMETER, be32_bytes(param.spec_code())),
    ]
}

/// The (attribute type, value) pairs of the request that
/// [`Easy2ReadClient::cmd_set_source_config`] sends, in order.
pub open spec fn cmd_set_source_config_items(source_name: &str, param: ConfigParameter, value: u32) -> Seq<(u16, Seq<u8>)> {
    seq![
        (AVP_COMMAND_NAME, be16_bytes(CMD_SET_SOURCE_CONFIG)),
        (AVP_SOURCE_NAME, spec_null_terminated(source_name)),
        (AVP_CONFIG_PARAMETER, be32_bytes(param.spec_code())),
        (AVP_CONFIG_VALUE, be32_bytes(value)),
    ]
}

/// The (attribute type, value) pairs of the request that
/// [`Easy2ReadClient::cmd_check_read_point_status`] sends, in order.
pub open spec fn cmd_check_read_point_status_items(read_point_name: &str) -> Seq<(u16, Seq<u8>)> {
    seq![
        (AVP_COMMAND_NAME, be16_bytes(CMD_CHECK_READ_POINT_STATUS)),
        (AVP_READ_POINT_NAME, spec_null_terminated(read_point_name)),
    ]
}

/// The (attribute type, value) pairs of the request that
/// [`Easy2ReadClient::cmd_add_read_point_to_source`] sends, in order.
pub open spec fn cmd_add_read_point_to_source_items(source_name: &str, read_point_name: &str) -> Seq<(u16, Seq<u8>)> {
    seq![
        (AVP_COMMAND_NAME, be16_bytes(CMD_ADD_READ_POINT_TO_SOURCE)),
        (AVP_SOURCE_NAME, spec_null_terminated(source_name)),
        (AVP_READ_POINT_NAME, spec_null_terminated(read_point_name)),
    ]
}

/// The (attribute type, value) pairs of the request that
/// [`Easy2ReadClient::cmd_remove_read_point_from_source`] sends, in order.
pub open spec fn cmd_remove_read_point_from_source_items(source_name: &str, read_point_name: &str) -> Seq<(u16, Seq<u8>)> {
    seq![
        (AVP_COMMAND_NAME, be16_bytes(CMD_REMOVE_READ_POINT_FROM_SOURCE)),
        (AVP_SOURCE_NAME, spec_null_terminated(source_name)),
        (AVP_READ_POINT_NAME, spec_null_terminated(read_point_name)),
    ]
}

/// The (attribute type, value) pairs of the request that
/// [`Easy2ReadClient::cmd_read_tag_data_epc_c1g2`] sends, in order.
pub open spec fn cmd_read_tag_data_epc_c1g2_items(source_name: &str, tag_id: &[u8], memory_bank: MemoryBank, tag_address: u16, length: u16, passwd: Option<u32>) -> Seq<(u16, Seq<u8>)> {
    seq![
        (AVP_COMMAND_NAME, be16_bytes(CMD_READ_TAG_DATA_EPC_C1G2)),
        (AVP_SOURCE_NAME, spec_null_terminated(source_name)),
        (AVP_TAG_ID, tag_id@),
        (AVP_MEMORY_BANK, be16_bytes(memory_bank.spec_code())),
        (AVP_TAG_ADDRESS, be16_bytes(tag_address)),
        (AVP_LENGTH, be16_bytes(length)),
    ] + spec_password_item(passwd)
}

/// The (attribute type, value) pairs of the request that
/// [`Easy2ReadClient::cmd_write_tag_data_epc_c1g2`] sends, in order.
pub open spec fn cmd_write_tag_data_epc_c1g2_items(source_name: &str, tag_id: &[u8], memory_bank: MemoryBank, tag_address: u16, data: &[u8], passwd: Option<u32>) -> Seq<(u16, Seq<u8>)> {
    seq![
        (AVP_COMMAND_NAME, be16_bytes(CMD_WRITE_TAG_DATA_EPC_C1G2)),
        (AVP_SOURCE_NAME, spec_null_terminated(source_name)),
        (AVP_TAG_ID, tag_id@),
        (AVP_MEMORY_BANK, be16_bytes(memory_bank.spec_code())),
        (AVP_TAG_ADDRESS, be16_bytes(tag_address)),
        (AVP_TAG_VALUE, data@),
    ] + spec_password_item(passwd)
}

impl<C: Transport> Easy2ReadClient<C> {
    /// Gets the air protocol the reader uses.
    pub fn cmd_get_protocol(&mut self) -> (r: Result<Protocol, CommandError>)
        ensures
            command_done(
                *old(self),
                *final(self),
                spec_request(old(self).id(), cmd_get_protocol_items()),
                r,
                |f: Seq<u8>| spec_then(spec_reply(f), |m: MessageView| spec_decode_protocol(m)),
            ),
    {
        let ghost before = *self;
        let ghost wanted = cmd_get_protocol_items();
        let items = vec![
            (AVP_COMMAND_NAME, be16_vec(CMD_GET_PROTOCOL)),
        ];
        assert(items_view(items@) =~= wanted);
        let reply = self.transact(items);
        let ghost reply_view = message_result_view(reply);
        let r = match reply {
            Ok(response) => decode_protocol(&response),
            Err(e) => Err(e),
        };
        proof {
            lemma_command_then(
                before,
                *self,
                spec_request(before.id(), wanted),
                reply_view,
                r,
                |m: MessageView| spec_decode_protocol(m),
            );
        }
        r
    }

    /// Sets the air protocol the reader uses for tags.
    pub fn cmd_set_protocol(
        &mut self,
        protocol: Protocol,
    ) -> (r: Result<(), CommandError>)
        ensures
            command_done(
                *old(self),
                *final(self),
                spec_request(old(self).id(), cmd_set_protocol_items(protocol)),
                r,
                |f: Seq<u8>| spec_then(spec_reply(f), |m: MessageView| Ok::<(), CommandError>(())),
            ),
    {
        let ghost before = *self;
        let ghost wanted = cmd_set_protocol_items(protocol);
        let items = vec![
            (AVP_COMMAND_NAME, be16_vec(CMD_SET_PROTOCOL)),
            (AVP_PROTOCOL, be32_vec(protocol.code())),
        ];
        assert(items_view(items@) =~= wanted);
        let reply = self.transact(items);
        let ghost reply_view = message_result_view(reply);
        let r = match reply {
            Ok(_) => Ok(()),
            Err(e) => Err(e),
        };
        proof {
            lemma_command_then(
                before,
                *self,
                spec_request(before.id(), wanted),
                reply_view,
                r,
                |m: MessageView| Ok::<(), CommandError>(()),
            );
        }
        r
    }

    /// Gets the RF power of the reader in milliwatts.
    pub fn cmd_get_power(&mut self) -> (r: Result<u32, CommandError>)
        ensures
            command_done(
                *old(self),
                *final(self),
                spec_request(old(self).id(), cmd_get_power_items()),
                r,
                |f: Seq<u8>| spec_then(spec_reply(f), |m: MessageView| spec_u32_value(m, AVP_POWER_GET)),
            ),
    {
        let ghost before = *self;
        let ghost wanted = cmd_get_power_items();
        let items = vec![
            (AVP_COMMAND_NAME, be16_vec(CMD_GET_POWER)),
        ];
        assert(items_view(items@) =~= wanted);
        let reply = self.transact(items);
        let ghost reply_view = message_result_view(reply);
        let r = match reply {
            Ok(response) => u32_value(&response, AVP_POWER_GET),
            Err(e) => Err(e),
        };
        proof {
            lemma_command_then(
                before,
                *self,
                spec_request(before.id(), wanted),
                reply_view,
                r,
                |m: MessageView| spec_u32_value(m, AVP_POWER_GET),
            );
        }
        r
    }

    /// Sets the RF power of the reader, in milliwatts.
    pub fn cmd_set_power(
        &mut self,
        power_mw: u32,
    ) -> (r: Result<(), CommandError>)
        ensures
            command_done(
                *old(self),
                *final(self),
                spec_request(old(self).id(), cmd_set_power_items(power_mw)),
                r,
                |f: Seq<u8>| spec_then(spec_reply(f), |m: MessageView| Ok::<(), CommandError>(())),
            ),
    {
        let ghost before = *self;
        let ghost wanted = cmd_set_power_items(power_mw);
        let items = vec![
            (AVP_COMMAND_NAME, be16_vec(CMD_SET_POWER)),
            (AVP_POWER_SET, be32_vec(power_mw)),
        ];
        assert(items_view(items@) =~= wanted);
        let reply = self.transact(items);
        let ghost reply_view = message_result_view(reply);
        let r = match reply {
            Ok(_) => Ok(()),
            Err(e) => Err(e),
        };
        proof {
            lemma_command_then(
                before,
                *self,
                spec_request(before.id(), wanted),
                reply_view,
                r,
                |m: MessageView| Ok::<(), CommandError>(()),
            );
        }
        r
    }

    /// Gets the RF channel the reader uses (0-9 under ETSI EN 302 208).
    pub fn cmd_get_rf_channel(&mut self) -> (r: Result<u16, CommandError>)
        ensures
            command_done(
                *old(self),
                *final(self),
                spec_request(old(self).id(), cmd_get_rf_channel_items()),
                r,
                |f: Seq<u8>| spec_then(spec_reply(f), |m: MessageView| spec_u16_value(m, AVP_RF_CHANNEL)),
            ),
    {
        let ghost before = *self;
        let ghost wanted = cmd_get_rf_channel_items();
        let items = vec![
            (AVP_COMMAND_NAME, be16_vec(CMD_GET_RF_CHANNEL)),
        ];
        assert(items_view(items@) =~= wanted);
        let reply = self.transact(items);
        let ghost reply_view = message_result_view(reply);
        let r = match reply {
            Ok(response) => u16_value(&response, AVP_RF_CHANNEL),
            Err(e) => Err(e),
        };
        proof {
            lemma_command_then(
                before,
                *self,
                spec_request(before.id(), wanted),
                reply_view,
                r,
                |m: MessageView| spec_u16_value(m, AVP_RF_CHANNEL),
            );
        }
        r
    }

    /// Sets the RF channel of the reader (0-9 under ETSI EN 302 208).
    pub fn cmd_set_rf_channel(
        &mut self,
        channel: u16,
    ) -> (r: Result<(), CommandError>)
        ensures
            command_done(
                *old(self),
                *final(self),
                spec_request(old(self).id(), cmd_set_rf_channel_items(channel)),
                r,
                |f: Seq<u8>| spec_then(spec_reply(f), |m: MessageView| Ok::<(), CommandError>(())),
            ),
    {
        let ghost before = *self;
        let ghost wanted = cmd_set_rf_channel_items(channel);
        let items = vec![
            (AVP_COMMAND_NAME, be16_vec(CMD_SET_RF_CHANNEL)),
            (AVP_RF_CHANNEL, be16_vec(channel)),
        ];
        assert(items_view(items@) =~= wanted);
        let reply = self.transact(items);
        let ghost reply_view = message_result_view(reply);
        let r = match reply {
            Ok(_) => Ok(()),
            Err(e) => Err(e),
        };
        proof {
            lemma_command_then(
                before,
                *self,
                spec_request(before.id(), wanted),
                reply_view,
                r,
                |m: MessageView| Ok::<(), CommandError>(()),
            );
        }
        r
    }

    /// Gets whether Listen Before Talk is enabled (ETSI EN 302 208 readers only).
    pub fn cmd_get_lbt_mode(&mut self) -> (r: Result<bool, CommandError>)
        ensures
            command_done(
                *old(self),
                *final(self),
                spec_request(old(self).id(), cmd_get_lbt_mode_items()),
                r,
                |f: Seq<u8>| spec_then(spec_reply(f), |m: MessageView| spec_flag_value(m, AVP_BOOLEAN)),
            ),
    {
        let ghost before = *self;
        let ghost wanted = cmd_get_lbt_mode_items();
        let items = vec![
            (AVP_COMMAND_NAME, be16_vec(CMD_GET_LBT_MODE)),
        ];
        assert(items_view(items@) =~= wanted);
        let reply = self.transact(items);
        let ghost reply_view = message_result_view(reply);
        let r = match reply {
            Ok(response) => flag_value(&response, AVP_BOOLEAN),
            Err(e) => Err(e),
        };
        proof {
            lemma_command_then(
                before,
                *self,
                spec_request(before.id(), wanted),
                reply_view,
                r,
                |m: MessageView| spec_flag_value(m, AVP_BOOLEAN),
            );
        }
        r
    }

    /// Enables or disables Listen Before Talk (ETSI EN 302 208 readers only).
    pub fn cmd_set_lbt_mode(
        &mut self,
        enabled: bool,
    ) -> (r: Result<(), CommandError>)
        ensures
            command_done(
                *old(self),
                *final(self),
                spec_request(old(self).id(), cmd_set_lbt_mode_items(enabled)),
                r,
                |f: Seq<u8>| spec_then(spec_reply(f), |m: MessageView| Ok::<(), CommandError>(())),
            ),
    {
        let ghost before = *self;
        let ghost wanted = cmd_set_lbt_mode_items(enabled);
        let items = vec![
            (AVP_COMMAND_NAME, be16_vec(CMD_SET_LBT_MODE)),
            (AVP_BOOLEAN, be16_vec(if enabled { 1u16 } else { 0u16 })),
        ];
        assert(items_view(items@) =~= wanted);
        let reply = self.transact(items);
        let ghost reply_view = message_result_view(reply);
        let r = match reply {
            Ok(_) => Ok(()),
            Err(e) => Err(e),
        };
        proof {
            lemma_command_then(
                before,
                *self,
                spec_request(before.id(), wanted),
                reply_view,
                r,
                |m: MessageView| Ok::<(), CommandError>(()),
            );
        }
        r
    }

    /// Gets the RF regulation the reader follows.
    pub fn cmd_get_rf_regulation(&mut self) -> (r: Result<RFRegulation, CommandError>)
        ensures
            command_done(
                *old(self),
                *final(self),
                spec_request(old(self).id(), cmd_get_rf_regulation_items()),
                r,
                |f: Seq<u8>| spec_then(spec_reply(f), |m: MessageView| spec_decode_rf_regulation(m)),
            ),
    {
        let ghost before = *self;
        let ghost wanted = cmd_get_rf_regulation_items();
        let items = vec![
            (AVP_COMMAND_NAME, be16_vec(CMD_GET_RF_REGULATION)),
        ];
        assert(items_view(items@) =~= wanted);
        let reply = self.transact(items);
        let ghost reply_view = message_result_view(reply);
        let r = match reply {
            Ok(response) => decode_rf_regulation(&response),
            Err(e) => Err(e),
        };
        proof {
            lemma_command_then(
                before,
                *self,
                spec_request(before.id(), wanted),
                reply_view,
                r,
                |m: MessageView| spec_decode_rf_regulation(m),
            );
        }
        r
    }

    /// Starts or stops a continuous RF wave, for test and measurement.
    pub fn cmd_rf_on_off(
        &mut self,
        enabled: bool,
    ) -> (r: Result<(), CommandError>)
        ensures
            command_done(
                *old(self),
                *final(self),
                spec_request(old(self).id(), cmd_rf_on_off_items(enabled)),
                r,
                |f: Seq<u8>| spec_then(spec_reply(f), |m: MessageView| Ok::<(), CommandError>(())),
            ),
    {
        let ghost before = *self;
        let ghost wanted = cmd_rf_on_off_items(enabled);
        let items = vec![
            (AVP_COMMAND_NAME, be16_vec(CMD_RF_ON_OFF)),
            (AVP_RF_ON_OFF, be16_vec(if enabled { 1u16 } else { 0u16 })),
        ];
        assert(items_view(items@) =~= wanted);
        let reply = self.transact(items);
        let ghost reply_view = message_result_view(reply);
        let r = match reply {
            Ok(_) => Ok(()),
            Err(e) => Err(e),
        };
        proof {
            lemma_command_then(
                before,
                *self,
                spec_request(before.id(), wanted),
                reply_view,
                r,
                |m: MessageView| Ok::<(), CommandError>(()),
            );
        }
        r
    }

    /// Gets the firmware release of the reader, without zero bytes.
    pub fn cmd_get_firmware_release(&mut self) -> (r: Result<String, CommandError>)
        ensures
            command_done(
                *old(self),
                *final(self),
                spec_request(old(self).id(), cmd_get_firmware_release_items()),
                text_result_view(r),
                |f: Seq<u8>| spec_then(spec_reply(f), |m: MessageView| spec_text_value(m, AVP_FW_RELEASE)),
            ),
    {
        let ghost before = *self;
        let ghost wanted = cmd_get_firmware_release_items();
        let items = vec![
            (AVP_COMMAND_NAME, be16_vec(CMD_GET_FIRMWARE_RELEASE)),
        ];
        assert(items_view(items@) =~= wanted);
        let reply = self.transact(items);
        let ghost reply_view = message_result_view(reply);
        let r = match reply {
            Ok(response) => text_value(&response, AVP_FW_RELEASE),
            Err(e) => Err(e),
        };
        proof {
            lemma_command_then(
                before,
                *self,
                spec_request(before.id(), wanted),
                reply_view,
                text_result_view(r),
                |m: MessageView| spec_text_value(m, AVP_FW_RELEASE),
            );
        }
        r
    }

    /// Gets the reader's model and serial number, without zero bytes.
    pub fn cmd_get_reader_info(&mut self) -> (r: Result<String, CommandError>)
        ensures
            command_done(
                *old(self),
                *final(self),
                spec_request(old(self).id(), cmd_get_reader_info_items()),
                text_result_view(r),
                |f: Seq<u8>| spec_then(spec_reply(f), |m: MessageView| spec_text_value(m, AVP_READER_INFO)),
            ),
    {
        let ghost before = *self;
        let ghost wanted = cmd_get_reader_info_items();
        let items = vec![
            (AVP_COMMAND_NAME, be16_vec(CMD_GET_READER_INFO)),
        ];
        assert(items_view(items@) =~= wanted);
        let reply = self.transact(items);
        let ghost reply_view = message_result_view(reply);
        let r = match reply {
            Ok(response) => text_value(&response, AVP_READER_INFO),
            Err(e) => Err(e),
        };
        proof {
            lemma_command_then(
                before,
                *self,
                spec_request(before.id(), wanted),
                reply_view,
                text_result_view(r),
                |m: MessageView| spec_text_value(m, AVP_READER_INFO),
            );
        }
        r
    }

    /// Sets the serial port of the reader: baud rate, data bits, stop bits, parity and flow control.
    pub fn cmd_set_rs232(
        &mut self,
        baud_rate: u32,
        data_bits: u32,
        stop_bits: u32,
        parity: Parity,
        flow_ctlr: FlowCtrl,
    ) -> (r: Result<(), CommandError>)
        ensures
            command_done(
                *old(self),
                *final(self),
                spec_request(old(self).id(), cmd_set_rs232_items(baud_rate, data_bits, stop_bits, parity, flow_ctlr)),
                r,
                |f: Seq<u8>| spec_then(spec_reply(f), |m: MessageView| Ok::<(), CommandError>(())),
            ),
    {
        let ghost before = *self;
        let ghost wanted = cmd_set_rs232_items(baud_rate, data_bits, stop_bits, parity, flow_ctlr);
        let items = vec![
            (AVP_COMMAND_NAME, be16_vec(CMD_SET_RS232)),
            (AVP_BAUD_RATE, be32_vec(baud_rate)),
            (AVP_DATA_BITS, be32_vec(data_bits)),
            (AVP_STOP_BITS, be32_vec(stop_bits)),
            (AVP_PARITY, be32_vec(parity.code())),
            (AVP_FLOW_CTRL, be32_vec(flow_ctlr.code())),
        ];
        assert(items_view(items@) =~= wanted);
        let reply = self.transact(items);
        let ghost reply_view = message_result_view(reply);
        let r = match reply {
            Ok(_) => Ok(()),
            Err(e) => Err(e),
        };
        proof {
            lemma_command_then(
                before,
                *self,
                spec_request(before.id(), wanted),
                reply_view,
                r,
                |m: MessageView| Ok::<(), CommandError>(()),
            );
        }
        r
    }

    /// Gets the I/O register: inputs on the low bits, outputs on the high bits.
    pub fn cmd_get_io(&mut self) -> (r: Result<u32, CommandError>)
        ensures
            command_done(
                *old(self),
                *final(self),
                spec_request(old(self).id(), cmd_get_io_items()),
                r,
                |f: Seq<u8>| spec_then(spec_reply(f), |m: MessageView| spec_u32_value(m, AVP_IO_REGISTER)),
            ),
    {
        let ghost before = *self;
        let ghost wanted = cmd_get_io_items();
        let items = vec![
            (AVP_COMMAND_NAME, be16_vec(CMD_GET_IO)),
        ];
        assert(items_view(items@) =~= wanted);
        let reply = self.transact(items);
        let ghost reply_view = message_result_view(reply);
        let r = match reply {
            Ok(response) => u32_value(&response, AVP_IO_REGISTER),
            Err(e) => Err(e),
        };
        proof {
            lemma_command_then(
                before,
                *self,
                spec_request(before.id(), wanted),
                reply_view,
                r,
                |m: MessageView| spec_u32_value(m, AVP_IO_REGISTER),
            );
        }
        r
    }

    /// Sets the level of the output lines.
    pub fn cmd_set_io(
        &mut self,
        io_register: u32,
    ) -> (r: Result<(), CommandError>)
        ensures
            command_done(
                *old(self),
                *final(self),
                spec_request(old(self).id(), cmd_set_io_items(io_register)),
                r,
                |f: Seq<u8>| spec_then(spec_reply(f), |m: MessageView| Ok::<(), CommandError>(())),
            ),
    {
        let ghost before = *self;
        let ghost wanted = cmd_set_io_items(io_register);
        let items = vec![
            (AVP_COMMAND_NAME, be16_vec(CMD_SET_IO)),
            (AVP_IO_REGISTER, be32_vec(io_register)),
        ];
        assert(items_view(items@) =~= wanted);
        let reply = self.transact(items);
        let ghost reply_view = message_result_view(reply);
        let r = match reply {
            Ok(_) => Ok(()),
            Err(e) => Err(e),
        };
        proof {
            lemma_command_then(
                before,
                *self,
                spec_request(before.id(), wanted),
                reply_view,
                r,
                |m: MessageView| Ok::<(), CommandError>(()),
            );
        }
        r
    }

    /// Gets the direction of the I/O lines: a bit is 0 for input, 1 for output.
    pub fn cmd_get_io_direction(&mut self) -> (r: Result<u32, CommandError>)
        ensures
            command_done(
                *old(self),
                *final(self),
                spec_request(old(self).id(), cmd_get_io_direction_items()),
                r,
                |f: Seq<u8>| spec_then(spec_reply(f), |m: MessageView| spec_u32_value(m, AVP_IO_REGISTER)),
            ),
    {
        let ghost before = *self;
        let ghost wanted = cmd_get_io_direction_items();
        let items = vec![
            (AVP_COMMAND_NAME, be16_vec(CMD_GET_IO_DIRECTION)),
        ];
        assert(items_view(items@) =~= wanted);
        let reply = self.transact(items);
        let ghost reply_view = message_result_view(reply);
        let r = match reply {
            Ok(response) => u32_value(&response, AVP_IO_REGISTER),
            Err(e) => Err(e),
        };
        proof {
            lemma_command_then(
                before,
                *self,
                spec_request(before.id(), wanted),
                reply_view,
                r,
                |m: MessageView| spec_u32_value(m, AVP_IO_REGISTER),
            );
        }
        r
    }

    /// Sets the direction of the I/O lines: a bit is 0 for input, 1 for output.
    pub fn cmd_set_io_direction(
        &mut self,
        io_register: u32,
    ) -> (r: Result<(), CommandError>)
        ensures
            command_done(
                *old(self),
                *final(self),
                spec_request(old(self).id(), cmd_set_io_direction_items(io_register)),
                r,
                |f: Seq<u8>| spec_then(spec_reply(f), |m: MessageView| Ok::<(), CommandError>(())),
            ),
    {
        let ghost before = *self;
        let ghost wanted = cmd_set_io_direction_items(io_register);
        let items = vec![
            (AVP_COMMAND_NAME, be16_vec(CMD_SET_IO_DIRECTION)),
            (AVP_IO_REGISTER, be32_vec(io_register)),
        ];
        assert(items_view(items@) =~= wanted);
        let reply = self.transact(items);
        let ghost reply_view = message_result_view(reply);
        let r = match reply {
            Ok(_) => Ok(()),
            Err(e) => Err(e),
        };
        proof {
            lemma_command_then(
                before,
                *self,
                spec_request(before.id(), wanted),
                reply_view,
                r,
                |m: MessageView| Ok::<(), CommandError>(()),
            );
        }
        r
    }

    /// Gets a configuration parameter of a logical source.
    pub fn cmd_get_source_config(
        &mut self,
        source_name: &str,
        param: ConfigParameter,
    ) -> (r: Result<u32, CommandError>)
        ensures
            command_done(
                *old(self),
                *final(self),
                spec_request(old(self).id(), cmd_get_source_config_items(source_name, param)),
                r,
                |f: Seq<u8>| spec_then(spec_reply(f), |m: MessageView| spec_u32_value(m, AVP_CONFIG_VALUE)),
            ),
    {
        let ghost before = *self;
        let ghost wanted = cmd_get_source_config_items(source_name, param);
        let items = vec![
            (AVP_COMMAND_NAME, be16_vec(CMD_GET_SOURCE_CONFIG)),
            (AVP_SOURCE_NAME, null_terminate(source_name)),
            (AVP_CONFIG_PARAMETER, be32_vec(param.code())),
        ];
        assert(items_view(items@) =~= wanted);
        let reply = self.transact(items);
        let ghost reply_view = message_result_view(reply);
        let r = match reply {
            Ok(response) => u32_value(&response, AVP_CONFIG_VALUE),
            Err(e) => Err(e),
        };
        proof {
            lemma_command_then(
                before,
                *self,
                spec_request(before.id(), wanted),
                reply_view,
                r,
                |m: MessageView| spec_u32_value(m, AVP_CONFIG_VALUE),
            );
        }
        r
    }

    /// Sets a configuration parameter of a logical source.
    pub fn cmd_set_source_config(
        &mut self,
        source_name: &str,
        param: ConfigParameter,
        value: u32,
    ) -> (r: Result<(), CommandError>)
        ensures
            command_done(
                *old(self),
                *final(self),
                spec_request(old(self).id(), cmd_set_source_config_items(source_name, param, value)),
                r,
                |f: Seq<u8>| spec_then(spec_reply(f), |m: MessageView| Ok::<(), CommandError>(())),
            ),
    {
        let ghost before = *self;
        let ghost wanted = cmd_set_source_config_items(source_name, param, value);
        let items = vec![
            (AVP_COMMAND_NAME, be16_vec(CMD_SET_SOURCE_CONFIG)),
            (AVP_SOURCE_NAME, null_terminate(source_name)),
            (AVP_CONFIG_PARAMETER, be32_vec(param.code())),
            (AVP_CONFIG_VALUE, be32_vec(value)),
        ];
        assert(items_view(items@) =~= wanted);
        let reply = self.transact(items);
        let ghost reply_view = message_result_view(reply);
        let r = match reply {
            Ok(_) => Ok(()),
            Err(e) => Err(e),
        };
        proof {
            lemma_command_then(
                before,
                *self,
                spec_request(before.id(), wanted),
                reply_view,
                r,
                |m: MessageView| Ok::<(), CommandError>(()),
            );
        }
        r
    }

    /// Checks the quality of the antenna connection of a read point.
    pub fn cmd_check_read_point_status(
        &mut self,
        read_point_name: &str,
    ) -> (r: Result<ReadPointStatus, CommandError>)
        ensures
            command_done(
                *old(self),
                *final(self),
                spec_request(old(self).id(), cmd_check_read_point_status_items(read_point_name)),
                r,
                |f: Seq<u8>| spec_then(spec_reply(f), |m: MessageView| spec_decode_read_point_status(m)),
            ),
    {
        let ghost before = *self;
        let ghost wanted = cmd_check_read_point_status_items(read_point_name);
        let items = vec![
            (AVP_COMMAND_NAME, be16_vec(CMD_CHECK_READ_POINT_STATUS)),
            (AVP_READ_POINT_NAME, null_terminate(read_point_name)),
        ];
        assert(items_view(items@) =~= wanted);
        let reply = self.transact(items);
        let ghost reply_view = message_result_view(reply);
        let r = match reply {
            Ok(response) => decode_read_point_status(&response),
            Err(e) => Err(e),
        };
        proof {
            lemma_command_then(
                before,
                *self,
                spec_request(before.id(), wanted),
                reply_view,
                r,
                |m: MessageView| spec_decode_read_point_status(m),
            );
        }
        r
    }

    /// Adds a read point (antenna) to a logical source.
    pub fn cmd_add_read_point_to_source(
        &mut self,
        source_name: &str,
        read_point_name: &str,
    ) -> (r: Result<(), CommandError>)
        ensures
            command_done(
                *old(self),
                *final(self),
                spec_request(old(self).id(), cmd_add_read_point_to_source_items(source_name, read_point_name)),
                r,
                |f: Seq<u8>| spec_then(spec_reply(f), |m: MessageView| Ok::<(), CommandError>(())),
            ),
    {
        let ghost before = *self;
        let ghost wanted = cmd_add_read_point_to_source_items(source_name, read_point_name);
        let items = vec![
            (AVP_COMMAND_NAME, be16_vec(CMD_ADD_READ_POINT_TO_SOURCE)),
            (AVP_SOURCE_NAME, null_terminate(source_name)),
            (AVP_READ_POINT_NAME, null_terminate(read_point_name)),
        ];
        assert(items_view(items@) =~= wanted);
        let reply = self.transact(items);
        let ghost reply_view = message_result_view(reply);
        let r = match reply {
            Ok(_) => Ok(()),
            Err(e) => Err(e),
        };
        proof {
            lemma_command_then(
                before,
                *self,
                spec_request(before.id(), wanted),
                reply_view,
                r,
                |m: MessageView| Ok::<(), CommandError>(()),
            );
        }
        r
    }

    /// Removes a read point (antenna) from a logical source.
    pub fn cmd_remove_read_point_from_source(
        &mut self,
        source_name: &str,
        read_point_name: &str,
    ) -> (r: Result<(), CommandError>)
        ensures
            command_done(
                *old(self),
                *final(self),
                spec_request(old(self).id(), cmd_remove_read_point_from_source_items(source_name, read_point_name)),
                r,
                |f: Seq<u8>| spec_then(spec_reply(f), |m: MessageView| Ok::<(), CommandError>(())),
            ),
    {
        let ghost before = *self;
        let ghost wanted = cmd_remove_read_point_from_source_items(source_name, read_point_name);
        let items = vec![
            (AVP_COMMAND_NAME, be16_vec(CMD_REMOVE_READ_POINT_FROM_SOURCE)),
            (AVP_SOURCE_NAME, null_terminate(source_name)),
            (AVP_READ_POINT_NAME, null_terminate(read_point_name)),
        ];
        assert(items_view(items@) =~= wanted);
        let reply = self.transact(items);
        let ghost reply_view = message_result_view(reply);
        let r = match reply {
            Ok(_) => Ok(()),
            Err(e) => Err(e),
        };
        proof {
            lemma_command_then(
                before,
                *self,
                spec_request(before.id(), wanted),
                reply_view,
                r,
                |m: MessageView| Ok::<(), CommandError>(()),
            );
        }
        r
    }

    /// Reads `length` bytes (an even number) from a memory bank of a Gen2 tag,
    /// starting at `tag_address`, with an optional access password.
    pub fn cmd_read_tag_data_epc_c1g2(
        &mut self,
        source_name: &str,
        tag_id: &[u8],
        memory_bank: MemoryBank,
        tag_address: u16,
        length: u16,
        passwd: Option<u32>,
    ) -> (r: Result<Vec<u8>, CommandError>)
        ensures
            command_done(
                *old(self),
                *final(self),
                spec_request(old(self).id(), cmd_read_tag_data_epc_c1g2_items(source_name, tag_id, memory_bank, tag_address, length, passwd)),
                bytes_result_view(r),
                |f: Seq<u8>| spec_then(spec_reply(f), |m: MessageView| spec_bytes_value(m, AVP_TAG_VALUE)),
            ),
    {
        let ghost before = *self;
        let ghost wanted = cmd_read_tag_data_epc_c1g2_items(source_name, tag_id, memory_bank, tag_address, length, passwd);
        let mut items = vec![
            (AVP_COMMAND_NAME, be16_vec(CMD_READ_TAG_DATA_EPC_C1G2)),
            (AVP_SOURCE_NAME, null_terminate(source_name)),
            (AVP_TAG_ID, bytes_vec(tag_id)),
            (AVP_MEMORY_BANK, be16_vec(memory_bank.code())),
            (AVP_TAG_ADDRESS, be16_vec(tag_address)),
            (AVP_LENGTH, be16_vec(length)),
        ];
        match passwd {
            Some(pwd) => items.push((AVP_G2_PASSWORD, be32_vec(pwd))),
            None => {},
        }
        assert(items_view(items@) =~= wanted);
        let reply = self.transact(items);
        let ghost reply_view = message_result_view(reply);
        let r = match reply {
            Ok(response) => bytes_value(&response, AVP_TAG_VALUE),
            Err(e) => Err(e),
        };
        proof {
            lemma_command_then(
                before,
                *self,
                spec_request(before.id(), wanted),
                reply_view,
                bytes_result_view(r),
                |m: MessageView| spec_bytes_value(m, AVP_TAG_VALUE),
            );
        }
        r
    }

    /// Writes `data` (an even number of bytes) to a memory bank of a Gen2 tag,
    /// starting at `tag_address`, with an optional access password.
    pub fn cmd_write_tag_data_epc_c1g2(
        &mut self,
        source_name: &str,
        tag_id: &[u8],
        memory_bank: MemoryBank,
        tag_address: u16,
        data: &[u8],
        passwd: Option<u32>,
    ) -> (r: Result<(), CommandError>)
        ensures
            command_done(
                *old(self),
                *final(self),
                spec_request(old(self).id(), cmd_write_tag_data_epc_c1g2_items(source_name, tag_id, memory_bank, tag_address, data, passwd)),
                r,
                |f: Seq<u8>| spec_then(spec_reply(f), |m: MessageView| Ok::<(), CommandError>(())),
            ),
    {
        let ghost before = *self;
        let ghost wanted = cmd_write_tag_data_epc_c1g2_items(source_name, tag_id, memory_bank, tag_address, data, passwd);
        let mut items = vec![
            (AVP_COMMAND_NAME, be16_vec(CMD_WRITE_TAG_DATA_EPC_C1G2)),
            (AVP_SOURCE_NAME, null_terminate(source_name)),
            (AVP_TAG_ID, bytes_vec(tag_id)),
            (AVP_MEMORY_BANK, be16_vec(memory_bank.code())),
            (AVP_TAG_ADDRESS, be16_vec(tag_address)),
            (AVP_TAG_VALUE, bytes_vec(data)),
        ];
        match passwd {
            Some(pwd) => items.push((AVP_G2_PASSWORD, be32_vec(pwd))),
            None => {},
        }
        assert(items_view(items@) =~= wanted);
        let reply = self.transact(items);
        let ghost reply_view = message_result_view(reply);
        let r = match reply {
            Ok(_) => Ok(()),
            Err(e) => Err(e),
        };
        proof {
            lemma_command_then(
                before,
                *self,
                spec_request(before.id(), wanted),
                reply_view,
                r,
                |m: MessageView| Ok::<(), CommandError>(()),
            );
        }
        r
    }
}

/// The bytes of a built request end with the bytes of the AVP built from its
/// last item: reserved 0, length 6 plus the value's length, the item's type,
/// then the value itself.
proof fn lemma_request_ends_with_last_item(message_id: u16, items: Seq<(u16, Seq<u8>)>)
    requires
        items.len() > 0,
        spec_request(message_id, items) is Ok,
    ensures
        ({
            let bytes = spec_request(message_id, items)->Ok_0;
            let last = items[items.len() - 1];
            let n = 6 + last.1.len();
            &&& n <= bytes.len()
            &&& bytes.subrange(bytes.len() - n, bytes.len() as int) == be16_bytes(0) + be16_bytes(
                n as u16,
            ) + be16_bytes(last.0) + last.1
        }),
{
    let bytes = spec_request(message_id, items)->Ok_0;
    let avps = items_avps(items);
    let m = spec_message_new(message_id, avps)->Ok_0;
    let last = items[items.len() - 1];
    let a = avps.last();
    assert(a == spec_avp_new(last.0, last.1)->Ok_0);
    let tail = spec_avp_bytes(a);
    let head = spec_header_bytes(m.header) + spec_avps_bytes(avps.drop_last());
    assert(bytes =~= head + tail);
    assert(tail.len() == 6 + last.1.len());
    assert(bytes.subrange(bytes.len() - tail.len(), bytes.len() as int) =~= tail);
}

/// The access password of a tag-data write: with `Some(p)` the request's
/// AVPs are the six fixed ones and then, last, one of type 0x0073 holding
/// the four big-endian bytes of `p`, the only AVP of that type; the request
/// bytes end with that AVP, `00 00 00 0A 00 73` and `p`. With `None` the
/// request holds the six fixed AVPs and none of type 0x0073. The request
/// names command 0x0097.
pub proof fn lemma_write_tag_data_password(
    message_id: u16,
    source_name: &str,
    tag_id: &[u8],
    memory_bank: MemoryBank,
    tag_address: u16,
    data: &[u8],
    passwd: Option<u32>,
)
    ensures
        ({
            let items = cmd_write_tag_data_epc_c1g2_items(
                source_name,
                tag_id,
                memory_bank,
                tag_address,
                data,
                passwd,
            );
            &&& items[0] == (0x0001u16, seq![0x00u8, 0x97u8])
            &&& forall|i: int| 0 <= i < 6 ==> #[trigger] items[i].0 != 0x0073u16
            &&& match passwd {
                Some(p) => {
                    &&& items.len() == 7
                    &&& items[6].0 == 0x0073u16
                    &&& items[6].1.len() == 4
                    &&& be32_at(items[6].1, 0) == p
                    &&& (spec_request(message_id, items) matches Ok(bytes) ==> {
                        &&& bytes.len() >= 10
                        &&& bytes.subrange(bytes.len() - 10, bytes.len() - 4) == seq![
                            0x00u8,
                            0x00u8,
                            0x00u8,
                            0x0Au8,
                            0x00u8,
                            0x73u8,
                        ]
                        &&& be32_at(bytes, bytes.len() - 4) == p
                    })
                },
                None => items.len() == 6,
            }
        }),
{
    let items = cmd_write_tag_data_epc_c1g2_items(
        source_name,
        tag_id,
        memory_bank,
        tag_address,
        data,
        passwd,
    );
    assert(items.skip(6) =~= spec_password_item(passwd));
    lemma_password_request(message_id, items, passwd);
}

/// The access password of a tag-data read, as for a write: with `Some(p)`
/// the request's last AVP, after the six fixed ones, is the only one of type
/// 0x0073 and holds the four big-endian bytes of `p`, and the request bytes
/// end with `00 00 00 0A 00 73` and `p`; with `None` there is no such AVP.
/// The request names command 0x0096.
pub proof fn lemma_read_tag_data_password(
    message_id: u16,
    source_name: &str,
    tag_id: &[u8],
    memory_bank: MemoryBank,
    tag_address: u16,
    length: u16,
    passwd: Option<u32>,
)
    ensures
        ({
            let items = cmd_read_tag_data_epc_c1g2_items(
                source_name,
                tag_id,
                memory_bank,
                tag_address,
                length,
                passwd,
            );
            &&& items[0] == (0x0001u16, seq![0x00u8, 0x96u8])
            &&& forall|i: int| 0 <= i < 6 ==> #[trigger] items[i].0 != 0x0073u16
            &&& match passwd {
                Some(p) => {
                    &&& items.len() == 7
                    &&& items[6].0 == 0x0073u16
                    &&& items[6].1.len() == 4
                    &&& be32_at(items[6].1, 0) == p
                    &&& (spec_request(message_id, items) matches Ok(bytes) ==> {
                        &&& bytes.len() >= 10
                        &&& bytes.subrange(bytes.len() - 10, bytes.len() - 4) == seq![
                            0x00u8,
                            0x00u8,
                            0x00u8,
                            0x0Au8,
                            0x00u8,
                            0x73u8,
                        ]
                        &&& be32_at(bytes, bytes.len() - 4) == p
                    })
                },
                None => items.len() == 6,
            }
        }),
{
    let items = cmd_read_tag_data_epc_c1g2_items(
        source_name,
        tag_id,
        memory_bank,
        tag_address,
        length,
        passwd,
    );
    assert(items.skip(6) =~= spec_password_item(passwd));
    lemma_password_request(message_id, items, passwd);
}

/// The request bytes of items whose seventh and last item is the password
/// item end with that AVP.
proof fn lemma_password_request(
    message_id: u16,
    items: Seq<(u16, Seq<u8>)>,
    passwd: Option<u32>,
)
    requires
        items.len() >= 6,
        items.len() == 6 + spec_password_item(passwd).len(),
        items.skip(6) == spec_password_item(passwd),
    ensures
        passwd matches Some(p) ==> {
            &&& items[6].1.len() == 4
            &&& be32_at(items[6].1, 0) == p
            &&& (spec_request(message_id, items) matches Ok(bytes) ==> {
                &&& bytes.len() >= 10
                &&& bytes.subrange(bytes.len() - 10, bytes.len() - 4) == seq![
                    0x00u8,
                    0x00u8,
                    0x00u8,
                    0x0Au8,
                    0x00u8,
                    0x73u8,
                ]
                &&& be32_at(bytes, bytes.len() - 4) == p
            })
        },
{
    if let Some(p) = passwd {
        assert(items[6] == items.skip(6)[0]);
        assert(items[6] == (AVP_G2_PASSWORD, be32_bytes(p)));
        lemma_be32_roundtrip(p, Seq::empty());
        assert(be32_bytes(p) + Seq::<u8>::empty() =~= be32_bytes(p));
        if spec_request(message_id, items) is Ok {
            let bytes = spec_request(message_id, items)->Ok_0;
            lemma_request_ends_with_last_item(message_id, items);
            let tail = be16_bytes(0) + be16_bytes(10u16) + be16_bytes(0x0073u16) + be32_bytes(p);
            assert(bytes.subrange(bytes.len() - 10, bytes.len() as int) == tail);
            assert(tail.subrange(0, 6) =~= seq![0x00u8, 0x00u8, 0x00u8, 0x0Au8, 0x00u8, 0x73u8]);
            assert(bytes.subrange(bytes.len() - 10, bytes.len() - 4) =~= tail.subrange(0, 6));
            assert(tail.subrange(6, 10) =~= be32_bytes(p));
            assert(bytes[bytes.len() - 4] == tail[6]);
            assert(bytes[bytes.len() - 3] == tail[7]);
            assert(bytes[bytes.len() - 2] == tail[8]);
            assert(bytes[bytes.len() - 1] == tail[9]);
        }
    }
}

/// Setting listen-before-talk sends command 0x009F with one boolean AVP
/// (type 0x0057) whose two bytes are `00 01` to enable and `00 00` to
/// disable; a reply that carries those bytes in its boolean AVP is read by
/// the rule that getting the mode uses as `enabled`, so what is set is what
/// is got back; any other two leading bytes read as enabled unless both are
/// zero. Getting the mode sends command 0x00A0 alone.
pub proof fn lemma_lbt_mode_set_then_get(enabled: bool, m: MessageView)
    ensures
        cmd_set_lbt_mode_items(enabled) == seq![
            (0x0001u16, seq![0x00u8, 0x9Fu8]),
            (0x0057u16, seq![0x00u8, if enabled { 0x01u8 } else { 0x00u8 }]),
        ],
        cmd_get_lbt_mode_items() == seq![(0x0001u16, seq![0x00u8, 0xA0u8])],
        spec_find_avp(m.avps, 0x0057u16) matches Some(a) && a.value == cmd_set_lbt_mode_items(
            enabled,
        )[1].1 ==> spec_flag_value(m, AVP_BOOLEAN) == Ok::<bool, CommandError>(enabled),
        ({
            let v = spec_find_avp(m.avps, 0x0057u16)->Some_0.value;
            spec_find_avp(m.avps, 0x0057u16) is Some && v.len() >= 2 ==> spec_flag_value(
                m,
                AVP_BOOLEAN,
            ) == Ok::<bool, CommandError>(v[0] != 0 || v[1] != 0)
        }),
{
    assert(cmd_set_lbt_mode_items(enabled) =~= seq![
        (0x0001u16, seq![0x00u8, 0x9Fu8]),
        (0x0057u16, seq![0x00u8, if enabled { 0x01u8 } else { 0x00u8 }]),
    ]);
    assert(cmd_get_lbt_mode_items() =~= seq![(0x0001u16, seq![0x00u8, 0xA0u8])]);
}

/// Switching the RF wave sends command 0x0080 with one AVP of type 0x005F
/// whose two bytes are `00 01` to switch it on and `00 00` to switch it off:
/// their big-endian value is nonzero exactly when `enabled`.
pub proof fn lemma_rf_on_off_request(enabled: bool)
    ensures
        cmd_rf_on_off_items(enabled) == seq![
            (0x0001u16, seq![0x00u8, 0x80u8]),
            (0x005Fu16, seq![0x00u8, if enabled { 0x01u8 } else { 0x00u8 }]),
        ],
        (be16_at(cmd_rf_on_off_items(enabled)[1].1, 0) != 0) == enabled,
{
    assert(cmd_rf_on_off_items(enabled) =~= seq![
        (0x0001u16, seq![0x00u8, 0x80u8]),
        (0x005Fu16, seq![0x00u8, if enabled { 0x01u8 } else { 0x00u8 }]),
    ]);
}

/// Getting or setting a source's configuration sends command 0x008B or
/// 0x008A, the source's name with a terminating zero byte (AVP 0x00FB), and
/// the parameter's wire code as four big-endian bytes (AVP 0x006A); setting
/// adds the value as four big-endian bytes (AVP 0x006B). The wire codes are
/// those that [`lemma_config_parameter_wire_codes`] lists: for example
/// `ObservedThreshold` is sent as `00 00 00 01` and `LostThreshold` as
/// `00 00 00 02`.
pub proof fn lemma_source_config_requests(source_name: &str, param: ConfigParameter, value: u32)
    ensures
        ({
            let get = cmd_get_source_config_items(source_name, param);
            let set = cmd_set_source_config_items(source_name, param, value);
            &&& get.len() == 3
            &&& set.len() == 4
            &&& get[0] == (0x0001u16, seq![0x00u8, 0x8Bu8])
            &&& set[0] == (0x0001u16, seq![0x00u8, 0x8Au8])
            &&& get[1] == (0x00FBu16, source_name.spec_bytes().push(0))
            &&& set[1] == get[1]
            &&& get[2].0 == 0x006Au16
            &&& get[2].1.len() == 4
            &&& be32_at(get[2].1, 0) == param.spec_code()
            &&& set[2] == get[2]
            &&& set[3].0 == 0x006Bu16
            &&& set[3].1.len() == 4
            &&& be32_at(set[3].1, 0) == value
            &&& param == ConfigParameter::ObservedThreshold ==> get[2].1 == seq![
                0x00u8,
                0x00u8,
                0x00u8,
                0x01u8,
            ]
            &&& param == ConfigParameter::LostThreshold ==> get[2].1 == seq![
                0x00u8,
                0x00u8,
                0x00u8,
                0x02u8,
            ]
        }),
{
    lemma_be32_roundtrip(param.spec_code(), Seq::empty());
    lemma_be32_roundtrip(value, Seq::empty());
    assert(be32_bytes(param.spec_code()) + Seq::<u8>::empty() =~= be32_bytes(param.spec_code()));
    assert(be32_bytes(value) + Seq::<u8>::empty() =~= be32_bytes(value));
    lemma_config_parameter_wire_codes();
    assert(be32_bytes(1u32) =~= seq![0x00u8, 0x00u8, 0x00u8, 0x01u8]);
    assert(be32_bytes(2u32) =~= seq![0x00u8, 0x00u8, 0x00u8, 0x02u8]);
}

/// The request of [`Easy2ReadClient::cmd_get_protocol`] is command 0x0079
/// alone.
pub proof fn lemma_get_protocol_request()
    ensures
        ({
            let items = cmd_get_protocol_items();
            &&& items.len() == 1
            &&& items[0] == (0x0001u16, seq![0x00u8, 0x79u8])
        }),
{
}

/// The request of [`Easy2ReadClient::cmd_set_protocol`] is command 0x0074,
/// then, in order, `protocol` by its wire code as 4 big-endian bytes (AVP
/// 0x0054).
pub proof fn lemma_set_protocol_request(protocol: Protocol)
    ensures
        ({
            let items = cmd_set_protocol_items(protocol);
            &&& items.len() == 2
            &&& items[0] == (0x0001u16, seq![0x00u8, 0x74u8])
            &&& items[1].0 == 0x0054u16
            &&& items[1].1.len() == 4
            &&& be32_at(items[1].1, 0) == protocol.spec_code()
        }),
{
    lemma_be32_roundtrip(protocol.spec_code(), Seq::empty());
    assert(be32_bytes(protocol.spec_code()) + Seq::<u8>::empty() =~= be32_bytes(protocol.spec_code()));
}

/// The request of [`Easy2ReadClient::cmd_get_power`] is command 0x0073 alone.
pub proof fn lemma_get_power_request()
    ensures
        ({
            let items = cmd_get_power_items();
            &&& items.len() == 1
            &&& items[0] == (0x0001u16, seq![0x00u8, 0x73u8])
        }),
{
}

/// The request of [`Easy2ReadClient::cmd_set_power`] is command 0x0064, then,
/// in order, `power_mw` as 4 big-endian bytes (AVP 0x0096).
pub proof fn lemma_set_power_request(power_mw: u32)
    ensures
        ({
            let items = cmd_set_power_items(power_mw);
            &&& items.len() == 2
            &&& items[0] == (0x0001u16, seq![0x00u8, 0x64u8])
            &&& items[1].0 == 0x0096u16
            &&& items[1].1.len() == 4
            &&& be32_at(items[1].1, 0) == power_mw
        }),
{
    lemma_be32_roundtrip(power_mw, Seq::empty());
    assert(be32_bytes(power_mw) + Seq::<u8>::empty() =~= be32_bytes(power_mw));
}

/// The request of [`Easy2ReadClient::cmd_get_rf_channel`] is command 0x00A4
/// alone.
pub proof fn lemma_get_rf_channel_request()
    ensures
        ({
            let items = cmd_get_rf_channel_items();
            &&& items.len() == 1
            &&& items[0] == (0x0001u16, seq![0x00u8, 0xA4u8])
        }),
{
}

/// The request of [`Easy2ReadClient::cmd_set_rf_channel`] is command 0x00A3,
/// then, in order, `channel` as 2 big-endian bytes (AVP 0x0078).
pub proof fn lemma_set_rf_channel_request(channel: u16)
    ensures
        ({
            let items = cmd_set_rf_channel_items(channel);
            &&& items.len() == 2
            &&& items[0] == (0x0001u16, seq![0x00u8, 0xA3u8])
            &&& items[1].0 == 0x0078u16
            &&& items[1].1.len() == 2
            &&& be16_at(items[1].1, 0) == channel
        }),
{
    lemma_be16_roundtrip(channel, Seq::empty());
    assert(be16_bytes(channel) + Seq::<u8>::empty() =~= be16_bytes(channel));
}

/// The request of [`Easy2ReadClient::cmd_get_rf_regulation`] is command
/// 0x00A2 alone.
pub proof fn lemma_get_rf_regulation_request()
    ensures
        ({
            let items = cmd_get_rf_regulation_items();
            &&& items.len() == 1
            &&& items[0] == (0x0001u16, seq![0x00u8, 0xA2u8])
        }),
{
}

/// The request of [`Easy2ReadClient::cmd_get_firmware_release`] is command
/// 0x007C alone.
pub proof fn lemma_get_firmware_release_request()
    ensures
        ({
            let items = cmd_get_firmware_release_items();
            &&& items.len() == 1
            &&& items[0] == (0x0001u16, seq![0x00u8, 0x7Cu8])
        }),
{
}

/// The request of [`Easy2ReadClient::cmd_get_reader_info`] is command 0x009E
/// alone.
pub proof fn lemma_get_reader_info_request()
    ensures
        ({
            let items = cmd_get_reader_info_items();
            &&& items.len() == 1
            &&& items[0] == (0x0001u16, seq![0x00u8, 0x9Eu8])
        }),
{
}

/// The request of [`Easy2ReadClient::cmd_set_rs232`] is command 0x0083, then,
/// in order, `baud_rate` as 4 big-endian bytes (AVP 0x0060), `data_bits` as 4
/// big-endian bytes (AVP 0x0061), `stop_bits` as 4 big-endian bytes (AVP
/// 0x0062), `parity` by its wire code as 4 big-endian bytes (AVP 0x0063),
/// `flow_ctlr` by its wire code as 4 big-endian bytes (AVP 0x0064).
pub proof fn lemma_set_rs232_request(baud_rate: u32, data_bits: u32, stop_bits: u32, parity: Parity, flow_ctlr: FlowCtrl)
    ensures
        ({
            let items = cmd_set_rs232_items(baud_rate, data_bits, stop_bits, parity, flow_ctlr);
            &&& items.len() == 6
            &&& items[0] == (0x0001u16, seq![0x00u8, 0x83u8])
            &&& items[1].0 == 0x0060u16
            &&& items[1].1.len() == 4
            &&& be32_at(items[1].1, 0) == baud_rate
            &&& items[2].0 == 0x0061u16
            &&& items[2].1.len() == 4
            &&& be32_at(items[2].1, 0) == data_bits
            &&& items[3].0 == 0x0062u16
            &&& items[3].1.len() == 4
            &&& be32_at(items[3].1, 0) == stop_bits
            &&& items[4].0 == 0x0063u16
            &&& items[4].1.len() == 4
            &&& be32_at(items[4].1, 0) == parity.spec_code()
            &&& items[5].0 == 0x0064u16
            &&& items[5].1.len() == 4
            &&& be32_at(items[5].1, 0) == flow_ctlr.spec_code()
        }),
{
    lemma_be32_roundtrip(baud_rate, Seq::empty());
    assert(be32_bytes(baud_rate) + Seq::<u8>::empty() =~= be32_bytes(baud_rate));
    lemma_be32_roundtrip(data_bits, Seq::empty());
    assert(be32_bytes(data_bits) + Seq::<u8>::empty() =~= be32_bytes(data_bits));
    lemma_be32_roundtrip(stop_bits, Seq::empty());
    assert(be32_bytes(stop_bits) + Seq::<u8>::empty() =~= be32_bytes(stop_bits));
    lemma_be32_roundtrip(parity.spec_code(), Seq::empty());
    assert(be32_bytes(parity.spec_code()) + Seq::<u8>::empty() =~= be32_bytes(parity.spec_code()));
    lemma_be32_roundtrip(flow_ctlr.spec_code(), Seq::empty());
    assert(be32_bytes(flow_ctlr.spec_code()) + Seq::<u8>::empty() =~= be32_bytes(flow_ctlr.spec_code()));
}

/// The request of [`Easy2ReadClient::cmd_get_io`] is command 0x0086 alone.
pub proof fn lemma_get_io_request()
    ensures
        ({
            let items = cmd_get_io_items();
            &&& items.len() == 1
            &&& items[0] == (0x0001u16, seq![0x00u8, 0x86u8])
        }),
{
}

/// The request of [`Easy2ReadClient::cmd_set_io`] is command 0x0087, then, in
/// order, `io_register` as 4 big-endian bytes (AVP 0x0069).
pub proof fn lemma_set_io_request(io_register: u32)
    ensures
        ({
            let items = cmd_set_io_items(io_register);
            &&& items.len() == 2
            &&& items[0] == (0x0001u16, seq![0x00u8, 0x87u8])
            &&& items[1].0 == 0x0069u16
            &&& items[1].1.len() == 4
            &&& be32_at(items[1].1, 0) == io_register
        }),
{
    lemma_be32_roundtrip(io_register, Seq::empty());
    assert(be32_bytes(io_register) + Seq::<u8>::empty() =~= be32_bytes(io_register));
}

/// The request of [`Easy2ReadClient::cmd_get_io_direction`] is command 0x0089
/// alone.
pub proof fn lemma_get_io_direction_request()
    ensures
        ({
            let items = cmd_get_io_direction_items();
            &&& items.len() == 1
            &&& items[0] == (0x0001u16, seq![0x00u8, 0x89u8])
        }),
{
}

/// The request of [`Easy2ReadClient::cmd_set_io_direction`] is command
/// 0x0088, then, in order, `io_register` as 4 big-endian bytes (AVP 0x0069).
pub proof fn lemma_set_io_direction_request(io_register: u32)
    ensures
        ({
            let items = cmd_set_io_direction_items(io_register);
            &&& items.len() == 2
            &&& items[0] == (0x0001u16, seq![0x00u8, 0x88u8])
            &&& items[1].0 == 0x0069u16
            &&& items[1].1.len() == 4
            &&& be32_at(items[1].1, 0) == io_register
        }),
{
    lemma_be32_roundtrip(io_register, Seq::empty());
    assert(be32_bytes(io_register) + Seq::<u8>::empty() =~= be32_bytes(io_register));
}

/// The request of [`Easy2ReadClient::cmd_check_read_point_status`] is command
/// 0x0076, then, in order, `read_point_name` with a terminating zero byte
/// (AVP 0x0022).
pub proof fn lemma_check_read_point_status_request(read_point_name: &str)
    ensures
        ({
            let items = cmd_check_read_point_status_items(read_point_name);
            &&& items.len() == 2
            &&& items[0] == (0x0001u16, seq![0x00u8, 0x76u8])
            &&& items[1].0 == 0x0022u16
            &&& items[1].1 == read_point_name.spec_bytes().push(0)
        }),
{
}

/// The request of [`Easy2ReadClient::cmd_add_read_point_to_source`] is
/// command 0x005F, then, in order, `source_name` with a terminating zero byte
/// (AVP 0x00FB), `read_point_name` with a terminating zero byte (AVP 0x0022).
pub proof fn lemma_add_read_point_to_source_request(source_name: &str, read_point_name: &str)
    ensures
        ({
            let items = cmd_add_read_point_to_source_items(source_name, read_point_name);
            &&& items.len() == 3
            &&& items[0] == (0x0001u16, seq![0x00u8, 0x5Fu8])
            &&& items[1].0 == 0x00FBu16
            &&& items[1].1 == source_name.spec_bytes().push(0)
            &&& items[2].0 == 0x0022u16
            &&& items[2].1 == read_point_name.spec_bytes().push(0)
        }),
{
}

/// The request of [`Easy2ReadClient::cmd_remove_read_point_from_source`] is
/// command 0x0060, then, in order, `source_name` with a terminating zero byte
/// (AVP 0x00FB), `read_point_name` with a terminating zero byte (AVP 0x0022).
pub proof fn lemma_remove_read_point_from_source_request(source_name: &str, read_point_name: &str)
    ensures
        ({
            let items = cmd_remove_read_point_from_source_items(source_name, read_point_name);
            &&& items.len() == 3
            &&& items[0] == (0x0001u16, seq![0x00u8, 0x60u8])
            &&& items[1].0 == 0x00FBu16
            &&& items[1].1 == source_name.spec_bytes().push(0)
            &&& items[2].0 == 0x0022u16
            &&& items[2].1 == read_point_name.spec_bytes().push(0)
        }),
{
}

/// The request of [`Easy2ReadClient::cmd_read_tag_data_epc_c1g2`] is command
/// 0x0096, then, in order, `source_name` with a terminating zero byte (AVP
/// 0x00FB), `tag_id` as it is (AVP 0x0011), `memory_bank` by its wire code as
/// 2 big-endian bytes (AVP 0x0071), `tag_address` as 2 big-endian bytes (AVP
/// 0x004E), `length` as 2 big-endian bytes (AVP 0x0050); the optional
/// password follows (see the password laws).
pub proof fn lemma_read_tag_data_epc_c1g2_request(source_name: &str, tag_id: &[u8], memory_bank: MemoryBank, tag_address: u16, length: u16, passwd: Option<u32>)
    ensures
        ({
            let items = cmd_read_tag_data_epc_c1g2_items(source_name, tag_id, memory_bank, tag_address, length, passwd);
            &&& items.len() == 6 + (if passwd is Some { 1int } else { 0int })
            &&& items[0] == (0x0001u16, seq![0x00u8, 0x96u8])
            &&& items[1].0 == 0x00FBu16
            &&& items[1].1 == source_name.spec_bytes().push(0)
            &&& items[2].0 == 0x0011u16
            &&& items[2].1 == tag_id@
            &&& items[3].0 == 0x0071u16
            &&& items[3].1.len() == 2
            &&& be16_at(items[3].1, 0) == memory_bank.spec_code()
            &&& items[4].0 == 0x004Eu16
            &&& items[4].1.len() == 2
            &&& be16_at(items[4].1, 0) == tag_address
            &&& items[5].0 == 0x0050u16
            &&& items[5].1.len() == 2
            &&& be16_at(items[5].1, 0) == length
        }),
{
    lemma_be16_roundtrip(memory_bank.spec_code(), Seq::empty());
    assert(be16_bytes(memory_bank.spec_code()) + Seq::<u8>::empty() =~= be16_bytes(memory_bank.spec_code()));
    lemma_be16_roundtrip(tag_address, Seq::empty());
    assert(be16_bytes(tag_address) + Seq::<u8>::empty() =~= be16_bytes(tag_address));
    lemma_be16_roundtrip(length, Seq::empty());
    assert(be16_bytes(length) + Seq::<u8>::empty() =~= be16_bytes(length));
}

/// The request of [`Easy2ReadClient::cmd_write_tag_data_epc_c1g2`] is command
/// 0x0097, then, in order, `source_name` with a terminating zero byte (AVP
/// 0x00FB), `tag_id` as it is (AVP 0x0011), `memory_bank` by its wire code as
/// 2 big-endian bytes (AVP 0x0071), `tag_address` as 2 big-endian bytes (AVP
/// 0x004E), `data` as it is (AVP 0x004D); the optional password follows (see
/// the password laws).
pub proof fn lemma_write_tag_data_epc_c1g2_request(source_name: &str, tag_id: &[u8], memory_bank: MemoryBank, tag_address: u16, data: &[u8], passwd: Option<u32>)
    ensures
        ({
            let items = cmd_write_tag_data_epc_c1g2_items(source_name, tag_id, memory_bank, tag_address, data, passwd);
            &&& items.len() == 6 + (if passwd is Some { 1int } else { 0int })
            &&& items[0] == (0x0001u16, seq![0x00u8, 0x97u8])
            &&& items[1].0 == 0x00FBu16
            &&& items[1].1 == source_name.spec_bytes().push(0)
            &&& items[2].0 == 0x0011u16
            &&& items[2].1 == tag_id@
            &&& items[3].0 == 0x0071u16
            &&& items[3].1.len() == 2
            &&& be16_at(items[3].1, 0) == memory_bank.spec_code()
            &&& items[4].0 == 0x004Eu16
            &&& items[4].1.len() == 2
            &&& be16_at(items[4].1, 0) == tag_address
            &&& items[5].0 == 0x004Du16
            &&& items[5].1 == data@
        }),
{
    lemma_be16_roundtrip(memory_bank.spec_code(), Seq::empty());
    assert(be16_bytes(memory_bank.spec_code()) + Seq::<u8>::empty() =~= be16_bytes(memory_bank.spec_code()));
    lemma_be16_roundtrip(tag_address, Seq::empty());
    assert(be16_bytes(tag_address) + Seq::<u8>::empty() =~= be16_bytes(tag_address));
}

} // verus!
