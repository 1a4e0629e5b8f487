use vstd::prelude::*;
use vstd::utf8::{decode_utf8, encode_utf8, encode_utf8_decode_utf8, encode_utf8_valid_utf8, valid_utf8};

use crate::channel::DeliveryChannel;
pub use crate::error::HeaderError;
use crate::header::{
    fresh_header, header_bytes, header_wf, lemma_header_round_trip, parse_header,
    response_header_of, Header, HEADER_LEN,
};
use crate::pkt::PktType;
use crate::text::{string_bytes, string_from_utf8};

verus! {

/// What a message says on the wire: its header, its topic and its payload.
pub struct MsgModel {
    pub header: Header,
    pub topic: Seq<char>,
    pub message: Seq<u8>,
}

/// A packet: header, topic and payload, and two attachments that only live
/// inside the broker and never go on the wire: the delivery channel of the
/// connection it came from and that connection's client id.
#[derive(Debug, Clone)]
pub struct Msg {
    /// The header of the message.
    pub header: Header,
    /// The topic of the message.
    pub topic: String,
    /// The payload, opaque bytes.
    pub message: Vec<u8>,
    /// The channel through which the router reaches the sending connection.
    pub channel: Option<DeliveryChannel>,
    /// The id of the sending connection.
    pub client_id: Option<String>,
}

impl View for Msg {
    type V = MsgModel;

    open spec fn view(&self) -> MsgModel {
        MsgModel { header: self.header, topic: self.topic@, message: self.message@ }
    }
}

/// A message that the decoder accepts: a valid header whose lengths are those
/// of the topic's UTF-8 bytes and of the payload.
pub open spec fn msg_wf(m: MsgModel) -> bool {
    &&& header_wf(m.header)
    &&& encode_utf8(m.topic).len() == m.header.topic_length
    &&& m.message.len() == m.header.message_length
}

/// The bytes of a message on the wire: header, topic, payload.
pub open spec fn msg_bytes(m: MsgModel) -> Seq<u8> {
    header_bytes(m.header) + encode_utf8(m.topic) + m.message
}

/// Where the topic ends in a frame with header `h`.
pub open spec fn topic_end(h: Header) -> int {
    HEADER_LEN + h.topic_length
}

/// The number of bytes of a whole frame with header `h`.
pub open spec fn frame_len(h: Header) -> int {
    HEADER_LEN + h.topic_length + h.message_length
}

/// What decoding a message from the start of `b` yields. Bytes after the
/// frame are not looked at.
pub open spec fn parse_msg(b: Seq<u8>) -> Result<MsgModel, HeaderError> {
    match parse_header(b) {
        Err(e) => Err(e),
        Ok(h) => if b.len() < frame_len(h) {
            Err(HeaderError::InvalidMsgLength)
        } else if !valid_utf8(b.subrange(HEADER_LEN as int, topic_end(h))) {
            Err(HeaderError::InvalidTopicEncoding)
        } else {
            Ok(
                MsgModel {
                    header: h,
                    topic: decode_utf8(b.subrange(HEADER_LEN as int, topic_end(h))),
                    message: b.subrange(topic_end(h), frame_len(h)),
                },
            )
        },
    }
}

/// The message that `Msg::new` builds.
pub open spec fn new_msg(t: PktType, topic: Seq<char>, message: Seq<u8>) -> MsgModel {
    MsgModel {
        header: fresh_header(t, encode_utf8(topic).len() as u8, message.len() as u16),
        topic,
        message,
    }
}

/// The response to request `m` that carries `body`: the response header of
/// `m` with the length of `body`, and the topic of `m`.
pub open spec fn response_msg_of(m: MsgModel, body: Seq<u8>) -> Result<MsgModel, HeaderError> {
    match response_header_of(m.header) {
        Err(e) => Err(e),
        Ok(h) => if body.len() > u16::MAX {
            Err(HeaderError::InvalidMessageLength(body.len() as usize))
        } else {
            Ok(
                MsgModel {
                    header: Header { message_length: body.len() as u16, ..h },
                    topic: m.topic,
                    message: body,
                },
            )
        },
    }
}

/// Every message that the decoder accepts is decoded back from its own bytes.
pub proof fn lemma_msg_round_trip(m: MsgModel)
    requires
        msg_wf(m),
    ensures
        parse_msg(msg_bytes(m)) == Ok::<MsgModel, HeaderError>(m),
{
    let b = msg_bytes(m);
    let t = encode_utf8(m.topic);
    let h = m.header;
    lemma_header_round_trip(h);
    assert(b.subrange(0, 8) =~= header_bytes(h));
    assert(parse_header(b) == parse_header(header_bytes(h)));
    assert(b.subrange(HEADER_LEN as int, topic_end(h)) =~= t);
    assert(b.subrange(topic_end(h), frame_len(h)) =~= m.message);
    encode_utf8_valid_utf8(m.topic);
    encode_utf8_decode_utf8(m.topic);
}

/// Appends `more` to `buf`.
fn append_bytes(buf: &mut Vec<u8>, more: &[u8])
    ensures
        final(buf)@ == old(buf)@ + more@,
{
    let mut i: usize = 0;
    while i < more.len()
        invariant
            i <= more@.len(),
            buf@ == old(buf)@ + more@.subrange(0, i as int),
        decreases more@.len() - i,
    {
        buf.push(more[i]);
        i = i + 1;
        assert(more@.subrange(0, i as int) =~= more@.subrange(0, i - 1) + seq![more@[i - 1]]);
    }
    assert(more@.subrange(0, i as int) =~= more@);
}

impl Msg {
    /// Creates a message of the current version; its lengths are those of the
    /// topic's UTF-8 bytes and of the payload (empty when `None`).
    pub fn new(pkt_type: PktType, topic: String, message: Option<Vec<u8>>) -> (r: Msg)
        requires
            encode_utf8(topic@).len() <= u8::MAX,
            message matches Some(m) ==> m@.len() <= u16::MAX,
        ensures
            r@ == new_msg(
                pkt_type,
                topic@,
                match message {
                    Some(m) => m@,
                    None => Seq::empty(),
                },
            ),
            r.channel is None,
            r.client_id is None,
    {
        let msg: Vec<u8> = match message {
            Some(m) => m,
            None => Vec::new(),
        };
        let topic_len = topic.as_str().as_bytes().len() as u8;
        let message_len = msg.len() as u16;
        Msg {
            header: Header::new(pkt_type, topic_len, message_len),
            topic,
            message: msg,
            channel: None,
            client_id: None,
        }
    }

    /// Attaches the delivery channel of the sending connection.
    pub fn channel(&mut self, chan: DeliveryChannel)
        ensures
            final(self)@ == old(self)@,
            final(self).channel == Some(chan),
            final(self).client_id == old(self).client_id,
    {
        self.channel = Some(chan);
    }

    /// Attaches the id of the sending connection.
    pub fn client_id(&mut self, client_id: String)
        ensures
            final(self)@ == old(self)@,
            final(self).channel == old(self).channel,
            final(self).client_id == Some(client_id),
    {
        self.client_id = Some(client_id);
    }

    /// Builds the response to this request that carries `message`, without
    /// attachments. Fails for a response, and for a body longer than a
    /// message length can say.
    pub fn response_msg(&self, message: Vec<u8>) -> (r: Result<Msg, HeaderError>)
        ensures
            r is Ok <==> response_msg_of(self@, message@) is Ok,
            r matches Ok(m) ==> m@ == response_msg_of(self@, message@)->Ok_0 && m.channel is None
                && m.client_id is None,
            r matches Err(e) ==> response_msg_of(self@, message@) == Err::<MsgModel, HeaderError>(
                e,
            ),
    {
        let mut header = match self.header.response_header() {
            Ok(h) => h,
            Err(e) => {
                return Err(e);
            },
        };
        if message.len() > 65535 {
            return Err(HeaderError::InvalidMessageLength(message.len()));
        }
        header.message_length = message.len() as u16;
        Ok(
            Msg {
                header,
                topic: self.topic.clone(),
                message,
                channel: None,
                client_id: None,
            },
        )
    }

    /// Returns the bytes of this message on the wire.
    pub fn bytes(&self) -> (r: Vec<u8>)
        ensures
            r@ == msg_bytes(self@),
    {
        let hb = self.header.bytes();
        let mut buffer: Vec<u8> = Vec::new();
        append_bytes(&mut buffer, hb.as_slice());
        let tb = string_bytes(&self.topic);
        append_bytes(&mut buffer, tb.as_slice());
        append_bytes(&mut buffer, self.message.as_slice());
        assert(buffer@ =~= msg_bytes(self@));
        buffer
    }

    /// Decodes a message from the start of `bytes`, without attachments.
    pub fn try_from(bytes: &[u8]) -> (r: Result<Msg, HeaderError>)
        ensures
            r is Ok <==> parse_msg(bytes@) is Ok,
            r matches Ok(m) ==> m@ == parse_msg(bytes@)->Ok_0 && m.channel is None
                && m.client_id is None,
            r matches Err(e) ==> parse_msg(bytes@) == Err::<MsgModel, HeaderError>(e),
    {
        let header = match Header::parse(bytes) {
            Ok(h) => h,
            Err(e) => {
                return Err(e);
            },
        };
        let topic_end: usize = HEADER_LEN + header.topic_length as usize;
        let end: usize = topic_end + header.message_length as usize;
        if bytes.len() < end {
            return Err(HeaderError::InvalidMsgLength);
        }
        let topic_bytes = vstd::slice::slice_to_vec(
            vstd::slice::slice_subrange(bytes, HEADER_LEN, topic_end),
        );
        let topic = match string_from_utf8(topic_bytes) {
            Some(t) => t,
            None => {
                return Err(HeaderError::InvalidTopicEncoding);
            },
        };
        let message = vstd::slice::slice_to_vec(vstd::slice::slice_subrange(bytes, topic_end, end));
        Ok(Msg { header, topic, message, channel: None, client_id: None })
    }
}

/// Returns the acknowledgement of request `msg` on the wire: its response
/// header, its topic and its payload echoed. Fails for a response.
pub fn get_msg_response(msg: Msg) -> (r: Result<Vec<u8>, HeaderError>)
    ensures
        r is Ok <==> response_msg_of(msg@, msg.message@) is Ok,
        r matches Ok(b) ==> b@ == msg_bytes(response_msg_of(msg@, msg.message@)->Ok_0),
        r matches Err(e) ==> response_msg_of(msg@, msg.message@) == Err::<MsgModel, HeaderError>(e),
{
    let body = msg.message.clone();
    match msg.response_msg(body) {
        Ok(m) => Ok(m.bytes()),
        Err(e) => Err(e),
    }
}

impl PartialEq for Msg {
    /// Two messages are equal when header, topic and payload are; the
    /// attachments are not compared.
    fn eq(&self, other: &Self) -> (r: bool) {
        let same_payload = self.message == other.message;
        proof {
            if same_payload {
                assert(self.message@ =~= other.message@);
            }
        }
        self.header == other.header && self.topic == other.topic && same_payload
    }
}

impl vstd::std_specs::cmp::PartialEqSpecImpl for Msg {
    open spec fn obeys_eq_spec() -> bool {
        true
    }

    open spec fn eq_spec(&self, other: &Msg) -> bool {
        self@ == other@
    }
}

} // verus!
