use vstd::prelude::*;
use vstd::utf8::{decode_utf8, encode_utf8, valid_utf8};

use crate::error::HeaderError;
use crate::message::{msg_bytes, new_msg, Msg};
use crate::pkt::PktType;
use crate::text::{decimal, decimal_string, join, join_strings, string_from_utf8};

verus! {

/// Where a client finds a broker over TCP.
#[derive(Debug, Clone)]
pub struct PubSubTcpClient {
    /// Host of the broker, for example `127.0.0.1`.
    pub server: String,
    /// Port of the broker.
    pub port: u16,
    /// PEM file of the certificate to trust; TLS is used when it is given.
    pub cert: Option<String>,
    /// Password of the certificate.
    pub cert_password: Option<String>,
}

/// Where a client finds a broker over a local socket.
#[derive(Debug, Clone)]
pub struct PubSubUnixClient {
    /// Path of the socket file, for example `/tmp/simple-pub-sub.sock`.
    pub path: String,
}

/// Where a client finds its broker.
#[derive(Debug, Clone)]
pub enum PubSubClient {
    /// Over TCP, with or without TLS.
    Tcp(PubSubTcpClient),
    /// Over a local socket.
    Unix(PubSubUnixClient),
}

/// The payload that a query carries: a query must carry a non-empty one.
pub open spec fn query_filler() -> Seq<u8> {
    seq![0x20u8]
}

impl PubSubClient {
    /// The host of a TCP broker, or the socket path of a local one.
    pub fn server(&self) -> (r: &str)
        ensures
            r@ == match self {
                PubSubClient::Tcp(c) => c.server@,
                PubSubClient::Unix(c) => c.path@,
            },
    {
        match self {
            PubSubClient::Tcp(c) => c.server.as_str(),
            PubSubClient::Unix(c) => c.path.as_str(),
        }
    }
}

/// Encodes a request of kind `kind` on `topic` that carries `message`. Fails
/// when the topic's UTF-8 bytes or the payload are longer than a header can
/// say.
pub fn request_bytes(kind: PktType, topic: String, message: Vec<u8>) -> (r: Result<Vec<u8>, HeaderError>)
    ensures
        bytes_result(r, request_spec(kind, topic@, message@)),
{
    if topic.as_str().as_bytes().len() > 255 {
        return Err(HeaderError::InvalidTopicLength);
    }
    if message.len() > 65535 {
        return Err(HeaderError::InvalidMessageLength(message.len()));
    }
    let msg = Msg::new(kind, topic, Some(message));
    Ok(msg.bytes())
}

/// Encodes a publish of `message` on `topic`.
pub fn publish_request(topic: String, message: Vec<u8>) -> (r: Result<Vec<u8>, HeaderError>)
    ensures
        bytes_result(r, request_spec(PktType::PUBLISH, topic@, message@)),
{
    request_bytes(PktType::PUBLISH, topic, message)
}

/// Encodes a subscription to `topic`; it carries no payload.
pub fn subscribe_request(topic: String) -> (r: Result<Vec<u8>, HeaderError>)
    ensures
        bytes_result(r, request_spec(PktType::SUBSCRIBE, topic@, Seq::empty())),
{
    request_bytes(PktType::SUBSCRIBE, topic, Vec::new())
}

/// Encodes the end of a subscription to `topic`; it carries no payload.
pub fn unsubscribe_request(topic: String) -> (r: Result<Vec<u8>, HeaderError>)
    ensures
        bytes_result(r, request_spec(PktType::UNSUBSCRIBE, topic@, Seq::empty())),
{
    request_bytes(PktType::UNSUBSCRIBE, topic, Vec::new())
}

/// Encodes a query of `topic`; it carries a one-byte filler payload.
pub fn query_request(topic: String) -> (r: Result<Vec<u8>, HeaderError>)
    ensures
        bytes_result(r, request_spec(PktType::QUERY, topic@, query_filler())),
{
    let mut filler: Vec<u8> = Vec::new();
    filler.push(0x20);
    assert(filler@ =~= query_filler());
    request_bytes(PktType::QUERY, topic, filler)
}

/// The bytes of a request of kind `kind` on `topic` that carries `message`,
/// or why it cannot be encoded.
pub open spec fn request_spec(kind: PktType, topic: Seq<char>, message: Seq<u8>) -> Result<
    Seq<u8>,
    HeaderError,
> {
    if encode_utf8(topic).len() > u8::MAX {
        Err(HeaderError::InvalidTopicLength)
    } else if message.len() > u16::MAX {
        Err(HeaderError::InvalidMessageLength(message.len() as usize))
    } else {
        Ok(msg_bytes(new_msg(kind, topic, message)))
    }
}

/// `r` holds what `s` says: the same error, or bytes equal to those of `s`.
pub open spec fn bytes_result(r: Result<Vec<u8>, HeaderError>, s: Result<Seq<u8>, HeaderError>) -> bool {
    match s {
        Ok(b) => r is Ok && r->Ok_0@ == b,
        Err(e) => r == Err::<Vec<u8>, HeaderError>(e),
    }
}

/// Bytes written as a list of decimal numbers: `[104, 105]`.
pub open spec fn bytes_list(b: Seq<u8>) -> Seq<char> {
    seq!['['] + join(b.map_values(|x: u8| decimal(x as nat)), seq![',', ' ']) + seq![']']
}

/// A payload as text: its characters when it is valid UTF-8, else its bytes.
pub open spec fn payload_text(b: Seq<u8>) -> Seq<char> {
    if valid_utf8(b) {
        decode_utf8(b)
    } else {
        bytes_list(b)
    }
}

/// The line that reports a message received on `topic`.
pub open spec fn message_line(topic: Seq<char>, b: Seq<u8>) -> Seq<char> {
    "Topic: "@ + topic + " message: "@ + payload_text(b)
}

/// Writes bytes as a list of decimal numbers.
fn bytes_list_string(b: &Vec<u8>) -> (r: String)
    ensures
        r@ == bytes_list(b@),
{
    let mut items: Vec<String> = Vec::new();
    let mut i: usize = 0;
    while i < b.len()
        invariant
            i <= b@.len(),
            items@.map_values(|s: String| s@) == b@.subrange(0, i as int).map_values(
                |x: u8| decimal(x as nat),
            ),
        decreases b@.len() - i,
    {
        let ghost before = items@.map_values(|s: String| s@);
        items.push(decimal_string(b[i] as usize));
        assert(items@.map_values(|s: String| s@) =~= before.push(decimal(b@[i as int] as nat)));
        assert(b@.subrange(0, i as int + 1) =~= b@.subrange(0, i as int).push(b@[i as int]));
        assert(items@.map_values(|s: String| s@) =~= b@.subrange(0, i as int + 1).map_values(
            |x: u8| decimal(x as nat),
        ));
        i = i + 1;
    }
    assert(b@.subrange(0, i as int) =~= b@);
    proof {
        reveal_strlit("[");
        reveal_strlit(", ");
        reveal_strlit("]");
    }
    assert(", "@ =~= seq![',', ' ']);
    let inner = join_strings(&items, ", ");
    let mut r = "[".to_owned();
    r.append(inner.as_str());
    r.append("]");
    assert(r@ =~= bytes_list(b@));
    r
}

/// The line that reports `message` received on `topic`: the payload as text
/// when it is valid UTF-8, else as a list of its bytes.
pub fn on_message(topic: String, message: Vec<u8>) -> (r: String)
    ensures
        r@ == message_line(topic@, message@),
{
    let text = match string_from_utf8(message.clone()) {
        Some(s) => s,
        None => bytes_list_string(&message),
    };
    let mut r = "Topic: ".to_owned();
    r.append(topic.as_str());
    r.append(" message: ");
    r.append(text.as_str());
    assert(r@ =~= message_line(topic@, message@));
    r
}

} // verus!
