use vstd::prelude::*;

use crate::error::HeaderError;
use crate::pkt::{is_request, response_of, type_byte, type_of_byte, PktType};

verus! {

/// Number of bytes in a header.
pub const HEADER_LEN: usize = 8;

/// First byte of every header.
pub const HEADER_BYTE: u8 = 0x0F;

/// Last byte of every header.
pub const PADDING_BYTE: u8 = 0x00;

/// First byte of the one version this protocol speaks.
pub const VERSION_BYTE_0: u8 = 0x00;

/// Second byte of the one version this protocol speaks.
pub const VERSION_BYTE_1: u8 = 0x01;

/// The fixed eight-byte header that starts every packet.
#[derive(Debug, Clone, Copy)]
pub struct Header {
    /// Start marker, 0x0F.
    pub header: u8,
    /// Protocol version, two bytes.
    pub version: [u8; 2],
    /// Packet type.
    pub pkt_type: PktType,
    /// Length in bytes of the topic that follows the header.
    pub topic_length: u8,
    /// Length in bytes of the payload that follows the topic.
    pub message_length: u16,
    /// End marker, 0x00.
    pub padding: u8,
}

/// The header of the current version with the given type and lengths.
pub open spec fn fresh_header(t: PktType, topic_len: u8, message_len: u16) -> Header {
    Header {
        header: HEADER_BYTE,
        version: [VERSION_BYTE_0, VERSION_BYTE_1],
        pkt_type: t,
        topic_length: topic_len,
        message_length: message_len,
        padding: PADDING_BYTE,
    }
}

/// The version bytes name a version that this protocol speaks.
pub open spec fn version_supported(v0: u8, v1: u8) -> bool {
    v0 == VERSION_BYTE_0 && v1 == VERSION_BYTE_1
}

/// A request kind that must name a topic.
pub open spec fn needs_topic(t: PktType) -> bool {
    is_request(t)
}

/// A kind that must carry a non-empty payload.
pub open spec fn needs_message(t: PktType) -> bool {
    t == PktType::PUBLISH || t == PktType::QUERY
}

/// A header that the decoder accepts.
pub open spec fn header_wf(h: Header) -> bool {
    &&& h.header == HEADER_BYTE
    &&& h.padding == PADDING_BYTE
    &&& version_supported(h.version[0], h.version[1])
    &&& needs_topic(h.pkt_type) ==> h.topic_length > 0
    &&& needs_message(h.pkt_type) ==> h.message_length > 0
}

/// The eight bytes of `h` on the wire; the message length is big-endian.
pub open spec fn header_bytes(h: Header) -> Seq<u8> {
    seq![
        h.header,
        h.version[0],
        h.version[1],
        type_byte(h.pkt_type),
        h.topic_length,
        (h.message_length / 256) as u8,
        (h.message_length % 256) as u8,
        h.padding,
    ]
}

/// The big-endian message length in bytes 5 and 6 of `b`.
pub open spec fn message_length_of(b: Seq<u8>) -> u16
    recommends
        b.len() >= 8,
{
    (b[5] as int * 256 + b[6] as int) as u16
}

/// What decoding the first eight bytes of `b` yields.
pub open spec fn parse_header(b: Seq<u8>) -> Result<Header, HeaderError> {
    if b.len() < HEADER_LEN {
        Err(HeaderError::InvalidHeaderBufferLength)
    } else if !(b[0] == HEADER_BYTE && b[7] == PADDING_BYTE) {
        Err(HeaderError::InvalidHeadOrTail)
    } else if !version_supported(b[1], b[2]) {
        Err(HeaderError::UnsupportedVersion)
    } else {
        match type_of_byte(b[3]) {
            None => Err(HeaderError::InvalidPacketType),
            Some(t) => if b[4] == 0 && needs_topic(t) {
                Err(HeaderError::InvalidTopicLength)
            } else if message_length_of(b) == 0 && needs_message(t) {
                Err(HeaderError::InvalidMessageLength(0))
            } else {
                Ok(
                    Header {
                        header: HEADER_BYTE,
                        version: [b[1], b[2]],
                        pkt_type: t,
                        topic_length: b[4],
                        message_length: message_length_of(b),
                        padding: PADDING_BYTE,
                    },
                )
            },
        }
    }
}

/// The header that answers request header `h`, or the error for a response header.
pub open spec fn response_header_of(h: Header) -> Result<Header, HeaderError> {
    match response_of(h.pkt_type) {
        None => Err(HeaderError::InvalidResponseType),
        Some(t) => Ok(
            Header {
                header: HEADER_BYTE,
                version: h.version,
                pkt_type: t,
                topic_length: h.topic_length,
                message_length: h.message_length,
                padding: PADDING_BYTE,
            },
        ),
    }
}

/// Every header that the decoder accepts is decoded back from its own bytes.
pub proof fn lemma_header_round_trip(h: Header)
    requires
        header_wf(h),
    ensures
        parse_header(header_bytes(h)) == Ok::<Header, HeaderError>(h),
{
    let b = header_bytes(h);
    assert(message_length_of(b) == h.message_length);
    assert(type_of_byte(b[3]) == Some(h.pkt_type));
    let p = parse_header(b)->Ok_0;
    assert(p.version =~= h.version);
}

impl Header {
    /// Creates a header of the current version with the given type and lengths.
    pub fn new(pkt_type: PktType, topic_len: u8, message_len: u16) -> (r: Header)
        ensures
            r == fresh_header(pkt_type, topic_len, message_len),
    {
        Header {
            header: HEADER_BYTE,
            version: [VERSION_BYTE_0, VERSION_BYTE_1],
            pkt_type,
            topic_length: topic_len,
            message_length: message_len,
            padding: PADDING_BYTE,
        }
    }

    /// Returns the header of the response to this request: same version and
    /// lengths, the answering packet type. Fails for a response header.
    pub fn response_header(&self) -> (r: Result<Header, HeaderError>)
        ensures
            r == response_header_of(*self),
    {
        let resp_type = match self.pkt_type.response_type() {
            Some(t) => t,
            None => {
                return Err(HeaderError::InvalidResponseType);
            },
        };
        Ok(
            Header {
                header: HEADER_BYTE,
                version: self.version,
                pkt_type: resp_type,
                topic_length: self.topic_length,
                message_length: self.message_length,
                padding: PADDING_BYTE,
            },
        )
    }

    /// Returns the eight bytes of this header.
    pub fn bytes(&self) -> (r: [u8; 8])
        ensures
            r@ == header_bytes(*self),
    {
        let r = [
            self.header,
            self.version[0],
            self.version[1],
            self.pkt_type.byte(),
            self.topic_length,
            (self.message_length / 256) as u8,
            (self.message_length % 256) as u8,
            self.padding,
        ];
        assert(r@ =~= header_bytes(*self));
        r
    }

    /// Decodes a header from the first eight bytes of `bytes`.
    pub fn parse(bytes: &[u8]) -> (r: Result<Header, HeaderError>)
        ensures
            r == parse_header(bytes@),
    {
        if bytes.len() < HEADER_LEN {
            return Err(HeaderError::InvalidHeaderBufferLength);
        }
        if !(bytes[0] == HEADER_BYTE && bytes[7] == PADDING_BYTE) {
            return Err(HeaderError::InvalidHeadOrTail);
        }
        if !(bytes[1] == VERSION_BYTE_0 && bytes[2] == VERSION_BYTE_1) {
            return Err(HeaderError::UnsupportedVersion);
        }
        let pkt_type = match PktType::from_byte(bytes[3]) {
            Some(t) => t,
            None => {
                return Err(HeaderError::InvalidPacketType);
            },
        };
        if bytes[4] == 0 && pkt_type.is_request() {
            return Err(HeaderError::InvalidTopicLength);
        }
        let message_length: u16 = (bytes[5] as u16) * 256 + bytes[6] as u16;
        if message_length == 0 && (pkt_type == PktType::PUBLISH || pkt_type == PktType::QUERY) {
            return Err(HeaderError::InvalidMessageLength(0));
        }
        let h = Header {
            header: HEADER_BYTE,
            version: [bytes[1], bytes[2]],
            pkt_type,
            topic_length: bytes[4],
            message_length,
            padding: PADDING_BYTE,
        };
        proof {
            let s = parse_header(bytes@)->Ok_0;
            assert(h.version@ =~= s.version@);
        }
        Ok(h)
    }
}

impl PartialEq for Header {
    fn eq(&self, other: &Header) -> (r: bool) {
        let r = self.header == other.header && self.version[0] == other.version[0]
            && self.version[1] == other.version[1] && self.pkt_type == other.pkt_type
            && self.topic_length == other.topic_length && self.message_length
            == other.message_length && self.padding == other.padding;
        proof {
            if r {
                assert(self.version =~= other.version);
            }
        }
        r
    }
}

impl vstd::std_specs::cmp::PartialEqSpecImpl for Header {
    open spec fn obeys_eq_spec() -> bool {
        true
    }

    open spec fn eq_spec(&self, other: &Header) -> bool {
        *self == *other
    }
}

impl<'a> TryFrom<&'a [u8]> for Header {
    type Error = HeaderError;

    /// Decodes a header from the first eight bytes of `bytes`.
    fn try_from(bytes: &'a [u8]) -> (r: Result<Header, HeaderError>) {
        Header::parse(bytes)
    }
}

impl<'a> vstd::std_specs::convert::TryFromSpecImpl<&'a [u8]> for Header {
    open spec fn obeys_try_from_spec() -> bool {
        true
    }

    open spec fn try_from_spec(v: &'a [u8]) -> Result<Header, HeaderError> {
        parse_header(v@)
    }
}

impl TryFrom<Vec<u8>> for Header {
    type Error = HeaderError;

    /// Decodes a header from the first eight bytes of `bytes`.
    fn try_from(bytes: Vec<u8>) -> (r: Result<Header, HeaderError>) {
        Header::parse(bytes.as_slice())
    }
}

impl vstd::std_specs::convert::TryFromSpecImpl<Vec<u8>> for Header {
    open spec fn obeys_try_from_spec() -> bool {
        true
    }

    open spec fn try_from_spec(v: Vec<u8>) -> Result<Header, HeaderError> {
        parse_header(v@)
    }
}

} // verus!
