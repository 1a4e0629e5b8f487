use vstd::prelude::*;

verus! {

/// Why a header, a response header or a framed message was refused.
#[derive(Debug, Clone, Copy, PartialEq, Eq, Structural)]
pub enum HeaderError {
    /// The buffer holds fewer than the eight header bytes.
    InvalidHeaderBufferLength,
    /// The start marker or the end marker is wrong.
    InvalidHeadOrTail,
    /// The version is not one that this protocol speaks.
    UnsupportedVersion,
    /// The packet type byte names no packet type.
    InvalidPacketType,
    /// A request that needs a topic declares a topic length of zero.
    InvalidTopicLength,
    /// A publish or a query declares the given (zero) message length.
    InvalidMessageLength(usize),
    /// A response header was asked of a packet that is already a response.
    InvalidResponseType,
    /// The header declares more topic and message bytes than the buffer holds.
    InvalidMsgLength,
    /// The topic bytes are not valid UTF-8.
    InvalidTopicEncoding,
}

/// Errors of the client side.
#[derive(Debug, Clone, Copy, PartialEq, Eq, Structural)]
pub enum PubSubError {
    /// The client was used before it was connected.
    ClientNotConnected,
}

/// The description of header error `e`.
pub open spec fn header_error_text(e: HeaderError) -> Seq<char> {
    match e {
        HeaderError::InvalidHeaderBufferLength => "Invalid header buffer length"@,
        HeaderError::InvalidHeadOrTail => "Invalid header value or padding"@,
        HeaderError::UnsupportedVersion => "Unsupported version of the packet"@,
        HeaderError::InvalidPacketType => "Invalid packet type"@,
        HeaderError::InvalidTopicLength => "Invalid topic length"@,
        HeaderError::InvalidMessageLength(_) => "Invalid message length"@,
        HeaderError::InvalidResponseType => "Invalid request/response type"@,
        HeaderError::InvalidMsgLength => "Invalid Msg length"@,
        HeaderError::InvalidTopicEncoding => "Topic is not valid UTF-8"@,
    }
}

impl HeaderError {
    /// A human-readable description of the error.
    pub fn message(&self) -> (r: &'static str)
        ensures
            r@ == header_error_text(*self),
    {
        match self {
            HeaderError::InvalidHeaderBufferLength => "Invalid header buffer length",
            HeaderError::InvalidHeadOrTail => "Invalid header value or padding",
            HeaderError::UnsupportedVersion => "Unsupported version of the packet",
            HeaderError::InvalidPacketType => "Invalid packet type",
            HeaderError::InvalidTopicLength => "Invalid topic length",
            HeaderError::InvalidMessageLength(_) => "Invalid message length",
            HeaderError::InvalidResponseType => "Invalid request/response type",
            HeaderError::InvalidMsgLength => "Invalid Msg length",
            HeaderError::InvalidTopicEncoding => "Topic is not valid UTF-8",
        }
    }
}

impl PubSubError {
    /// A human-readable description of the error.
    pub fn message(&self) -> (r: &'static str)
        ensures
            r@ == "Client is not connected"@,
    {
        match self {
            PubSubError::ClientNotConnected => "Client is not connected",
        }
    }
}

} // verus!
