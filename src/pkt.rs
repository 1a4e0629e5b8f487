use vstd::prelude::*;

verus! {

/// Packet type byte of a publish request.
pub const PUBLISH: u8 = 0x02;

/// Packet type byte of a subscribe request.
pub const SUBSCRIBE: u8 = 0x03;

/// Packet type byte of an unsubscribe request.
pub const UNSUBSCRIBE: u8 = 0x04;

/// Packet type byte of a query request.
pub const QUERY: u8 = 0x05;

/// Packet type byte of a publish acknowledgement.
pub const PUBLISHACK: u8 = 0x0B;

/// Packet type byte of a subscribe acknowledgement.
pub const SUBSCRIBEACK: u8 = 0x0C;

/// Packet type byte of an unsubscribe acknowledgement.
pub const UNSUBSCRIBEACK: u8 = 0x0D;

/// Packet type byte of a query response.
pub const QUERYRESP: u8 = 0x0E;

/// The kind of a packet: four requests and the response that answers each.
#[derive(Debug, Clone, Copy, PartialEq, Eq, Structural)]
pub enum PktType {
    PUBLISH,
    SUBSCRIBE,
    UNSUBSCRIBE,
    QUERY,
    PUBLISHACK,
    SUBSCRIBEACK,
    UNSUBSCRIBEACK,
    QUERYRESP,
}

/// The byte that stands for `t` on the wire.
pub open spec fn type_byte(t: PktType) -> u8 {
    match t {
        PktType::PUBLISH => PUBLISH,
        PktType::SUBSCRIBE => SUBSCRIBE,
        PktType::UNSUBSCRIBE => UNSUBSCRIBE,
        PktType::QUERY => QUERY,
        PktType::PUBLISHACK => PUBLISHACK,
        PktType::SUBSCRIBEACK => SUBSCRIBEACK,
        PktType::UNSUBSCRIBEACK => UNSUBSCRIBEACK,
        PktType::QUERYRESP => QUERYRESP,
    }
}

/// The packet type that byte `b` stands for, if any.
pub open spec fn type_of_byte(b: u8) -> Option<PktType> {
    if b == PUBLISH {
        Some(PktType::PUBLISH)
    } else if b == SUBSCRIBE {
        Some(PktType::SUBSCRIBE)
    } else if b == UNSUBSCRIBE {
        Some(PktType::UNSUBSCRIBE)
    } else if b == QUERY {
        Some(PktType::QUERY)
    } else if b == PUBLISHACK {
        Some(PktType::PUBLISHACK)
    } else if b == SUBSCRIBEACK {
        Some(PktType::SUBSCRIBEACK)
    } else if b == UNSUBSCRIBEACK {
        Some(PktType::UNSUBSCRIBEACK)
    } else if b == QUERYRESP {
        Some(PktType::QUERYRESP)
    } else {
        None
    }
}

/// A request is one of the four kinds that a client sends to the broker.
pub open spec fn is_request(t: PktType) -> bool {
    t == PktType::PUBLISH || t == PktType::SUBSCRIBE || t == PktType::UNSUBSCRIBE || t
        == PktType::QUERY
}

/// The response kind that answers request kind `t`; `None` for a response kind.
pub open spec fn response_of(t: PktType) -> Option<PktType> {
    match t {
        PktType::PUBLISH => Some(PktType::PUBLISHACK),
        PktType::SUBSCRIBE => Some(PktType::SUBSCRIBEACK),
        PktType::UNSUBSCRIBE => Some(PktType::UNSUBSCRIBEACK),
        PktType::QUERY => Some(PktType::QUERYRESP),
        _ => None,
    }
}

/// The name of packet type `t`, as it is shown to people.
pub open spec fn kind_name(t: PktType) -> Seq<char> {
    match t {
        PktType::PUBLISH => "PUBLISH"@,
        PktType::SUBSCRIBE => "SUBSCRIBE"@,
        PktType::UNSUBSCRIBE => "UNSUBSCRIBE"@,
        PktType::QUERY => "QUERY"@,
        PktType::PUBLISHACK => "PUBLISH_ACK"@,
        PktType::SUBSCRIBEACK => "SUBSCRIBE_ACK"@,
        PktType::UNSUBSCRIBEACK => "UNSUBSCRIBE_ACK"@,
        PktType::QUERYRESP => "QUERY_RESP"@,
    }
}

/// Every packet type survives the trip to its byte and back.
pub proof fn lemma_type_byte_round_trip(t: PktType)
    ensures
        type_of_byte(type_byte(t)) == Some(t),
{
}

impl PktType {
    /// Returns the byte for this type of packet.
    pub fn byte(&self) -> (r: u8)
        ensures
            r == type_byte(*self),
    {
        match self {
            PktType::PUBLISH => PUBLISH,
            PktType::SUBSCRIBE => SUBSCRIBE,
            PktType::UNSUBSCRIBE => UNSUBSCRIBE,
            PktType::QUERY => QUERY,
            PktType::PUBLISHACK => PUBLISHACK,
            PktType::SUBSCRIBEACK => SUBSCRIBEACK,
            PktType::UNSUBSCRIBEACK => UNSUBSCRIBEACK,
            PktType::QUERYRESP => QUERYRESP,
        }
    }

    /// Returns the packet type that byte `b` stands for, or `None` for an unknown byte.
    pub fn from_byte(b: u8) -> (r: Option<PktType>)
        ensures
            r == type_of_byte(b),
    {
        if b == PUBLISH {
            Some(PktType::PUBLISH)
        } else if b == SUBSCRIBE {
            Some(PktType::SUBSCRIBE)
        } else if b == UNSUBSCRIBE {
            Some(PktType::UNSUBSCRIBE)
        } else if b == QUERY {
            Some(PktType::QUERY)
        } else if b == PUBLISHACK {
            Some(PktType::PUBLISHACK)
        } else if b == SUBSCRIBEACK {
            Some(PktType::SUBSCRIBEACK)
        } else if b == UNSUBSCRIBEACK {
            Some(PktType::UNSUBSCRIBEACK)
        } else if b == QUERYRESP {
            Some(PktType::QUERYRESP)
        } else {
            None
        }
    }

    /// Whether this is one of the four request kinds.
    pub fn is_request(&self) -> (r: bool)
        ensures
            r == is_request(*self),
    {
        match self {
            PktType::PUBLISH | PktType::SUBSCRIBE | PktType::UNSUBSCRIBE | PktType::QUERY => true,
            _ => false,
        }
    }

    /// The response kind that answers this request kind; `None` for a response kind.
    pub fn response_type(&self) -> (r: Option<PktType>)
        ensures
            r == response_of(*self),
    {
        match self {
            PktType::PUBLISH => Some(PktType::PUBLISHACK),
            PktType::SUBSCRIBE => Some(PktType::SUBSCRIBEACK),
            PktType::UNSUBSCRIBE => Some(PktType::UNSUBSCRIBEACK),
            PktType::QUERY => Some(PktType::QUERYRESP),
            _ => None,
        }
    }
    /// The name of this packet type, as it is shown to people.
    pub fn name(&self) -> (r: &'static str)
        ensures
            r@ == kind_name(*self),
    {
        match self {
            PktType::PUBLISH => "PUBLISH",
            PktType::SUBSCRIBE => "SUBSCRIBE",
            PktType::UNSUBSCRIBE => "UNSUBSCRIBE",
            PktType::QUERY => "QUERY",
            PktType::PUBLISHACK => "PUBLISH_ACK",
            PktType::SUBSCRIBEACK => "SUBSCRIBE_ACK",
            PktType::UNSUBSCRIBEACK => "UNSUBSCRIBE_ACK",
            PktType::QUERYRESP => "QUERY_RESP",
        }
    }
}

} // verus!
