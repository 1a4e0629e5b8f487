use vstd::prelude::*;

use crate::channel::DeliveryChannel;
use crate::message::{msg_bytes, response_msg_of, Msg, MsgModel};
use crate::pkt::{is_request, PktType};

verus! {

/// What a connection does with one request read from its socket.
pub struct RequestAction {
    /// The request, with the connection's attachments, to hand to the router.
    pub forward: Option<Msg>,
    /// The acknowledgement to write back to the socket at once.
    pub ack: Option<Vec<u8>>,
}

/// The request is handed to the router: it names a topic and is a request.
pub open spec fn is_routed(m: MsgModel) -> bool {
    m.topic.len() > 0 && is_request(m.header.pkt_type)
}

/// The request is acknowledged at once: every kind but a query, whose answer
/// comes from the router, and but a response, which has no acknowledgement.
pub open spec fn is_acked(m: MsgModel) -> bool {
    m.header.pkt_type != PktType::QUERY && response_msg_of(m, m.message) is Ok
}

/// Decides what the connection with id `client_id` and delivery channel
/// `channel` does with request `msg`: the request goes to the router with the
/// client id, and with the channel unless it is a publish; every request but a
/// query is acknowledged with its response header, topic and payload.
pub fn on_request(msg: Msg, client_id: String, channel: DeliveryChannel) -> (r: RequestAction)
    ensures
        r.forward is Some <==> is_routed(msg@),
        r.forward matches Some(f) ==> {
            &&& f@ == msg@
            &&& f.client_id == Some(client_id)
            &&& f.channel == if msg.header.pkt_type == PktType::PUBLISH {
                None::<DeliveryChannel>
            } else {
                Some(channel)
            }
        },
        r.ack is Some <==> is_acked(msg@),
        r.ack matches Some(a) ==> a@ == msg_bytes(response_msg_of(msg@, msg@.message)->Ok_0),
{
    let ack = if msg.header.pkt_type != PktType::QUERY {
        match msg.response_msg(msg.message.clone()) {
            Ok(resp) => Some(resp.bytes()),
            Err(_) => None,
        }
    } else {
        None
    };
    let routed = !msg.topic.as_str().is_empty() && msg.header.pkt_type.is_request();
    let forward = if routed {
        let is_publish = msg.header.pkt_type == PktType::PUBLISH;
        let mut m = msg;
        m.client_id(client_id);
        m.channel = if is_publish {
            None
        } else {
            Some(channel)
        };
        Some(m)
    } else {
        None
    };
    RequestAction { forward, ack }
}

} // verus!
