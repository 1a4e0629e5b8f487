use simple_pub_sub::connection::on_request;
use simple_pub_sub::message::Msg;
use simple_pub_sub::stream::{message_from_frame, needed_bytes, ReadError};
use simple_pub_sub::error::HeaderError;
use simple_pub_sub::PktType;
use tokio::sync::broadcast::channel;

#[test]
fn publish_is_forwarded_without_channel_and_acked() {
    let (tx, _rx) = channel::<Vec<u8>>(1);
    let msg = Msg::new(PktType::PUBLISH, "abc".to_string(), Some(b"hi".to_vec()));
    let action = on_request(msg, "id-1".to_string(), tx);
    let fwd = action.forward.unwrap();
    assert_eq!(fwd.client_id, Some("id-1".to_string()));
    assert!(fwd.channel.is_none());
    assert_eq!(fwd.message, b"hi".to_vec());
    let ack = action.ack.unwrap();
    assert_eq!(ack, vec![0x0F, 0x00, 0x01, 0x0B, 3, 0, 2, 0, b'a', b'b', b'c', b'h', b'i']);
}

#[test]
fn subscribe_is_forwarded_with_channel() {
    let (tx, _rx) = channel::<Vec<u8>>(1);
    let msg = Msg::new(PktType::SUBSCRIBE, "abc".to_string(), None);
    let action = on_request(msg, "id-2".to_string(), tx);
    assert!(action.forward.unwrap().channel.is_some());
    let ack = Msg::try_from(action.ack.unwrap().as_slice()).unwrap();
    assert_eq!(ack.header.pkt_type, PktType::SUBSCRIBEACK);
    assert_eq!(ack.topic, "abc");
}

#[test]
fn query_gets_no_ack() {
    let (tx, _rx) = channel::<Vec<u8>>(1);
    let msg = Msg::new(PktType::QUERY, "abc".to_string(), Some(b" ".to_vec()));
    let action = on_request(msg, "id-3".to_string(), tx);
    assert!(action.forward.is_some());
    assert!(action.ack.is_none());
}

#[test]
fn empty_topic_is_acked_not_routed() {
    let (tx, _rx) = channel::<Vec<u8>>(1);
    let mut msg = Msg::new(PktType::PUBLISH, "abc".to_string(), Some(b"hi".to_vec()));
    msg.topic = String::new();
    let action = on_request(msg, "id-4".to_string(), tx);
    assert!(action.forward.is_none());
    assert!(action.ack.is_some());
}

#[test]
fn reader_needs_whole_frame() {
    let m = Msg::new(PktType::PUBLISH, "abc".to_string(), Some(b"test message".to_vec()));
    let bytes = m.bytes();
    assert_eq!(needed_bytes(&bytes[..8]), Ok(23));
    assert_eq!(needed_bytes(&[]), Err(ReadError::Closed));
    assert_eq!(
        needed_bytes(&[0x10, 0, 1, 2, 3, 0, 12, 0]),
        Err(ReadError::Header(HeaderError::InvalidHeadOrTail))
    );
    assert_eq!(message_from_frame(&bytes[..20]).err(), Some(ReadError::ShortRead));
    let got = message_from_frame(&bytes).unwrap();
    assert!(got == m);
}

#[test]
fn reader_softens_bad_topic() {
    let buf = vec![0x0F, 0x00, 0x01, 0x02, 0x02, 0x00, 0x01, 0x00, 0xFF, 0xFE, b'x'];
    let got = message_from_frame(&buf).unwrap();
    assert_eq!(got.topic, "");
    assert_eq!(got.message, vec![b'x']);
    assert_eq!(got.header.topic_length, 2);
}
