use simple_pub_sub::error::HeaderError;
use simple_pub_sub::header::Header;
use simple_pub_sub::message::{get_msg_response, Msg};
use simple_pub_sub::PktType;

#[test]
fn header_parse_pass() {
    assert!(Header::try_from(vec![
        15, // start marker
        0, 1, // version
        2, // packet type
        3, // topic length
        0, 12, // message length
        0,  // end marker
    ])
    .is_ok());
}

#[test]
fn header_parse_fail() {
    assert!(Header::try_from(vec![
        16, // start marker
        0, 1, // version
        2, // packet type
        3, // topic length
        0, 12, // message length
        0,  // end marker
    ])
    .is_err());
}

#[test]
fn message_parse_pass() {
    let buf = [
        15, 0, 1, 2, 3, 0, 12, 0, 97, 98, 99, 116, 101, 115, 116, 32, 109, 101, 115, 115, 97,
        103, 101,
    ];
    let msg = Msg::try_from(buf.as_ref());
    assert!(msg.is_ok());
}

#[test]
fn message_parse_fail() {
    let buf = [
        15, 0, 1, 2, 3, 0, 12, 0, 97, 98, 99, 116, 101, 115, 116, 32, 109, 101, 115, 115, 97,
        103,
    ];
    let msg = Msg::try_from(buf.as_ref());
    assert!(msg.is_err());
}

#[test]
fn header_decode_fields() {
    let h = Header::try_from(vec![0x0F, 0x00, 0x01, 0x02, 0x03, 0x00, 0x0C, 0x00]).unwrap();
    assert_eq!(h.pkt_type, PktType::PUBLISH);
    assert_eq!(h.topic_length, 3);
    assert_eq!(h.message_length, 12);
    assert_eq!(h.version, [0, 1]);
}

#[test]
fn header_decode_bad_start_marker() {
    let r = Header::try_from(vec![0x10, 0x00, 0x01, 0x02, 0x03, 0x00, 0x0C, 0x00]);
    assert_eq!(r, Err(HeaderError::InvalidHeadOrTail));
}

#[test]
fn header_decode_bad_end_marker() {
    let r = Header::try_from(vec![0x0F, 0x00, 0x01, 0x02, 0x03, 0x00, 0x0C, 0x01]);
    assert_eq!(r, Err(HeaderError::InvalidHeadOrTail));
}

#[test]
fn header_decode_short_buffer() {
    let r = Header::try_from(vec![0x0F, 0x00, 0x01, 0x02, 0x03, 0x00, 0x0C]);
    assert_eq!(r, Err(HeaderError::InvalidHeaderBufferLength));
}

#[test]
fn header_decode_bad_version() {
    let r = Header::try_from(vec![0x0F, 0x00, 0x02, 0x02, 0x03, 0x00, 0x0C, 0x00]);
    assert_eq!(r, Err(HeaderError::UnsupportedVersion));
}

#[test]
fn header_decode_unknown_type() {
    let r = Header::try_from(vec![0x0F, 0x00, 0x01, 0x01, 0x03, 0x00, 0x0C, 0x00]);
    assert_eq!(r, Err(HeaderError::InvalidPacketType));
}

#[test]
fn header_decode_zero_topic_for_request() {
    let r = Header::try_from(vec![0x0F, 0x00, 0x01, 0x03, 0x00, 0x00, 0x00, 0x00]);
    assert_eq!(r, Err(HeaderError::InvalidTopicLength));
}

#[test]
fn header_decode_zero_topic_for_response() {
    let h = Header::try_from(vec![0x0F, 0x00, 0x01, 0x0C, 0x00, 0x00, 0x00, 0x00]).unwrap();
    assert_eq!(h.pkt_type, PktType::SUBSCRIBEACK);
}

#[test]
fn header_decode_zero_message_for_publish_and_query() {
    let p = Header::try_from(vec![0x0F, 0x00, 0x01, 0x02, 0x03, 0x00, 0x00, 0x00]);
    assert_eq!(p, Err(HeaderError::InvalidMessageLength(0)));
    let q = Header::try_from(vec![0x0F, 0x00, 0x01, 0x05, 0x03, 0x00, 0x00, 0x00]);
    assert_eq!(q, Err(HeaderError::InvalidMessageLength(0)));
    let s = Header::try_from(vec![0x0F, 0x00, 0x01, 0x03, 0x03, 0x00, 0x00, 0x00]);
    assert!(s.is_ok());
}

#[test]
fn header_decode_unsubscribe_ack() {
    let h = Header::try_from(vec![0x0F, 0x00, 0x01, 0x0D, 0x03, 0x00, 0x00, 0x00]).unwrap();
    assert_eq!(h.pkt_type, PktType::UNSUBSCRIBEACK);
}

#[test]
fn header_bytes_big_endian() {
    let h = Header::new(PktType::QUERY, 7, 0x0102);
    assert_eq!(h.bytes(), [0x0F, 0x00, 0x01, 0x05, 7, 0x01, 0x02, 0x00]);
}

#[test]
fn header_round_trip_every_type() {
    let kinds = [
        PktType::PUBLISH,
        PktType::SUBSCRIBE,
        PktType::UNSUBSCRIBE,
        PktType::QUERY,
        PktType::PUBLISHACK,
        PktType::SUBSCRIBEACK,
        PktType::UNSUBSCRIBEACK,
        PktType::QUERYRESP,
    ];
    for k in kinds {
        let h = Header::new(k, 5, 300);
        let back = Header::try_from(&h.bytes()[..]).unwrap();
        assert_eq!(back, h);
        assert_eq!(PktType::from_byte(k.byte()), Some(k));
    }
}

#[test]
fn response_header_maps_types() {
    let h = Header::new(PktType::SUBSCRIBE, 3, 0);
    let r = h.response_header().unwrap();
    assert_eq!(r.pkt_type, PktType::SUBSCRIBEACK);
    assert_eq!(r.topic_length, 3);
    assert_eq!(Header::new(PktType::QUERY, 1, 1).response_header().unwrap().pkt_type, PktType::QUERYRESP);
    assert_eq!(Header::new(PktType::PUBLISH, 1, 1).response_header().unwrap().pkt_type, PktType::PUBLISHACK);
    assert_eq!(
        Header::new(PktType::UNSUBSCRIBE, 1, 0).response_header().unwrap().pkt_type,
        PktType::UNSUBSCRIBEACK
    );
}

#[test]
fn response_header_of_response_fails() {
    let h = Header::new(PktType::PUBLISHACK, 3, 0);
    assert_eq!(h.response_header(), Err(HeaderError::InvalidResponseType));
}

#[test]
fn message_decode_fields() {
    let buf = vec![
        0x0F, 0x00, 0x01, 0x02, 0x03, 0x00, 0x0C, 0x00, b'a', b'b', b'c', b't', b'e', b's', b't',
        b' ', b'm', b'e', b's', b's', b'a', b'g', b'e',
    ];
    let m = Msg::try_from(buf.as_slice()).unwrap();
    assert_eq!(m.header.pkt_type, PktType::PUBLISH);
    assert_eq!(m.topic, "abc");
    assert_eq!(m.message, b"test message".to_vec());
    assert!(m.client_id.is_none());
    assert!(m.channel.is_none());
}

#[test]
fn message_decode_truncated() {
    let buf = vec![0x0F, 0x00, 0x01, 0x02, 0x03, 0x00, 0x02, 0x00, b'a', b'b', b'c', b'x'];
    assert_eq!(Msg::try_from(buf.as_slice()).err(), Some(HeaderError::InvalidMsgLength));
}

#[test]
fn message_decode_bad_topic_encoding() {
    let buf = vec![0x0F, 0x00, 0x01, 0x02, 0x02, 0x00, 0x01, 0x00, 0xFF, 0xFE, b'x'];
    assert_eq!(Msg::try_from(buf.as_slice()).err(), Some(HeaderError::InvalidTopicEncoding));
}

#[test]
fn message_round_trip() {
    let m = Msg::new(PktType::PUBLISH, "héllo".to_string(), Some(b"payload".to_vec()));
    assert_eq!(m.header.topic_length, 6);
    assert_eq!(m.header.message_length, 7);
    let bytes = m.bytes();
    assert_eq!(bytes.len(), 8 + 6 + 7);
    let back = Msg::try_from(bytes.as_slice()).unwrap();
    assert!(back == m);
    assert_eq!(back.topic, "héllo");
}

#[test]
fn message_decode_ignores_trailing_bytes() {
    let m = Msg::new(PktType::SUBSCRIBE, "abc".to_string(), None);
    let mut bytes = m.bytes();
    bytes.extend_from_slice(&[1, 2, 3]);
    let back = Msg::try_from(bytes.as_slice()).unwrap();
    assert!(back == m);
    assert!(back.message.is_empty());
}

#[test]
fn ack_echoes_topic_and_payload() {
    let m = Msg::new(PktType::PUBLISH, "abc".to_string(), Some(b"hi".to_vec()));
    let ack = get_msg_response(m).unwrap();
    assert_eq!(ack, vec![0x0F, 0x00, 0x01, 0x0B, 3, 0, 2, 0x00, b'a', b'b', b'c', b'h', b'i']);
}

#[test]
fn ack_of_response_fails() {
    let m = Msg::new(PktType::QUERYRESP, "abc".to_string(), Some(b"x".to_vec()));
    assert_eq!(get_msg_response(m), Err(HeaderError::InvalidResponseType));
}

#[test]
fn response_msg_too_long_body() {
    let m = Msg::new(PktType::QUERY, "abc".to_string(), Some(b" ".to_vec()));
    let body = vec![0u8; 70000];
    assert_eq!(m.response_msg(body).err(), Some(HeaderError::InvalidMessageLength(70000)));
}

#[test]
fn packet_type_names() {
    assert_eq!(PktType::PUBLISHACK.name(), "PUBLISH_ACK");
    assert_eq!(PktType::QUERYRESP.name(), "QUERY_RESP");
    assert_eq!(PktType::SUBSCRIBE.name(), "SUBSCRIBE");
}
