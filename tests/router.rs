use simple_pub_sub::message::Msg;
use simple_pub_sub::topics::TopicMap;
use simple_pub_sub::PktType;
use tokio::sync::broadcast::{channel, Receiver, Sender};

fn delivery() -> (Sender<Vec<u8>>, Receiver<Vec<u8>>) {
    channel::<Vec<u8>>(16)
}

fn publish_msg(topic: &str, payload: &[u8]) -> Msg {
    Msg::new(PktType::PUBLISH, topic.to_string(), Some(payload.to_vec()))
}

#[test]
fn query_one_topic_counts_subscribers() {
    let mut map = TopicMap::new();
    let mut receivers = Vec::new();
    for id in ["c1", "c2", "c3"] {
        let (tx, rx) = delivery();
        receivers.push(rx);
        map.add_channel("abc".to_string(), id.to_string(), tx);
    }
    assert_eq!(map.query("abc".to_string()), "{\"abc\":[\"3\"]}");
}

#[test]
fn query_all_topics_lists_counts() {
    let mut map = TopicMap::new();
    let (t1, _r1) = delivery();
    let (t2, _r2) = delivery();
    let (t3, _r3) = delivery();
    map.add_channel("abc".to_string(), "c1".to_string(), t1);
    map.add_channel("abc".to_string(), "c2".to_string(), t2);
    map.add_channel("xyz".to_string(), "c3".to_string(), t3);
    assert_eq!(map.query("*".to_string()), "{\"*\":[\"abc: 2\",\"xyz: 1\"]}");
}

#[test]
fn query_unknown_topic_is_zero() {
    let map = TopicMap::new();
    assert_eq!(map.query("nobody".to_string()), "{\"nobody\":[\"0\"]}");
    assert_eq!(map.query("*".to_string()), "{\"*\":[]}");
}

#[test]
fn query_escapes_topic() {
    let map = TopicMap::new();
    assert_eq!(map.query("a\"b".to_string()), "{\"a\\\"b\":[\"0\"]}");
}

#[test]
fn publish_without_subscribers_changes_nothing() {
    let mut map = TopicMap::new();
    let (tx, _rx) = delivery();
    map.add_channel("abc".to_string(), "c1".to_string(), tx);
    let attempts = map.publish(&publish_msg("nobody", b"hi"));
    assert!(attempts.is_empty());
    assert_eq!(map.query("*".to_string()), "{\"*\":[\"abc: 1\"]}");
}

#[test]
fn publish_reaches_every_subscriber() {
    let mut map = TopicMap::new();
    let (t1, mut r1) = delivery();
    let (t2, mut r2) = delivery();
    map.add_channel("abc".to_string(), "c1".to_string(), t1);
    map.add_channel("abc".to_string(), "c2".to_string(), t2);
    let msg = publish_msg("abc", b"test message");
    let attempts = map.publish(&msg);
    assert_eq!(attempts.len(), 2);
    assert_eq!(attempts[0].client_id, "c1");
    assert_eq!(attempts[1].client_id, "c2");
    assert!(attempts.iter().all(|a| a.delivered && a.frame == msg.bytes()));
    let got = Msg::try_from(r1.try_recv().unwrap().as_slice()).unwrap();
    assert_eq!(got.topic, "abc");
    assert_eq!(
        got.message,
        vec![0x74, 0x65, 0x73, 0x74, 0x20, 0x6d, 0x65, 0x73, 0x73, 0x61, 0x67, 0x65]
    );
    assert_eq!(r2.try_recv().unwrap(), msg.bytes());
}

#[test]
fn subscribe_twice_counts_once() {
    let mut map = TopicMap::new();
    let (t1, mut r1) = delivery();
    let (t2, mut r2) = delivery();
    map.add_channel("abc".to_string(), "c1".to_string(), t1);
    map.add_channel("abc".to_string(), "c1".to_string(), t2);
    assert_eq!(map.query("abc".to_string()), "{\"abc\":[\"1\"]}");
    map.publish(&publish_msg("abc", b"x"));
    assert!(r1.try_recv().is_ok());
    assert!(r2.try_recv().is_err());
}

#[test]
fn unsubscribe_stops_delivery() {
    let mut map = TopicMap::new();
    let (t1, mut r1) = delivery();
    let (t2, mut r2) = delivery();
    map.add_channel("abc".to_string(), "c1".to_string(), t1);
    map.add_channel("abc".to_string(), "c2".to_string(), t2);
    map.remove_channel("abc".to_string(), "c1".to_string());
    let attempts = map.publish(&publish_msg("abc", b"x"));
    assert_eq!(attempts.len(), 1);
    assert_eq!(attempts[0].client_id, "c2");
    assert!(r1.try_recv().is_err());
    assert!(r2.try_recv().is_ok());
}

#[test]
fn unsubscribe_unknown_is_silent() {
    let mut map = TopicMap::new();
    let (t1, _r1) = delivery();
    map.add_channel("abc".to_string(), "c1".to_string(), t1);
    map.remove_channel("abc".to_string(), "c9".to_string());
    map.remove_channel("zzz".to_string(), "c1".to_string());
    assert_eq!(map.query("*".to_string()), "{\"*\":[\"abc: 1\"]}");
}

#[test]
fn dead_subscriber_is_pruned() {
    let mut map = TopicMap::new();
    let (t1, r1) = delivery();
    let (t2, mut r2) = delivery();
    map.add_channel("abc".to_string(), "c1".to_string(), t1);
    map.add_channel("abc".to_string(), "c2".to_string(), t2);
    assert_eq!(map.query("abc".to_string()), "{\"abc\":[\"2\"]}");
    drop(r1);
    let attempts = map.publish(&publish_msg("abc", b"x"));
    assert_eq!(attempts.len(), 2);
    assert!(!attempts[0].delivered);
    assert!(attempts[1].delivered);
    assert!(r2.try_recv().is_ok());
    assert_eq!(map.query("abc".to_string()), "{\"abc\":[\"1\"]}");
}

#[test]
fn publish_order_is_kept() {
    let mut map = TopicMap::new();
    let (t1, mut r1) = delivery();
    map.add_channel("abc".to_string(), "c1".to_string(), t1);
    let first = publish_msg("abc", b"one");
    let second = publish_msg("abc", b"two");
    map.publish(&first);
    map.publish(&second);
    assert_eq!(r1.try_recv().unwrap(), first.bytes());
    assert_eq!(r1.try_recv().unwrap(), second.bytes());
}

#[test]
fn empty_topic_is_dropped_from_listing() {
    let mut map = TopicMap::new();
    let (t1, _r1) = delivery();
    let (t2, _r2) = delivery();
    map.add_channel("abc".to_string(), "c1".to_string(), t1);
    map.add_channel("xyz".to_string(), "c2".to_string(), t2);
    map.remove_channel("abc".to_string(), "c1".to_string());
    assert_eq!(map.query("*".to_string()), "{\"*\":[\"xyz: 1\"]}");
    assert_eq!(map.map.len(), 1);
}

#[test]
fn dispatch_routes_requests() {
    let mut map = TopicMap::new();
    let (tx, mut rx) = delivery();
    let mut sub = Msg::new(PktType::SUBSCRIBE, "abc".to_string(), None);
    sub.client_id("c1".to_string());
    sub.channel(tx.clone());
    assert!(map.dispatch(sub).is_empty());

    let mut query = Msg::new(PktType::QUERY, "abc".to_string(), Some(b" ".to_vec()));
    query.client_id("c1".to_string());
    query.channel(tx.clone());
    let attempts = map.dispatch(query);
    assert_eq!(attempts.len(), 1);
    assert!(attempts[0].delivered);
    let resp = Msg::try_from(rx.try_recv().unwrap().as_slice()).unwrap();
    assert_eq!(resp.header.pkt_type, PktType::QUERYRESP);
    assert_eq!(resp.topic, "abc");
    assert_eq!(resp.message, b"{\"abc\":[\"1\"]}".to_vec());

    let attempts = map.dispatch(publish_msg("abc", b"hello"));
    assert_eq!(attempts.len(), 1);
    assert_eq!(rx.try_recv().unwrap(), publish_msg("abc", b"hello").bytes());

    let mut unsub = Msg::new(PktType::UNSUBSCRIBE, "abc".to_string(), None);
    unsub.client_id("c1".to_string());
    map.dispatch(unsub);
    assert_eq!(map.query("abc".to_string()), "{\"abc\":[\"0\"]}");
}

#[test]
fn dispatch_ignores_requests_without_attachments() {
    let mut map = TopicMap::new();
    let sub = Msg::new(PktType::SUBSCRIBE, "abc".to_string(), None);
    assert!(map.dispatch(sub).is_empty());
    assert_eq!(map.query("abc".to_string()), "{\"abc\":[\"0\"]}");
    let ack = Msg::new(PktType::PUBLISHACK, "abc".to_string(), None);
    assert!(map.dispatch(ack).is_empty());
}
