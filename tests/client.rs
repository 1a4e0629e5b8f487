use simple_pub_sub::cli::{client_target, log_filter, Cli, Commands, LogLevel, ServerType as CliServer};
use simple_pub_sub::client::{
    on_message, publish_request, query_request, request_bytes, subscribe_request,
    unsubscribe_request, PubSubClient, PubSubTcpClient, PubSubUnixClient,
};
use simple_pub_sub::error::HeaderError;
use simple_pub_sub::message::Msg;
use simple_pub_sub::server::Tcp;
use simple_pub_sub::text::decimal_string;
use simple_pub_sub::PktType;

#[test]
fn publish_request_encodes_frame() {
    let b = publish_request("abc".to_string(), b"test message".to_vec()).unwrap();
    assert_eq!(
        b,
        vec![
            0x0F, 0x00, 0x01, 0x02, 0x03, 0x00, 0x0C, 0x00, b'a', b'b', b'c', b't', b'e', b's',
            b't', b' ', b'm', b'e', b's', b's', b'a', b'g', b'e'
        ]
    );
}

#[test]
fn query_request_carries_filler() {
    let b = query_request("abc".to_string()).unwrap();
    let m = Msg::try_from(b.as_slice()).unwrap();
    assert_eq!(m.header.pkt_type, PktType::QUERY);
    assert_eq!(m.message, vec![b' ']);
}

#[test]
fn subscribe_requests_carry_no_payload() {
    let s = subscribe_request("abc".to_string()).unwrap();
    assert_eq!(s, vec![0x0F, 0x00, 0x01, 0x03, 3, 0, 0, 0, b'a', b'b', b'c']);
    let u = unsubscribe_request("abc".to_string()).unwrap();
    assert_eq!(u, vec![0x0F, 0x00, 0x01, 0x04, 3, 0, 0, 0, b'a', b'b', b'c']);
}

#[test]
fn request_limits() {
    let long_topic = "t".repeat(256);
    assert_eq!(
        request_bytes(PktType::PUBLISH, long_topic, b"x".to_vec()),
        Err(HeaderError::InvalidTopicLength)
    );
    assert_eq!(
        request_bytes(PktType::PUBLISH, "abc".to_string(), vec![0; 65536]),
        Err(HeaderError::InvalidMessageLength(65536))
    );
    assert!(request_bytes(PktType::PUBLISH, "t".repeat(255), vec![0; 65535]).is_ok());
}

#[test]
fn message_line_text_and_bytes() {
    assert_eq!(on_message("abc".to_string(), b"hi".to_vec()), "Topic: abc message: hi");
    assert_eq!(on_message("abc".to_string(), vec![255, 0, 10]), "Topic: abc message: [255, 0, 10]");
}

#[test]
fn client_server_name() {
    let tcp = PubSubClient::Tcp(PubSubTcpClient {
        server: "localhost".to_string(),
        port: 6480,
        cert: None,
        cert_password: None,
    });
    assert_eq!(tcp.server(), "localhost");
    let unix = PubSubClient::Unix(PubSubUnixClient { path: "/tmp/s.sock".to_string() });
    assert_eq!(unix.server(), "/tmp/s.sock");
}

#[test]
fn decimal_text() {
    assert_eq!(decimal_string(0), "0");
    assert_eq!(decimal_string(1024), "1024");
    assert_eq!(decimal_string(65535), "65535");
}

#[test]
fn command_line_defaults() {
    assert_eq!(log_filter(None), "info");
    assert_eq!(log_filter(Some(LogLevel::Trace)), "trace");
    let cli = Cli {
        command: Commands::Completion { shell: "bash".to_string() },
        log_level: None,
        capacity: None,
    };
    assert_eq!(cli.queue_capacity(), 1024);
    let target = client_target(CliServer::Unix { path: "/tmp/x.sock".to_string() });
    assert_eq!(target.server(), "/tmp/x.sock");
}

#[test]
fn tcp_address() {
    let t = Tcp {
        host: "localhost".to_string(),
        port: 6480,
        cert: None,
        cert_password: None,
        capacity: 1024,
    };
    assert_eq!(t.address(), "localhost:6480");
}
