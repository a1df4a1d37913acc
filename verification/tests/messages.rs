use bank_network::connection::{Client, ServerConn};
use bank_network::framing::encode_frame;
use bank_network::message::{Message, MessageOptions, MAX_MESSAGE_BYTES};

#[test]
fn message_new_keeps_fields() {
    let m = Message::new("hi".to_string(), "peer".to_string(), "ME".to_string()).unwrap();
    assert_eq!(m.data, "hi");
    assert_eq!(m.recipient, "peer");
    assert_eq!(m.sender, "ME");
    assert!(m.options == MessageOptions::Normal);
}

#[test]
fn message_shutdown_is_empty() {
    let m = Message::shutdown();
    assert_eq!(m.data, "");
    assert_eq!(m.sender, "");
    assert_eq!(m.recipient, "");
    assert!(m.options == MessageOptions::Shutdown);
}

#[test]
fn message_describe_matches_log_format() {
    let m = Message::new("body".to_string(), "to".to_string(), "from".to_string()).unwrap();
    assert_eq!(m.describe(), "Message from: from    To: to    Contents: body");
}

#[test]
fn message_frame_carries_utf8_data() {
    let m = Message::new("héllo".to_string(), "to".to_string(), "from".to_string()).unwrap();
    let mut expected = vec![0, 6];
    expected.extend("héllo".as_bytes());
    assert_eq!(m.frame(), expected);
}

#[test]
fn max_message_bytes_is_u16_max() {
    assert_eq!(MAX_MESSAGE_BYTES, 65535);
}

#[test]
fn client_reads_messages_across_reads() {
    let mut c = Client::new("10.0.0.1:5".to_string());
    let a = Message::new("one".to_string(), "x".to_string(), "y".to_string()).unwrap();
    let b = Message::new("two".to_string(), "x".to_string(), "y".to_string()).unwrap();
    let mut wire = a.frame();
    wire.extend(b.frame());
    assert!(!c.append_read(&wire[..4]));
    let first = c.get_messages_from_buffer();
    assert!(first.is_empty());
    assert!(!c.append_read(&wire[4..]));
    let msgs = c.get_messages_from_buffer();
    assert_eq!(msgs.len(), 2);
    assert_eq!(msgs[0].data, "one");
    assert_eq!(msgs[1].data, "two");
    assert_eq!(msgs[0].sender, "10.0.0.1:5");
    assert_eq!(msgs[0].recipient, "10.0.0.1:5");
    assert!(msgs[1].options == MessageOptions::Normal);
    assert!(c.client_buffer.is_empty());
}

#[test]
fn client_append_read_reports_full_reads() {
    let mut c = Client::new("a".to_string());
    assert!(c.append_read(&[0u8; 512]));
    assert!(!c.append_read(&[0u8; 511]));
    assert_eq!(c.client_buffer.len(), 1023);
}

#[test]
fn client_rejects_invalid_utf8_without_losing_bytes() {
    let mut c = Client::new("a".to_string());
    let mut wire = encode_frame(&[0xff, 0xfe]);
    wire.extend(encode_frame(b"ok"));
    c.append_read(&wire);
    assert!(c.try_get_messages_from_buffer().is_none());
    assert_eq!(c.client_buffer, wire);
}

#[test]
fn server_conn_reads_messages() {
    let mut s = ServerConn::new("127.0.0.1:50000".to_string());
    let mut wire = encode_frame(b"balance");
    wire.extend(vec![0, 5, b'p']);
    assert!(!s.read_data(&wire));
    let msgs = s.try_get_messages_from_buffer().unwrap();
    assert_eq!(msgs.len(), 1);
    assert_eq!(msgs[0].data, "balance");
    assert_eq!(msgs[0].sender, "127.0.0.1:50000");
    assert_eq!(s.client_buffer, vec![0, 5, b'p']);
}
