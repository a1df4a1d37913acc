use bank_network::message::{Message, MessageOptions};
use bank_network::roster::{ClientUser, Roster};

#[test]
fn update_clients_adds_peers() {
    let mut r = Roster::new();
    r.update_clients(vec!["a:1".to_string(), "b:2".to_string()]);
    assert_eq!(r.clients.len(), 2);
    assert_eq!(r.clients[1].addr, "b:2");
    assert_eq!(r.clients[1].nickname, "");
    assert!(r.clients[0].messages.is_empty());
}

#[test]
fn check_messages_files_by_sender() {
    let mut r = Roster::new();
    r.update_clients(vec!["a:1".to_string(), "b:2".to_string(), "a:1".to_string()]);
    let m1 = Message::new("x".to_string(), "me".to_string(), "a:1".to_string()).unwrap();
    let m2 = Message::new("y".to_string(), "me".to_string(), "c:3".to_string()).unwrap();
    let m3 = Message::new("z".to_string(), "me".to_string(), "a:1".to_string()).unwrap();
    r.check_messages(vec![m1, m2, m3]);
    let datas: Vec<&str> = r.clients[0].messages.iter().map(|m| m.data.as_str()).collect();
    assert_eq!(datas, vec!["x", "z"]);
    assert!(r.clients[1].messages.is_empty());
    assert_eq!(r.clients[2].messages.len(), 2);
}

#[test]
fn send_message_needs_known_peer() {
    let mut r = Roster::new();
    r.update_clients(vec!["a:1".to_string()]);
    let m = r.send_message("a:1".to_string(), "hello".to_string()).unwrap();
    assert_eq!(m.data, "hello");
    assert_eq!(m.recipient, "a:1");
    assert_eq!(m.sender, "ME");
    assert!(m.options == MessageOptions::Normal);
    assert!(r.send_message("b:2".to_string(), "hello".to_string()).is_none());
}

#[test]
fn client_user_describe() {
    let c = ClientUser::new("1.2.3.4:5".to_string());
    assert_eq!(c.describe(), "Client with address 1.2.3.4:5, and nickname ");
}
