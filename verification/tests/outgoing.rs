use bank_network::message::{Message, MessageOptions};
use bank_network::id::Uuid;
use bank_network::outgoing::{
    batch_has_shutdown, batch_has_shutdown_request, plan_for_client, plan_for_peer, plan_for_server,
    PeerTokens,
};
use bank_network::request::{Request, RequestType};

fn msg(data: &str, recipient: &str) -> Message {
    Message::new(data.to_string(), recipient.to_string(), "me".to_string()).unwrap()
}

#[test]
fn plan_for_peer_sorts_messages() {
    let msgs = vec![msg("a", "p:1"), msg("b", "q:2"), msg("c", "p:1")];
    let plan = plan_for_peer(&"p:1".to_string(), msgs);
    assert!(!plan.shutdown);
    let sent: Vec<&str> = plan.to_send.iter().map(|m| m.data.as_str()).collect();
    let kept: Vec<&str> = plan.kept.iter().map(|m| m.data.as_str()).collect();
    assert_eq!(sent, vec!["a", "c"]);
    assert_eq!(kept, vec!["b"]);
}

#[test]
fn plan_for_peer_drops_shutdown() {
    let msgs = vec![msg("a", "p:1"), Message::shutdown(), msg("b", "q:2")];
    let plan = plan_for_peer(&"p:1".to_string(), msgs);
    assert!(plan.shutdown);
    assert_eq!(plan.to_send.len(), 1);
    assert_eq!(plan.kept.len(), 1);
    assert!(plan.kept.iter().all(|m| m.options == MessageOptions::Normal));
}

#[test]
fn plan_for_server_keeps_all_but_shutdown() {
    let msgs = vec![msg("a", "x"), Message::shutdown(), msg("b", "y")];
    let (shutdown, to_send) = plan_for_server(msgs);
    assert!(shutdown);
    let sent: Vec<&str> = to_send.iter().map(|m| m.data.as_str()).collect();
    assert_eq!(sent, vec!["a", "b"]);
    let (shutdown, to_send) = plan_for_server(vec![msg("c", "x")]);
    assert!(!shutdown);
    assert_eq!(to_send.len(), 1);
}

fn req(kind: RequestType, client: &str, datum: &str) -> Request {
    Request {
        field_type: kind,
        user_id: String::new(),
        client_id: client.to_string(),
        data: vec![datum.to_string()],
        from_client: false,
        detailed_type: None,
        token_id: String::new(),
    }
}

#[test]
fn plan_for_client_sorts_requests() {
    let a = "abe8e4bb-c87a-48ff-a4fb-2ebd42745aae";
    let b = "e78836e9-1982-4380-a678-a5b4db33d205";
    let me = Uuid::parse_str(a).unwrap();
    let msgs = vec![
        req(RequestType::Result, a, "1"),
        req(RequestType::Result, b, "2"),
        req(RequestType::Shutdown, "", "3"),
        req(RequestType::Result, &a.to_uppercase(), "4"),
    ];
    let plan = plan_for_client(&me, msgs).unwrap();
    assert!(plan.shutdown);
    let sent: Vec<&str> = plan.to_send.iter().map(|r| r.data[0].as_str()).collect();
    let kept: Vec<&str> = plan.kept.iter().map(|r| r.data[0].as_str()).collect();
    assert_eq!(sent, vec!["1", "4"]);
    assert_eq!(kept, vec!["2"]);
    assert!(plan_for_client(&me, vec![req(RequestType::Result, "nobody", "5")]).is_none());
}

#[test]
fn shutdown_is_seen_in_any_batch() {
    assert!(batch_has_shutdown(&vec![msg("a", "p"), Message::shutdown()]));
    assert!(!batch_has_shutdown(&vec![msg("a", "p")]));
    assert!(!batch_has_shutdown(&vec![]));
    assert!(batch_has_shutdown_request(&vec![Request::shutdown()]));
    assert!(!batch_has_shutdown_request(&vec![req(RequestType::Result, "x", "1")]));
}

#[test]
fn peer_tokens_follow_the_peer_count() {
    let mut t = PeerTokens::new();
    assert_eq!(t.register(), 0);
    assert_eq!(t.register(), 1);
    t.remove();
    assert_eq!(t.count(), 1);
    assert_eq!(t.register(), 1);
    assert_eq!(t.count(), 2);
}
