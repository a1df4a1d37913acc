use bank_network::id::Uuid;
use bank_network::listener::{
    service_address, ConnectionList, ADDRESS, DATA_ACCOUNTS_PORT, DATA_MISC_PORT,
    DATA_TRANSACTIONS_PORT, LOAD_BALANCER_PORT,
};
use bank_network::request::{Request, RequestType};

fn msg(field_type: RequestType, client: &str) -> Request {
    Request {
        field_type,
        user_id: String::new(),
        client_id: client.to_string(),
        data: vec![],
        from_client: true,
        detailed_type: None,
        token_id: String::new(),
    }
}

#[test]
fn service_addresses() {
    assert_eq!(service_address(LOAD_BALANCER_PORT), "127.0.0.1:50000");
    assert_eq!(service_address(DATA_ACCOUNTS_PORT), "127.0.0.1:49900");
    assert_eq!(service_address(DATA_TRANSACTIONS_PORT), "127.0.0.1:49800");
    assert_eq!(service_address(DATA_MISC_PORT), "127.0.0.1:49700");
    assert_eq!(ADDRESS, "127.0.0.1:");
}

#[test]
fn registers_authenticating_clients() {
    let a = "e78836e9-1982-4380-a678-a5b4db33d205";
    let b = "abe8e4bb-c87a-48ff-a4fb-2ebd42745aae";
    let mut list = ConnectionList::new();
    let msgs = vec![
        msg(RequestType::Authenticate, a),
        msg(RequestType::Account, "not-a-uuid"),
        msg(RequestType::Authenticate, b),
    ];
    assert!(list.try_register_authenticating(&msgs));
    let ids: Vec<String> = list.list_clients().iter().map(|u| u.to_string()).collect();
    assert_eq!(ids, vec![a.to_string(), b.to_string()]);
    let bad = vec![msg(RequestType::Authenticate, "nope")];
    assert!(!list.try_register_authenticating(&bad));
    assert_eq!(list.connections.len(), 2);
    list.update_clients(vec![Uuid::nil()]);
    assert_eq!(list.connections.len(), 3);
}
