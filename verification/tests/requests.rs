use bank_network::id::{new_secure_uuid_v4, Uuid};
use bank_network::request::{
    AccountType, AuthenticateType, DetailedType, Request, RequestType, ResultType,
};

fn counting_uuid() -> Uuid {
    let mut bytes = [0u8; 16];
    for i in 0..16 {
        bytes[i] = i as u8;
    }
    Uuid { bytes }
}

#[test]
fn uuid_text_is_hyphenated_lowercase() {
    assert_eq!(counting_uuid().to_string(), "00010203-0405-0607-0809-0a0b0c0d0e0f");
    assert_eq!(Uuid::nil().to_string(), "00000000-0000-0000-0000-000000000000");
}

#[test]
fn uuid_text_parses_back() {
    let u = counting_uuid();
    let back = Uuid::parse_str(&u.to_string()).unwrap();
    assert_eq!(back.bytes, u.bytes);
    assert!(Uuid::parse_str("not a uuid").is_none());
}

#[test]
fn random_uuid_sets_version_and_variant() {
    let u = Uuid::from_random_bytes([0xff; 16]);
    assert_eq!(u.to_string(), "ffffffff-ffff-4fff-bfff-ffffffffffff");
    let z = Uuid::from_random_bytes([0; 16]);
    assert_eq!(z.to_string(), "00000000-0000-4000-8000-000000000000");
}

#[test]
fn new_secure_uuids_are_version_four() {
    for u in [Request::new_secure_uuid_v4(), new_secure_uuid_v4()] {
        assert_eq!(u.bytes[6] >> 4, 4);
        assert_eq!(u.bytes[8] >> 6, 2);
    }
    assert_ne!(new_secure_uuid_v4().bytes, new_secure_uuid_v4().bytes);
}

#[test]
fn new_from_fields_names_the_client() {
    let token = "tok".to_string();
    let r = Request::new_from_fields(
        vec!["a".to_string()],
        counting_uuid(),
        true,
        RequestType::Account,
        &token,
        Some(DetailedType::Account(AccountType::NewAccount)),
    )
    .unwrap();
    assert!(r.field_type == RequestType::Account);
    assert_eq!(r.user_id, "");
    assert_eq!(r.client_id, "00010203-0405-0607-0809-0a0b0c0d0e0f");
    assert_eq!(r.data, vec!["a".to_string()]);
    assert!(r.from_client);
    assert!(r.detailed_type == Some(DetailedType::Account(AccountType::NewAccount)));
    assert_eq!(r.token_id, "tok");
}

#[test]
fn success_result_answers_client() {
    let r = Request::success_result(vec!["x".to_string()], "c1".to_string(), ResultType::InvalidArgs);
    assert!(r.field_type == RequestType::Result);
    assert_eq!(r.client_id, "c1");
    assert_eq!(r.data, vec!["x".to_string()]);
    assert!(!r.from_client);
    assert!(r.detailed_type == Some(DetailedType::Result(ResultType::InvalidArgs)));
    assert_eq!(r.token_id, "");
    assert_eq!(r.user_id, "");
}

#[test]
fn shutdown_request_is_empty() {
    let r = Request::shutdown();
    assert!(r.field_type == RequestType::Shutdown);
    assert!(r.data.is_empty());
    assert!(r.detailed_type.is_none());
    assert_eq!(r.client_id, "");
    assert!(!r.from_client);
}

#[test]
fn request_describe_names_client() {
    let r = Request::success_result(vec![], "abc".to_string(), ResultType::Success);
    assert_eq!(r.describe(), "Request from abc");
    let _ = AuthenticateType::Login;
}
