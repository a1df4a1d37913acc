use bank_network::credentials::{
    generate_token, hash_password, hash_password_with_salt, password_matches, token_from_bytes,
    try_password_matches,
};
use bank_network::database::{
    archive_precheck, authorize_owner, check_delete_processed, check_query_processed, check_token, check_token_now,
    loaded_records, login_token_now, lookup_failure, new_login_token, password_update_outcome, random_account_number, DatabaseError,
    DatabaseErrorKind, QueryFailure, Token, MAX_TOKEN_AGE_MICROS, TOKEN_LIFETIME_MICROS,
};
use bank_network::id::Uuid;

fn kind<T>(r: Result<T, DatabaseError>) -> DatabaseErrorKind {
    match r {
        Ok(_) => panic!("expected an error"),
        Err(e) => e.error_kind,
    }
}

#[test]
fn query_processed_outcomes() {
    assert!(check_query_processed(Ok(1)).is_ok());
    assert!(check_query_processed(Ok(3)).is_ok());
    assert!(kind(check_query_processed(Ok(0))) == DatabaseErrorKind::AlreadyExists);
    assert!(kind(check_query_processed(Err(QueryFailure::UniqueViolation)))
        == DatabaseErrorKind::AlreadyExists);
    assert!(kind(check_query_processed(Err(QueryFailure::OtherDatabaseError)))
        == DatabaseErrorKind::DatabaseFailure);
    assert!(kind(check_query_processed(Err(QueryFailure::NotFound)))
        == DatabaseErrorKind::DatabaseFailure);
    assert!(kind(check_query_processed(Err(QueryFailure::Other)))
        == DatabaseErrorKind::DatabaseFailure);
}

#[test]
fn lookup_failures() {
    assert!(lookup_failure(QueryFailure::NotFound).error_kind == DatabaseErrorKind::NotFound);
    assert!(lookup_failure(QueryFailure::Other).error_kind == DatabaseErrorKind::DatabaseFailure);
}

#[test]
fn database_error_messages() {
    assert_eq!(
        DatabaseError::new(DatabaseErrorKind::AuthenticationError).message(),
        "The request was not authenticated properly!"
    );
    assert_eq!(
        DatabaseError::new(DatabaseErrorKind::AlreadyExists).message(),
        "A record with those unique fields already exists!"
    );
    assert_eq!(
        DatabaseError::new(DatabaseErrorKind::DatabaseFailure).message(),
        "An unexpected error occured with the database connection"
    );
    assert_eq!(DatabaseError::new(DatabaseErrorKind::Unknown).message(), "Unknown failure");
    assert_eq!(DatabaseError::new(DatabaseErrorKind::NotFound).message(), "The record was not found!");
    assert_eq!(DatabaseError::new(DatabaseErrorKind::NotFound).debug_text(), "Error occurred!!!");
}

fn token(start: i64, expiry: i64) -> Token {
    Token {
        token: "t".to_string(),
        client_uuid: Uuid::parse_str("abe8e4bb-c87a-48ff-a4fb-2ebd42745aae").unwrap(),
        start_date: start,
        expiry_date: expiry,
    }
}

#[test]
fn token_validity() {
    assert!(kind(check_token(None, 0)) == DatabaseErrorKind::NotFound);
    let owner = check_token(Some(token(0, 100)), 50).unwrap();
    assert_eq!(owner, "abe8e4bb-c87a-48ff-a4fb-2ebd42745aae");
    assert!(kind(check_token(Some(token(0, 100)), 100)) == DatabaseErrorKind::AuthenticationError);
    assert!(kind(check_token(Some(token(100, 100)), 0)) == DatabaseErrorKind::AuthenticationError);
    assert!(kind(check_token(Some(token(0, MAX_TOKEN_AGE_MICROS)), 0))
        == DatabaseErrorKind::AuthenticationError);
    assert!(check_token(Some(token(0, MAX_TOKEN_AGE_MICROS - 1)), 0).is_ok());
}

#[test]
fn login_tokens_last_thirty_minutes() {
    let id = Uuid::nil();
    let t = new_login_token("abc".to_string(), id, 1_000);
    assert_eq!(t.start_date, 1_000);
    assert_eq!(t.expiry_date, 1_000 + TOKEN_LIFETIME_MICROS);
    assert_eq!(TOKEN_LIFETIME_MICROS, 30 * 60 * 1_000_000);
    let start = t.start_date;
    let expiry = t.expiry_date;
    assert!(check_token(Some(t), start + TOKEN_LIFETIME_MICROS - 1).is_ok());
    assert!(check_token(Some(token(start, expiry)), expiry).is_err());
}

#[test]
fn owners_only() {
    let id = Uuid::parse_str("abe8e4bb-c87a-48ff-a4fb-2ebd42745aae").unwrap();
    assert!(authorize_owner(Ok(id.to_string()), &id).is_ok());
    assert!(kind(authorize_owner(Ok("someone else".to_string()), &id))
        == DatabaseErrorKind::AuthenticationError);
    assert!(kind(authorize_owner(Err(DatabaseError::new(DatabaseErrorKind::NotFound)), &id))
        == DatabaseErrorKind::NotFound);
}

#[test]
fn password_update_outcomes() {
    assert_eq!(password_update_outcome(Ok(1)).unwrap(), true);
    assert!(kind(password_update_outcome(Ok(0))) == DatabaseErrorKind::NotFound);
    assert!(kind(password_update_outcome(Err(QueryFailure::Other)))
        == DatabaseErrorKind::DatabaseFailure);
}

#[test]
fn archive_prechecks() {
    assert!(kind(archive_precheck(None)) == DatabaseErrorKind::NotFound);
    assert!(kind(archive_precheck(Some(true))) == DatabaseErrorKind::AlreadyExists);
    assert!(archive_precheck(Some(false)).is_ok());
}

#[test]
fn hashed_passwords_verify() {
    let hash = hash_password("password".to_string());
    assert!(hash.starts_with("$argon2i$v=19$m=4096,t=3,p=1$"));
    assert!(password_matches(&hash, &"password".to_string()));
    assert!(!password_matches(&hash, &"Password".to_string()));
    assert_eq!(try_password_matches(&"plain".to_string(), &"plain".to_string()), None);
}

#[test]
fn hashing_with_a_fixed_salt_is_deterministic() {
    let salt = b"somesalt".to_vec();
    let a = hash_password_with_salt(&"password".to_string(), &salt);
    let b = hash_password_with_salt(&"password".to_string(), &salt);
    assert_eq!(a, b);
    assert_eq!(
        a,
        "$argon2i$v=19$m=4096,t=3,p=1$c29tZXNhbHQ$iWh06vD8Fy27wf9npn6FXWiCX4K6pW6Ue1Bnzz07Z8A"
    );
}

#[test]
fn tokens_are_base64_of_32_bytes() {
    assert_eq!(token_from_bytes(&[0u8; 32]), format!("{}=", "A".repeat(43)));
    assert_eq!(token_from_bytes(b"Man"), "TWFu");
    let t = generate_token();
    assert_eq!(t.len(), 44);
    assert!(t.ends_with('='));
}

#[test]
fn account_numbers_have_eight_digits() {
    for _ in 0..100 {
        let n = random_account_number();
        assert!((10_000_000..99_999_999).contains(&n));
    }
}

#[test]
fn tokens_against_the_clock() {
    let t = login_token_now("fresh".to_string(), Uuid::nil()).unwrap();
    assert_eq!(t.token, "fresh");
    assert_eq!(t.expiry_date - t.start_date, TOKEN_LIFETIME_MICROS);
    assert!(t.start_date > 1_500_000_000_000_000);
    assert_eq!(check_token_now(Some(t)).unwrap(), "00000000-0000-0000-0000-000000000000");
    assert!(kind(check_token_now(Some(token(0, 100)))) == DatabaseErrorKind::AuthenticationError);
    assert!(kind(check_token_now(None)) == DatabaseErrorKind::NotFound);
}

#[test]
fn deleting_a_missing_row_is_not_found() {
    assert!(check_delete_processed(Ok(1)).is_ok());
    assert!(kind(check_delete_processed(Ok(0))) == DatabaseErrorKind::NotFound);
    assert!(kind(check_delete_processed(Err(QueryFailure::Other))) == DatabaseErrorKind::DatabaseFailure);
    assert!(kind(check_query_processed(Ok(0))) == DatabaseErrorKind::AlreadyExists);
}

#[test]
fn loading_no_records_is_not_found() {
    assert_eq!(loaded_records(Ok(vec![1, 2])).unwrap(), vec![1, 2]);
    assert!(kind(loaded_records::<i32>(Ok(vec![]))) == DatabaseErrorKind::NotFound);
    assert!(kind(loaded_records::<i32>(Err(QueryFailure::OtherDatabaseError))) == DatabaseErrorKind::DatabaseFailure);
}
