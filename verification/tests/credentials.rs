use bank_network::credentials::{
    check_login, hash_password, stored_user, try_check_login, try_password_matches,
};
use bank_network::id::Uuid;
use bank_network::session::CalendarDate;
use bank_network::database::QueryFailure;

#[test]
fn unreadable_hash_is_none() {
    assert_eq!(try_password_matches(&"not a hash".to_string(), &"pw".to_string()), None);
    assert_eq!(try_check_login(Ok("not a hash".to_string()), &"pw".to_string()), None);
}

#[test]
fn login_outcomes() {
    let h = hash_password("pw".to_string());
    assert_eq!(check_login(Ok(h.clone()), &"pw".to_string()), Ok(()));
    assert_eq!(check_login(Ok(h.clone()), &"no".to_string()), Err(QueryFailure::NotFound));
    assert_eq!(
        check_login(Err(QueryFailure::UniqueViolation), &"pw".to_string()),
        Err(QueryFailure::UniqueViolation)
    );
    assert_eq!(try_check_login(Ok(h.clone()), &"pw".to_string()), Some(Ok(())));
    assert_eq!(try_check_login(Ok(h), &"no".to_string()), Some(Err(QueryFailure::NotFound)));
    assert_eq!(try_check_login(Err(QueryFailure::Other), &"pw".to_string()), Some(Err(QueryFailure::Other)));
}

#[test]
fn stored_user_keeps_only_the_hash() {
    let id = Uuid::parse_str("e78836e9-1982-4380-a678-a5b4db33d205").unwrap();
    let dob = CalendarDate { year: 1990, month: 1, day: 1 };
    let u = stored_user(
        id,
        "Test_01".to_string(),
        "password".to_string(),
        "test1@example.com".to_string(),
        dob,
        dob,
        false,
    );
    assert_eq!(u.username, "Test_01");
    assert_eq!(u.email, "test1@example.com");
    assert!(u.user_uuid.same(&id));
    assert!(!u.archived);
    assert_ne!(u.password, "password");
    assert!(u.password.starts_with("$argon2i$v=19$"));
    assert_eq!(check_login(Ok(u.password.clone()), &"password".to_string()), Ok(()));
    assert_eq!(check_login(Ok(u.password), &"other".to_string()), Err(QueryFailure::NotFound));
}
