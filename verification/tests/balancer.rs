use bank_network::balancer::{
    account_info_args, authentication_error_response, critical_error_response, first_argument,
    incorrect_arguments_response, login_credentials, login_request_for, login_response,
    parse_request, request_error_from, route_request, success_response, token_is_valid, serves_after_token_check, loop_stops_after,
    user_uuid_of, ErrorKind, ErrorResponse, RequestAction, RequestError, Route,
};
use bank_network::database::{DatabaseError, DatabaseErrorKind};
use bank_network::request::{
    AccountType, AuthenticateType, DetailedType, MiscType, Request, RequestType, ResultType,
};

fn request(field_type: RequestType, detail: Option<DetailedType>, data: Vec<&str>) -> Request {
    Request {
        field_type,
        user_id: "e78836e9-1982-4380-a678-a5b4db33d205".to_string(),
        client_id: "client-7".to_string(),
        data: data.into_iter().map(String::from).collect(),
        from_client: true,
        detailed_type: detail,
        token_id: "token".to_string(),
    }
}

#[test]
fn routes_logins_and_new_users() {
    let login = request(
        RequestType::Authenticate,
        Some(DetailedType::Auth(AuthenticateType::Login)),
        vec![],
    );
    assert!(route_request(&login) == Route::Login);
    let new_user = request(
        RequestType::Authenticate,
        Some(DetailedType::Auth(AuthenticateType::NewUser)),
        vec![],
    );
    assert!(route_request(&new_user) == Route::NewUser);
    let change = request(
        RequestType::Authenticate,
        Some(DetailedType::Auth(AuthenticateType::ChangePassword)),
        vec![],
    );
    assert!(route_request(&change) == Route::CheckToken);
    let account = request(
        RequestType::Account,
        Some(DetailedType::Auth(AuthenticateType::Login)),
        vec![],
    );
    assert!(route_request(&account) == Route::CheckToken);
}

#[test]
fn parses_account_requests() {
    let list = request(
        RequestType::Account,
        Some(DetailedType::Account(AccountType::ListAccounts)),
        vec![],
    );
    assert!(parse_request(&list) == RequestAction::ListAccounts);
    let info = request(
        RequestType::Account,
        Some(DetailedType::Account(AccountType::AccountInfo)),
        vec![],
    );
    assert!(parse_request(&info) == RequestAction::AccountInfo);
    let new = request(
        RequestType::Account,
        Some(DetailedType::Account(AccountType::NewAccount)),
        vec![],
    );
    assert!(parse_request(&new) == RequestAction::NewAccount);
    let misc = request(RequestType::Misc, Some(DetailedType::Misc(MiscType::NewClient)), vec![]);
    assert!(parse_request(&misc) == RequestAction::Ignore);
    let odd = request(
        RequestType::Account,
        Some(DetailedType::Misc(MiscType::Unknown)),
        vec![],
    );
    assert!(parse_request(&odd) == RequestAction::Ignore);
}

#[test]
fn database_errors_become_request_errors() {
    let cases = [
        (DatabaseErrorKind::AlreadyExists, ErrorKind::InvalidArguments),
        (DatabaseErrorKind::AuthenticationError, ErrorKind::NotAuthenticated),
        (DatabaseErrorKind::DatabaseFailure, ErrorKind::DatabaseFailure),
        (DatabaseErrorKind::Unknown, ErrorKind::DatabaseFailure),
        (DatabaseErrorKind::NotFound, ErrorKind::InvalidArguments),
    ];
    for (db, expected) in cases {
        assert!(request_error_from(DatabaseError::new(db)).error_kind == expected);
        let converted: RequestError = DatabaseError::new(db).into();
        assert!(converted.error_kind == expected);
    }
}

#[test]
fn request_error_messages() {
    assert_eq!(
        RequestError::new(ErrorKind::NotAuthenticated).message(),
        "The request was not authenticated properly!"
    );
    assert_eq!(
        RequestError::new(ErrorKind::InvalidArguments).message(),
        "Invalid arguments were provided"
    );
    assert_eq!(
        RequestError::new(ErrorKind::DatabaseFailure).message(),
        "An unexpected error occurred with the database connection"
    );
    assert_eq!(
        RequestError::new(ErrorKind::NetworkFailure).message(),
        "An unexpected error occurred with the network connection"
    );
    assert_eq!(RequestError::new(ErrorKind::Shutdown).message(), "Need to shutdown");
}

#[test]
fn processing_errors() {
    match RequestError::new(ErrorKind::NotAuthenticated).process("c".to_string()) {
        ErrorResponse::Reply(r) => {
            assert!(r.detailed_type == Some(DetailedType::Result(ResultType::NotAuthenticated)));
            assert_eq!(r.client_id, "c");
            assert!(r.data.is_empty());
        }
        _ => panic!("expected a reply"),
    }
    match RequestError::new(ErrorKind::InvalidArguments).process("c".to_string()) {
        ErrorResponse::Reply(r) => {
            assert!(r.detailed_type == Some(DetailedType::Result(ResultType::InvalidArgs)))
        }
        _ => panic!("expected a reply"),
    }
    assert!(matches!(
        RequestError::new(ErrorKind::DatabaseFailure).process("c".to_string()),
        ErrorResponse::Crash
    ));
    assert!(matches!(
        RequestError::new(ErrorKind::Shutdown).process("c".to_string()),
        ErrorResponse::CloseDatabase
    ));
    assert!(matches!(
        RequestError::new(ErrorKind::NetworkFailure).process("c".to_string()),
        ErrorResponse::Stop
    ));
}

#[test]
fn error_answers() {
    let r = incorrect_arguments_response("a".to_string());
    assert!(r.detailed_type == Some(DetailedType::Result(ResultType::InvalidArgs)));
    let r = authentication_error_response("a".to_string());
    assert!(r.detailed_type == Some(DetailedType::Result(ResultType::NotAuthenticated)));
    let r = critical_error_response("a".to_string());
    assert!(r.detailed_type == Some(DetailedType::Result(ResultType::UnexpectedError)));
    assert!(r.field_type == RequestType::Result);
    assert_eq!(r.client_id, "a");
    let r = success_response("{}".to_string(), "b".to_string());
    assert_eq!(r.data, vec!["{}".to_string()]);
    assert!(r.detailed_type == Some(DetailedType::Result(ResultType::Success)));
}

#[test]
fn login_request_keeps_ids() {
    let msg = request(RequestType::Account, None, vec!["x"]);
    let r = login_request_for(&msg);
    assert!(r.field_type == RequestType::Authenticate);
    assert_eq!(r.user_id, msg.user_id);
    assert_eq!(r.client_id, "client-7");
    assert!(r.data.is_empty());
    assert!(!r.from_client);
    assert_eq!(r.token_id, "");
    assert!(r.detailed_type == Some(DetailedType::Auth(AuthenticateType::Login)));
}

#[test]
fn arguments_come_from_first_datum() {
    let msg = request(RequestType::Authenticate, None, vec!["alice", "secret"]);
    assert_eq!(first_argument(&msg).unwrap(), "alice");
    let (user, password) = login_credentials(&msg).unwrap();
    assert_eq!(user, "alice");
    assert_eq!(password, "alice");
    let empty = request(RequestType::Authenticate, None, vec![]);
    assert!(first_argument(&empty).unwrap_err().error_kind == ErrorKind::InvalidArguments);
    assert!(login_credentials(&empty).unwrap_err().error_kind == ErrorKind::InvalidArguments);
}

#[test]
fn login_answers() {
    let ok = login_response(&"c".to_string(), Some("tok".to_string()));
    assert_eq!(ok.data, vec!["tok".to_string()]);
    assert!(ok.detailed_type == Some(DetailedType::Result(ResultType::Success)));
    let failed = login_response(&"c".to_string(), None);
    assert!(failed.data.is_empty());
    assert!(failed.detailed_type == Some(DetailedType::Result(ResultType::UnexpectedError)));
}

#[test]
fn token_check_sets_user() {
    let mut msg = request(RequestType::Account, None, vec![]);
    assert_eq!(token_is_valid(&mut msg, Ok("user-1".to_string())), Ok(true));
    assert_eq!(msg.user_id, "user-1");
    let expired = token_is_valid(
        &mut msg,
        Err(DatabaseError::new(DatabaseErrorKind::AuthenticationError)),
    );
    assert_eq!(expired, Ok(false));
    assert_eq!(msg.user_id, "user-1");
    let missing = token_is_valid(&mut msg, Err(DatabaseError::new(DatabaseErrorKind::NotFound)));
    assert!(missing.unwrap_err().error_kind == ErrorKind::InvalidArguments);
    assert_eq!(msg.user_id, "user-1");
    assert!(serves_after_token_check(&Ok(true)));
    assert!(!serves_after_token_check(&Ok(false)));
    assert!(!serves_after_token_check(&Err(RequestError::new(ErrorKind::InvalidArguments))));
}

#[test]
fn account_info_arguments() {
    let msg = request(RequestType::Account, None, vec!["12345678"]);
    let (number, owner) = account_info_args(&msg).unwrap();
    assert_eq!(number, 12345678);
    assert_eq!(owner.to_string(), "e78836e9-1982-4380-a678-a5b4db33d205");
    let bad_number = request(RequestType::Account, None, vec!["12a"]);
    assert!(account_info_args(&bad_number).unwrap_err().error_kind == ErrorKind::InvalidArguments);
    let mut bad_user = request(RequestType::Account, None, vec!["-5"]);
    bad_user.user_id = "nobody".to_string();
    assert!(account_info_args(&bad_user).unwrap_err().error_kind == ErrorKind::InvalidArguments);
    assert!(user_uuid_of(&bad_user, ErrorKind::NotAuthenticated).unwrap_err().error_kind
        == ErrorKind::NotAuthenticated);
    let signed = request(RequestType::Account, None, vec!["+42"]);
    assert_eq!(account_info_args(&signed).unwrap().0, 42);
}

#[test]
fn balancer_stops_once_an_answer_is_sent() {
    let reply = RequestError::new(ErrorKind::InvalidArguments).process("c".to_string());
    assert!(loop_stops_after(&reply, true));
    assert!(!loop_stops_after(&reply, false));
    assert!(!loop_stops_after(&ErrorResponse::Stop, true));
    assert!(!loop_stops_after(&ErrorResponse::CloseDatabase, true));
}
