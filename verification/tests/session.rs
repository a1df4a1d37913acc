use bank_network::data::{Data, DataTypes, RequestOLD};
use bank_network::request::{
    AccountType, AuthenticateType, DetailedType, Request, RequestType, ResultType,
};
use bank_network::session::{
    account_request, failure_notice, login_request, new_user_details, new_user_request,
    join_date_today, process_result, user_details_from, CalendarDate,
};

#[test]
fn login_request_carries_credentials() {
    let r = login_request("bob".to_string(), "pw".to_string());
    assert!(r.field_type == RequestType::Authenticate);
    assert_eq!(r.data, vec!["bob".to_string(), "pw".to_string()]);
    assert!(r.from_client);
    assert!(r.detailed_type == Some(DetailedType::Auth(AuthenticateType::Login)));
    let n = new_user_request("{}".to_string());
    assert!(n.detailed_type == Some(DetailedType::Auth(AuthenticateType::NewUser)));
    assert_eq!(n.data, vec!["{}".to_string()]);
}

#[test]
fn account_requests_use_token_and_nil_client() {
    let r = account_request(&"tok".to_string(), AccountType::ListAccounts);
    assert!(r.field_type == RequestType::Account);
    assert_eq!(r.client_id, "00000000-0000-0000-0000-000000000000");
    assert_eq!(r.token_id, "tok");
    assert!(r.data.is_empty());
    assert!(r.detailed_type == Some(DetailedType::Account(AccountType::ListAccounts)));
}

#[test]
fn results_and_notices() {
    let ok = Request::success_result(vec!["t".to_string()], "c".to_string(), ResultType::Success);
    assert!(failure_notice(&ok).is_none());
    assert_eq!(process_result(ok), Some(vec!["t".to_string()]));
    let bad = Request::success_result(vec![], "c".to_string(), ResultType::InvalidArgs);
    assert_eq!(failure_notice(&bad), Some("Invalid details given"));
    assert_eq!(process_result(bad), None);
    let other = Request::shutdown();
    assert_eq!(failure_notice(&other), Some("Invalid return type given!!!\n SHIT VERY BROKE"));
    assert_eq!(process_result(other), None);
}

#[test]
fn data_back_end_starts_empty() {
    let mut d = Data::new();
    d.start();
    assert!(d.balancers.is_empty());
    let r = RequestOLD { data_type: DataTypes::NewClient, data: "x".to_string(), options: String::new() };
    assert!(r.data_type == DataTypes::NewClient);
}

#[test]
fn new_user_details_reads_birth_date() {
    let u = new_user_details("ann".to_string(), "pw".to_string(), "a@b.c".to_string(), "01 02 2000")
        .unwrap();
    assert_eq!(u.username, "ann");
    assert_eq!(u.email, "a@b.c");
    assert_eq!(u.date_of_birth, CalendarDate { year: 2000, month: 2, day: 1 });
    assert!(u.join_date.year >= 2024);
    assert!(new_user_details("a".to_string(), "p".to_string(), "e".to_string(), "31 02 2000").is_none());
    assert!(new_user_details("a".to_string(), "p".to_string(), "e".to_string(), "1/2/2000").is_none());
}

#[test]
fn user_details_from_values() {
    let u = user_details_from(
        "bob".to_string(),
        "x".to_string(),
        "e".to_string(),
        Some((1990, 12, 31)),
        (2024, 1, 2),
    )
    .unwrap();
    assert_eq!(u.date_of_birth, CalendarDate { year: 1990, month: 12, day: 31 });
    assert_eq!(u.join_date, CalendarDate { year: 2024, month: 1, day: 2 });
    assert!(user_details_from("a".to_string(), "b".to_string(), "c".to_string(), None, (2024, 1, 2)).is_none());
}

#[test]
fn join_date_is_today() {
    let d = join_date_today();
    assert!(d.year >= 2024);
    assert!((1..=12).contains(&d.month));
    assert!((1..=31).contains(&d.day));
}
