//! The banking client's side of a session with the load balancer: the
//! requests it sends and how it reads the answers.

use vstd::prelude::*;

use crate::id::{uuid_text, Uuid};
use crate::request::{
    AccountType, AuthenticateType, DetailedType, Request, RequestType, ResultType,
};

verus! {

/// Whether `r` is a request from the client of type `field_type` and detail
/// `detail`, carrying `data`, with empty ids and token.
pub open spec fn is_client_request(
    r: Request,
    field_type: RequestType,
    detail: DetailedType,
    data: Seq<String>,
) -> bool {
    &&& r.field_type == field_type
    &&& r.user_id@ == Seq::<char>::empty()
    &&& r.client_id@ == Seq::<char>::empty()
    &&& r.data@ == data
    &&& r.from_client
    &&& r.token_id@ == Seq::<char>::empty()
    &&& r.detailed_type == Some(detail)
}

/// The text the client shows for an answer that brought no data.
pub open spec fn failure_notice_of(detailed_type: Option<DetailedType>) -> Option<Seq<char>> {
    match detailed_type {
        Some(DetailedType::Result(ResultType::Success)) => None,
        Some(DetailedType::Result(ResultType::InvalidArgs)) => Some("Invalid details given"@),
        Some(DetailedType::Result(ResultType::UnexpectedError)) => Some(
            "Unexpected error encountered!"@,
        ),
        Some(DetailedType::Result(ResultType::NotAuthenticated)) => Some(
            "Not authenticated?\nSHIT BROKE"@,
        ),
        _ => Some("Invalid return type given!!!\n SHIT VERY BROKE"@),
    }
}

/// The login request for a user name and password.
pub fn login_request(username: String, password: String) -> (res: Request)
    ensures
        is_client_request(
            res,
            RequestType::Authenticate,
            DetailedType::Auth(AuthenticateType::Login),
            seq![username, password],
        ),
{
    let mut data: Vec<String> = Vec::new();
    data.push(username);
    data.push(password);
    assert(data@ =~= seq![username, password]);
    Request {
        field_type: RequestType::Authenticate,
        user_id: String::new(),
        client_id: String::new(),
        data,
        from_client: true,
        token_id: String::new(),
        detailed_type: Some(DetailedType::Auth(AuthenticateType::Login)),
    }
}

/// The request that creates a user account from its JSON text.
pub fn new_user_request(user_json: String) -> (res: Request)
    ensures
        is_client_request(
            res,
            RequestType::Authenticate,
            DetailedType::Auth(AuthenticateType::NewUser),
            seq![user_json],
        ),
{
    let mut data: Vec<String> = Vec::new();
    data.push(user_json);
    assert(data@ =~= seq![user_json]);
    Request {
        field_type: RequestType::Authenticate,
        user_id: String::new(),
        client_id: String::new(),
        data,
        from_client: true,
        token_id: String::new(),
        detailed_type: Some(DetailedType::Auth(AuthenticateType::NewUser)),
    }
}

/// The bank account request of the given kind, made with the session's
/// token, from the nil client and without data.
pub fn account_request(token: &String, kind: AccountType) -> (res: Request)
    ensures
        res.field_type == RequestType::Account,
        res.user_id@ == Seq::<char>::empty(),
        res.client_id@ == uuid_text(Seq::new(16, |i: int| 0u8)),
        res.data@ == Seq::<String>::empty(),
        res.from_client,
        res.token_id@ == token@,
        res.detailed_type == Some(DetailedType::Account(kind)),
{
    let nil = Uuid::nil();
    assert(nil.bytes@ =~= Seq::new(16, |i: int| 0u8));
    let made = Request::new_from_fields(
        Vec::new(),
        nil,
        true,
        RequestType::Account,
        token,
        Some(DetailedType::Account(kind)),
    );
    match made {
        Ok(r) => r,
        Err(_) => Request::shutdown(),
    }
}

/// The data of an answer, when it reports success.
pub fn process_result(request: Request) -> (res: Option<Vec<String>>)
    ensures
        if request.detailed_type == Some(DetailedType::Result(ResultType::Success)) {
            res matches Some(d) && d@ == request.data@
        } else {
            res is None
        },
{
    match request.detailed_type {
        Some(DetailedType::Result(ResultType::Success)) => Some(request.data),
        _ => None,
    }
}

/// The text the client shows for an answer that brought no data, or `None`
/// for a successful answer.
pub fn failure_notice(request: &Request) -> (res: Option<&'static str>)
    ensures
        match res {
            Some(s) => failure_notice_of(request.detailed_type) == Some(s@),
            None => failure_notice_of(request.detailed_type) is None,
        },
{
    match request.detailed_type {
        Some(DetailedType::Result(ResultType::Success)) => None,
        Some(DetailedType::Result(ResultType::InvalidArgs)) => Some("Invalid details given"),
        Some(DetailedType::Result(ResultType::UnexpectedError)) => Some(
            "Unexpected error encountered!",
        ),
        Some(DetailedType::Result(ResultType::NotAuthenticated)) => Some(
            "Not authenticated?\nSHIT BROKE",
        ),
        _ => Some("Invalid return type given!!!\n SHIT VERY BROKE"),
    }
}

/// A day of the calendar, as year, month (1 to 12) and day of the month
/// (1 to 31).
#[derive(Debug, PartialEq, Eq, Structural, Clone, Copy)]
pub struct CalendarDate {
    pub year: i32,
    pub month: u32,
    pub day: u32,
}

/// What `chrono::NaiveDate::parse_from_str` makes of a text with the format
/// `"%d %m %Y"`: the year, month and day of the date it spells, or `None`
/// where it reports an error.
pub uninterp spec fn dmy_date(text: Seq<char>) -> Option<(i32, u32, u32)>;

/// Calls `chrono::NaiveDate::parse_from_str(text, "%d %m %Y")` and takes the
/// date apart. As chrono documents, a month is numbered from 1 to 12 and a
/// day of the month from 1 to 31.
#[verifier::external_body]
fn parse_dmy_date(text: &str) -> (res: Option<(i32, u32, u32)>)
    ensures
        res == dmy_date(text@),
        res matches Some((y, m, d)) ==> 1 <= m <= 12 && 1 <= d <= 31,
{
    match chrono::NaiveDate::parse_from_str(text, "%d %m %Y") {
        Ok(date) => Some((
            chrono::Datelike::year(&date),
            chrono::Datelike::month(&date),
            chrono::Datelike::day(&date),
        )),
        Err(_) => None,
    }
}

/// Calls `chrono::Utc::today().naive_utc()` and takes the date apart: the
/// current day in UTC. Only the ranges of month and day are stated; which
/// day it is depends on the clock.
#[verifier::external_body]
#[allow(deprecated)]
fn today_utc() -> (res: (i32, u32, u32))
    ensures
        1 <= res.1 <= 12,
        1 <= res.2 <= 31,
{
    let date = chrono::Utc::today().naive_utc();
    (chrono::Datelike::year(&date), chrono::Datelike::month(&date), chrono::Datelike::day(&date))
}

/// What a new user gives to open an account, with the day it joins.
#[derive(Debug)]
pub struct NewUserDetails {
    pub username: String,
    pub password: String,
    pub email: String,
    pub date_of_birth: CalendarDate,
    pub join_date: CalendarDate,
}

/// The date `(year, month, day)` as a `CalendarDate`.
pub open spec fn date_of(t: (i32, u32, u32)) -> CalendarDate {
    CalendarDate { year: t.0, month: t.1, day: t.2 }
}

/// The details of a new user from what was entered and the date of birth
/// read from it: `None` where the date of birth could not be read.
pub fn user_details_from(
    username: String,
    password: String,
    email: String,
    birth: Option<(i32, u32, u32)>,
    today: (i32, u32, u32),
) -> (res: Option<NewUserDetails>)
    ensures
        match birth {
            None => res is None,
            Some(b) => res matches Some(u) && u.username@ == username@ && u.password@
                == password@ && u.email@ == email@ && u.date_of_birth == date_of(b)
                && u.join_date == date_of(today),
        },
{
    match birth {
        None => None,
        Some((y, m, d)) => Some(
            NewUserDetails {
                username,
                password,
                email,
                date_of_birth: CalendarDate { year: y, month: m, day: d },
                join_date: CalendarDate { year: today.0, month: today.1, day: today.2 },
            },
        ),
    }
}

/// Today's date in UTC, the day a user who signs up now joins.
pub fn join_date_today() -> (res: CalendarDate)
    ensures
        1 <= res.month <= 12,
        1 <= res.day <= 31,
{
    let t = today_utc();
    CalendarDate { year: t.0, month: t.1, day: t.2 }
}

/// The details of a new user: the date of birth is read from `dob_text` in
/// the form `DD MM YYYY`, and the user joins today. `None` where the date of
/// birth cannot be read.
pub fn new_user_details(username: String, password: String, email: String, dob_text: &str) -> (res:
    Option<NewUserDetails>)
    ensures
        dmy_date(dob_text@) is None ==> res is None,
        dmy_date(dob_text@) matches Some(b) ==> res matches Some(u) && u.username@ == username@
            && u.password@ == password@ && u.email@ == email@ && u.date_of_birth == date_of(b)
            && 1 <= u.join_date.month <= 12 && 1 <= u.join_date.day <= 31,
{
    let birth = parse_dmy_date(dob_text);
    let today = today_utc();
    user_details_from(username, password, email, birth, today)
}

} // verus!
