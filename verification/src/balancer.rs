//! The load balancer's handling of client requests: which handler a request
//! goes to, the arguments the handlers read from it, the answers they send,
//! and how a failed request is answered.

use vstd::prelude::*;
use vstd::string::*;

use crate::database::{DatabaseError, DatabaseErrorKind};
use crate::id::{uuid_parse, Uuid};
use crate::request::{
    AccountType, AuthenticateType, DetailedType, Request, RequestType, ResultType,
};
use crate::text::{parse_i32, parse_i32_spec};

verus! {

/// Why handling a request failed.
#[derive(PartialEq, Eq, Structural, Clone, Copy, Debug)]
pub enum ErrorKind {
    NotAuthenticated,
    InvalidArguments,
    DatabaseFailure,
    NetworkFailure,
    Shutdown,
}

/// A failure while handling a request.
#[derive(PartialEq, Eq, Structural, Clone, Copy, Debug)]
pub struct RequestError {
    pub error_kind: ErrorKind,
}

/// What the load balancer does about a failed request.
pub enum ErrorResponse {
    /// Send this answer to the client; once it is sent, the load balancer
    /// stops serving (see `loop_stops_after`).
    Reply(Request),
    /// Stop serving: the network has failed.
    Stop,
    /// Close the database connection and stop serving.
    CloseDatabase,
    /// Give up: the database has crashed.
    Crash,
}

/// The handler a client request goes to before its token is checked.
#[derive(PartialEq, Eq, Structural, Clone, Copy, Debug)]
pub enum Route {
    /// A login with user name and password.
    Login,
    /// The creation of a new user account.
    NewUser,
    /// Anything else: the request's token is checked first.
    CheckToken,
}

/// What an authenticated request asks of the load balancer.
#[derive(PartialEq, Eq, Structural, Clone, Copy, Debug)]
pub enum RequestAction {
    ListAccounts,
    AccountInfo,
    NewAccount,
    /// Nothing is done for the request.
    Ignore,
}

/// The request error that a database error becomes.
pub open spec fn kind_for_database_error(kind: DatabaseErrorKind) -> ErrorKind {
    match kind {
        DatabaseErrorKind::AlreadyExists => ErrorKind::InvalidArguments,
        DatabaseErrorKind::AuthenticationError => ErrorKind::NotAuthenticated,
        DatabaseErrorKind::DatabaseFailure => ErrorKind::DatabaseFailure,
        DatabaseErrorKind::Unknown => ErrorKind::DatabaseFailure,
        DatabaseErrorKind::NotFound => ErrorKind::InvalidArguments,
    }
}

/// The message each kind of request error is shown with.
pub open spec fn request_error_text(kind: ErrorKind) -> Seq<char> {
    match kind {
        ErrorKind::NotAuthenticated => "The request was not authenticated properly!"@,
        ErrorKind::InvalidArguments => "Invalid arguments were provided"@,
        ErrorKind::DatabaseFailure => "An unexpected error occurred with the database connection"@,
        ErrorKind::NetworkFailure => "An unexpected error occurred with the network connection"@,
        ErrorKind::Shutdown => "Need to shutdown"@,
    }
}

/// The handler a request goes to: logins and new users by their
/// authentication kind, everything else to the token check.
pub open spec fn route_of(field_type: RequestType, detailed_type: Option<DetailedType>) -> Route {
    if field_type == RequestType::Authenticate && detailed_type == Some(
        DetailedType::Auth(AuthenticateType::Login),
    ) {
        Route::Login
    } else if field_type == RequestType::Authenticate && detailed_type == Some(
        DetailedType::Auth(AuthenticateType::NewUser),
    ) {
        Route::NewUser
    } else {
        Route::CheckToken
    }
}

/// What an authenticated request asks for: only account requests of the
/// three account kinds ask for anything.
pub open spec fn action_of(field_type: RequestType, detailed_type: Option<DetailedType>) -> RequestAction {
    if field_type == RequestType::Account {
        match detailed_type {
            Some(DetailedType::Account(AccountType::ListAccounts)) => RequestAction::ListAccounts,
            Some(DetailedType::Account(AccountType::AccountInfo)) => RequestAction::AccountInfo,
            Some(DetailedType::Account(AccountType::NewAccount)) => RequestAction::NewAccount,
            _ => RequestAction::Ignore,
        }
    } else {
        RequestAction::Ignore
    }
}

/// Whether `r` is the answer of kind `result` to the client `client`,
/// carrying `data`.
pub open spec fn is_answer(r: Request, client: Seq<char>, data: Seq<String>, result: ResultType) -> bool {
    &&& r.field_type == RequestType::Result
    &&& r.user_id@ == Seq::<char>::empty()
    &&& r.client_id@ == client
    &&& r.data@ == data
    &&& !r.from_client
    &&& r.detailed_type == Some(DetailedType::Result(result))
    &&& r.token_id@ == Seq::<char>::empty()
}

impl RequestError {
    /// A request error of the given kind.
    pub fn new(error_kind: ErrorKind) -> (res: RequestError)
        ensures
            res.error_kind == error_kind,
    {
        RequestError { error_kind }
    }

    /// The message the error is shown with.
    pub fn message(&self) -> (res: String)
        ensures
            res@ == request_error_text(self.error_kind),
    {
        match self.error_kind {
            ErrorKind::NotAuthenticated => String::from_str(
                "The request was not authenticated properly!",
            ),
            ErrorKind::InvalidArguments => String::from_str("Invalid arguments were provided"),
            ErrorKind::DatabaseFailure => String::from_str(
                "An unexpected error occurred with the database connection",
            ),
            ErrorKind::NetworkFailure => String::from_str(
                "An unexpected error occurred with the network connection",
            ),
            ErrorKind::Shutdown => String::from_str("Need to shutdown"),
        }
    }

    /// What to do about the failed request of the client `client_id`: tell
    /// the client it is not authenticated or gave invalid arguments; stop on
    /// a network failure; close the database on a shutdown; give up when the
    /// database has failed.
    pub fn process(&self, client_id: String) -> (res: ErrorResponse)
        ensures
            match self.error_kind {
                ErrorKind::NotAuthenticated => res matches ErrorResponse::Reply(r) && is_answer(
                    r,
                    client_id@,
                    Seq::empty(),
                    ResultType::NotAuthenticated,
                ),
                ErrorKind::InvalidArguments => res matches ErrorResponse::Reply(r) && is_answer(
                    r,
                    client_id@,
                    Seq::empty(),
                    ResultType::InvalidArgs,
                ),
                ErrorKind::DatabaseFailure => res is Crash,
                ErrorKind::Shutdown => res is CloseDatabase,
                ErrorKind::NetworkFailure => res is Stop,
            },
    {
        match self.error_kind {
            ErrorKind::NotAuthenticated => ErrorResponse::Reply(
                authentication_error_response(client_id),
            ),
            ErrorKind::DatabaseFailure => ErrorResponse::Crash,
            ErrorKind::Shutdown => ErrorResponse::CloseDatabase,
            ErrorKind::InvalidArguments => ErrorResponse::Reply(
                incorrect_arguments_response(client_id),
            ),
            ErrorKind::NetworkFailure => ErrorResponse::Stop,
        }
    }
}

impl From<DatabaseError> for RequestError {
    fn from(error: DatabaseError) -> (res: Self) {
        match error.error_kind {
            DatabaseErrorKind::AlreadyExists => RequestError::new(ErrorKind::InvalidArguments),
            DatabaseErrorKind::AuthenticationError => RequestError::new(ErrorKind::NotAuthenticated),
            DatabaseErrorKind::DatabaseFailure => RequestError::new(ErrorKind::DatabaseFailure),
            DatabaseErrorKind::Unknown => RequestError::new(ErrorKind::DatabaseFailure),
            DatabaseErrorKind::NotFound => RequestError::new(ErrorKind::InvalidArguments),
        }
    }
}

impl vstd::std_specs::convert::FromSpecImpl<DatabaseError> for RequestError {
    open spec fn obeys_from_spec() -> bool {
        true
    }

    open spec fn from_spec(v: DatabaseError) -> RequestError {
        RequestError { error_kind: kind_for_database_error(v.error_kind) }
    }
}

/// The request error that a database error becomes.
pub fn request_error_from(error: DatabaseError) -> (res: RequestError)
    ensures
        res.error_kind == kind_for_database_error(error.error_kind),
{
    RequestError::from(error)
}

/// The handler a client request goes to.
pub fn route_request(msg: &Request) -> (res: Route)
    ensures
        res == route_of(msg.field_type, msg.detailed_type),
{
    if msg.field_type == RequestType::Authenticate {
        match msg.detailed_type {
            Some(DetailedType::Auth(AuthenticateType::Login)) => {
                return Route::Login;
            },
            Some(DetailedType::Auth(AuthenticateType::NewUser)) => {
                return Route::NewUser;
            },
            _ => {},
        }
    }
    Route::CheckToken
}

/// What an authenticated request asks of the load balancer.
pub fn parse_request(msg: &Request) -> (res: RequestAction)
    ensures
        res == action_of(msg.field_type, msg.detailed_type),
{
    match msg.field_type {
        RequestType::Account => match msg.detailed_type {
            Some(DetailedType::Account(AccountType::ListAccounts)) => RequestAction::ListAccounts,
            Some(DetailedType::Account(AccountType::AccountInfo)) => RequestAction::AccountInfo,
            Some(DetailedType::Account(AccountType::NewAccount)) => RequestAction::NewAccount,
            _ => RequestAction::Ignore,
        },
        _ => RequestAction::Ignore,
    }
}

/// The answer that tells a client it gave invalid arguments.
pub fn incorrect_arguments_response(client_id: String) -> (res: Request)
    ensures
        is_answer(res, client_id@, Seq::empty(), ResultType::InvalidArgs),
{
    Request::success_result(Vec::new(), client_id, ResultType::InvalidArgs)
}

/// The answer that tells a client it is not authenticated.
pub fn authentication_error_response(client_id: String) -> (res: Request)
    ensures
        is_answer(res, client_id@, Seq::empty(), ResultType::NotAuthenticated),
{
    Request::success_result(Vec::new(), client_id, ResultType::NotAuthenticated)
}

/// The answer that tells a client an unexpected error occurred.
pub fn critical_error_response(client_id: String) -> (res: Request)
    ensures
        is_answer(res, client_id@, Seq::empty(), ResultType::UnexpectedError),
{
    Request::success_result(Vec::new(), client_id, ResultType::UnexpectedError)
}

/// The successful answer to a client, carrying one datum.
pub fn success_response(datum: String, client_id: String) -> (res: Request)
    ensures
        is_answer(res, client_id@, seq![datum], ResultType::Success),
{
    let mut data: Vec<String> = Vec::new();
    data.push(datum);
    Request::success_result(data, client_id, ResultType::Success)
}

/// The request that asks the client of an unauthenticated request to log in.
pub fn login_request_for(msg: &Request) -> (res: Request)
    ensures
        res.field_type == RequestType::Authenticate,
        res.user_id@ == msg.user_id@,
        res.client_id@ == msg.client_id@,
        res.data@ == Seq::<String>::empty(),
        !res.from_client,
        res.token_id@ == Seq::<char>::empty(),
        res.detailed_type == Some(DetailedType::Auth(AuthenticateType::Login)),
{
    Request {
        field_type: RequestType::Authenticate,
        user_id: msg.user_id.clone(),
        client_id: msg.client_id.clone(),
        data: Vec::new(),
        from_client: false,
        token_id: String::new(),
        detailed_type: Some(DetailedType::Auth(AuthenticateType::Login)),
    }
}

/// The first datum of a request, which handlers read their argument from; a
/// request without data has invalid arguments.
pub fn first_argument(msg: &Request) -> (res: Result<String, RequestError>)
    ensures
        if msg.data@.len() > 0 {
            res matches Ok(s) && s@ == msg.data@[0]@
        } else {
            res matches Err(e) && e.error_kind == ErrorKind::InvalidArguments
        },
{
    if msg.data.len() > 0 {
        Ok(msg.data[0].clone())
    } else {
        Err(RequestError::new(ErrorKind::InvalidArguments))
    }
}

/// The user name and password a login request is checked with. Both are read
/// from the first datum of the request.
pub fn login_credentials(msg: &Request) -> (res: Result<(String, String), RequestError>)
    ensures
        if msg.data@.len() > 0 {
            res matches Ok((u, p)) && u@ == msg.data@[0]@ && p@ == msg.data@[0]@
        } else {
            res matches Err(e) && e.error_kind == ErrorKind::InvalidArguments
        },
{
    let username = first_argument(msg)?;
    let password = first_argument(msg)?;
    Ok((username, password))
}

/// The answer to a login: the new token on success, an unexpected error
/// otherwise.
pub fn login_response(client_id: &String, token: Option<String>) -> (res: Request)
    ensures
        match token {
            Some(t) => is_answer(res, client_id@, seq![t], ResultType::Success),
            None => is_answer(res, client_id@, Seq::empty(), ResultType::UnexpectedError),
        },
{
    match token {
        Some(t) => success_response(t, client_id.clone()),
        None => critical_error_response(client_id.clone()),
    }
}

/// What a token check tells the load balancer: `Ok(true)` for a valid
/// token, `Ok(false)` for a token that exists but has expired or is
/// otherwise invalid, and an error of invalid arguments where the token does
/// not exist or the check failed.
pub open spec fn token_check_outcome(check: Result<String, DatabaseError>) -> Result<bool, ErrorKind> {
    match check {
        Ok(_) => Ok(true),
        Err(e) => if e.error_kind == DatabaseErrorKind::AuthenticationError {
            Ok(false)
        } else {
            Err(ErrorKind::InvalidArguments)
        },
    }
}

/// Applies the outcome of checking a request's token: a valid token makes
/// the request one of the user it was issued to; an expired or invalid
/// token is reported as `Ok(false)`; a token that does not exist, or a
/// failed check, is an error of invalid arguments. Only a valid token
/// changes the request.
pub fn token_is_valid(msg: &mut Request, check: Result<String, DatabaseError>) -> (res: Result<
    bool,
    RequestError,
>)
    ensures
        match token_check_outcome(check) {
            Ok(b) => res == Ok::<bool, RequestError>(b),
            Err(k) => res matches Err(e) && e.error_kind == k,
        },
        match check {
            Ok(user) => final(msg).user_id@ == user@,
            Err(_) => final(msg).user_id@ == old(msg).user_id@,
        },
        final(msg).field_type == old(msg).field_type,
        final(msg).client_id@ == old(msg).client_id@,
        final(msg).data@ == old(msg).data@,
        final(msg).from_client == old(msg).from_client,
        final(msg).detailed_type == old(msg).detailed_type,
        final(msg).token_id@ == old(msg).token_id@,
{
    match check {
        Ok(user) => {
            msg.user_id = user;
            Ok(true)
        },
        Err(e) => {
            if e.error_kind == DatabaseErrorKind::AuthenticationError {
                Ok(false)
            } else {
                Err(RequestError::new(ErrorKind::InvalidArguments))
            }
        },
    }
}

/// Whether a request whose token check came out as `outcome` is served:
/// only a valid token lets it through; any other outcome asks the client to
/// log in instead, and the request itself is not carried out.
pub fn serves_after_token_check(outcome: &Result<bool, RequestError>) -> (res: bool)
    ensures
        res == (*outcome == Ok::<bool, RequestError>(true)),
{
    match outcome {
        Ok(b) => *b,
        Err(_) => false,
    }
}

/// A request is carried out only after a successful token check: where the
/// check finds no valid token, the client is asked to log in and the
/// request is not served. A token that exists but is no longer valid is
/// told apart from a missing one: only the latter is an error, of invalid
/// arguments.
pub proof fn lemma_no_service_without_valid_token(check: Result<String, DatabaseError>)
    ensures
        (token_check_outcome(check) == Ok::<bool, ErrorKind>(true)) <==> check is Ok,
        (token_check_outcome(check) == Ok::<bool, ErrorKind>(false)) <==> (check matches Err(e)
            && e.error_kind == DatabaseErrorKind::AuthenticationError),
        token_check_outcome(check) is Err ==> token_check_outcome(check) == Err::<bool, ErrorKind>(
            ErrorKind::InvalidArguments,
        ),
{
}

/// Whether the load balancer stops after dealing with a failed request, as
/// it does: it stops once an answer to the client was sent, and goes on
/// where the answer could not be sent, the database was closed or the
/// network failed. (A crashed database ends it by a panic before this.)
pub fn loop_stops_after(response: &ErrorResponse, reply_sent: bool) -> (res: bool)
    ensures
        res == (response is Reply && reply_sent),
{
    match response {
        ErrorResponse::Reply(_) => reply_sent,
        _ => false,
    }
}

/// The UUID of the user a request is made for; where the user id is no UUID
/// the request fails with `on_error`.
pub fn user_uuid_of(msg: &Request, on_error: ErrorKind) -> (res: Result<Uuid, RequestError>)
    ensures
        match uuid_parse(msg.user_id@) {
            Some(b) => res matches Ok(u) && u.bytes@ == b,
            None => res matches Err(e) && e.error_kind == on_error,
        },
{
    match Uuid::parse_str(msg.user_id.as_str()) {
        Some(u) => Ok(u),
        None => Err(RequestError::new(on_error)),
    }
}

/// The account number and owner of an account information request: the
/// number is the first datum, the owner the request's user; either failing
/// to parse is an invalid argument.
pub fn account_info_args(msg: &Request) -> (res: Result<(i32, Uuid), RequestError>)
    requires
        msg.data@.len() > 0,
    ensures
        match (parse_i32_spec(msg.data@[0]@), uuid_parse(msg.user_id@)) {
            (Some(n), Some(b)) => res matches Ok((m, u)) && m == n && u.bytes@ == b,
            _ => res matches Err(e) && e.error_kind == ErrorKind::InvalidArguments,
        },
{
    let number = match parse_i32(msg.data[0].as_str()) {
        Some(n) => n,
        None => {
            return Err(RequestError::new(ErrorKind::InvalidArguments));
        },
    };
    let owner = user_uuid_of(msg, ErrorKind::InvalidArguments)?;
    Ok((number, owner))
}

/// Only account requests ask the load balancer for anything, and each of
/// the three account actions is asked by exactly its own account detail: a
/// request of any other type (such as a transaction) is ignored, and no
/// other request makes a new account, lists accounts or reads one.
pub proof fn lemma_only_account_requests_act(field_type: RequestType, detailed_type: Option<DetailedType>)
    ensures
        field_type != RequestType::Account ==> action_of(field_type, detailed_type)
            == RequestAction::Ignore,
        (action_of(field_type, detailed_type) == RequestAction::NewAccount) <==> (field_type
            == RequestType::Account && detailed_type == Some(
            DetailedType::Account(AccountType::NewAccount),
        )),
        (action_of(field_type, detailed_type) == RequestAction::ListAccounts) <==> (field_type
            == RequestType::Account && detailed_type == Some(
            DetailedType::Account(AccountType::ListAccounts),
        )),
        (action_of(field_type, detailed_type) == RequestAction::AccountInfo) <==> (field_type
            == RequestType::Account && detailed_type == Some(
            DetailedType::Account(AccountType::AccountInfo),
        )),
{
}

/// Only logins and new-user requests bypass the token check, each by its
/// own authentication detail; every other request, whatever its type, has
/// its token checked.
pub proof fn lemma_only_logins_skip_the_token(field_type: RequestType, detailed_type: Option<DetailedType>)
    ensures
        (route_of(field_type, detailed_type) == Route::Login) <==> (field_type
            == RequestType::Authenticate && detailed_type == Some(
            DetailedType::Auth(AuthenticateType::Login),
        )),
        (route_of(field_type, detailed_type) == Route::NewUser) <==> (field_type
            == RequestType::Authenticate && detailed_type == Some(
            DetailedType::Auth(AuthenticateType::NewUser),
        )),
{
}

} // verus!
