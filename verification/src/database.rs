//! The decisions of the database layer: how query outcomes become errors,
//! when a login token is valid, and who may change an account.

use vstd::prelude::*;
use vstd::string::*;

use crate::clock::{clock_reading, now_micros};
use crate::id::{random_in_range, uuid_text, Uuid};

verus! {

/// Longest time a token may stay valid, in microseconds: 52 weeks.
pub const MAX_TOKEN_AGE_MICROS: i64 = 31_449_600_000_000;

/// Time a freshly issued login token stays valid, in microseconds: 30
/// minutes.
pub const TOKEN_LIFETIME_MICROS: i64 = 1_800_000_000;

/// The kinds of failure the database layer reports.
#[derive(PartialEq, Eq, Structural, Clone, Copy, Debug)]
pub enum DatabaseErrorKind {
    AuthenticationError,
    NotFound,
    AlreadyExists,
    DatabaseFailure,
    Unknown,
}

/// A failure of the database layer.
#[derive(PartialEq, Eq, Structural, Clone, Copy, Debug)]
pub struct DatabaseError {
    pub error_kind: DatabaseErrorKind,
}

/// How a database query failed, as far as the database layer tells failures
/// apart.
#[derive(PartialEq, Eq, Structural, Clone, Copy, Debug)]
pub enum QueryFailure {
    /// No record matched the query.
    NotFound,
    /// The database refused a record because a unique field was taken.
    UniqueViolation,
    /// The database refused the query for another reason.
    OtherDatabaseError,
    /// The query failed before or after it reached the database.
    Other,
}

/// A login token as the database stores it; times are microseconds since the
/// Unix epoch.
pub struct Token {
    pub token: String,
    pub client_uuid: Uuid,
    pub start_date: i64,
    pub expiry_date: i64,
}

/// The message each kind of database error is shown with.
pub open spec fn database_error_text(kind: DatabaseErrorKind) -> Seq<char> {
    match kind {
        DatabaseErrorKind::AuthenticationError => "The request was not authenticated properly!"@,
        DatabaseErrorKind::AlreadyExists => "A record with those unique fields already exists!"@,
        DatabaseErrorKind::DatabaseFailure => "An unexpected error occured with the database connection"@,
        DatabaseErrorKind::Unknown => "Unknown failure"@,
        DatabaseErrorKind::NotFound => "The record was not found!"@,
    }
}

/// The outcome of a statement that must alter rows: success when it altered
/// any; a statement that altered none, or broke a unique field, found the
/// record already there; any other failure is a failure of the database.
pub open spec fn query_processed_outcome(query: Result<usize, QueryFailure>) -> Result<(), DatabaseErrorKind> {
    match query {
        Ok(rows) => if rows > 0 {
            Ok(())
        } else {
            Err(DatabaseErrorKind::AlreadyExists)
        },
        Err(QueryFailure::UniqueViolation) => Err(DatabaseErrorKind::AlreadyExists),
        Err(_) => Err(DatabaseErrorKind::DatabaseFailure),
    }
}

/// Whether a stored token is valid at time `now`: it has not expired, it
/// starts before it expires, and it spans less than 52 weeks.
pub open spec fn token_valid_at(start: int, expiry: int, now: int) -> bool {
    &&& now < expiry
    &&& start < expiry
    &&& start + MAX_TOKEN_AGE_MICROS > expiry
}

impl DatabaseError {
    /// A database error of the given kind.
    pub fn new(error_kind: DatabaseErrorKind) -> (res: DatabaseError)
        ensures
            res.error_kind == error_kind,
    {
        DatabaseError { error_kind }
    }

    /// The message the error is shown with.
    pub fn message(&self) -> (res: String)
        ensures
            res@ == database_error_text(self.error_kind),
    {
        match self.error_kind {
            DatabaseErrorKind::AuthenticationError => String::from_str(
                "The request was not authenticated properly!",
            ),
            DatabaseErrorKind::AlreadyExists => String::from_str(
                "A record with those unique fields already exists!",
            ),
            DatabaseErrorKind::DatabaseFailure => String::from_str(
                "An unexpected error occured with the database connection",
            ),
            DatabaseErrorKind::Unknown => String::from_str("Unknown failure"),
            DatabaseErrorKind::NotFound => String::from_str("The record was not found!"),
        }
    }

    /// The terse text the error is debug-printed with.
    pub fn debug_text(&self) -> (res: String)
        ensures
            res@ == "Error occurred!!!"@,
    {
        String::from_str("Error occurred!!!")
    }
}

/// Checks that a statement which must alter rows did so.
pub fn check_query_processed(query: Result<usize, QueryFailure>) -> (res: Result<(), DatabaseError>)
    ensures
        match query_processed_outcome(query) {
            Ok(()) => res is Ok,
            Err(kind) => res matches Err(e) && e.error_kind == kind,
        },
{
    match query {
        Ok(rows) => {
            if rows > 0 {
                Ok(())
            } else {
                Err(DatabaseError::new(DatabaseErrorKind::AlreadyExists))
            }
        },
        Err(QueryFailure::UniqueViolation) => Err(DatabaseError::new(DatabaseErrorKind::AlreadyExists)),
        Err(_) => Err(DatabaseError::new(DatabaseErrorKind::DatabaseFailure)),
    }
}

/// The outcome of a statement that removes a record: success when it removed
/// any row; a statement that removed none found no record; a failure of the
/// statement counts as in `query_processed_outcome`.
pub open spec fn delete_outcome_of(query: Result<usize, QueryFailure>) -> Result<(), DatabaseErrorKind> {
    match query {
        Ok(rows) => if rows > 0 {
            Ok(())
        } else {
            Err(DatabaseErrorKind::NotFound)
        },
        Err(_) => query_processed_outcome(query),
    }
}

/// Checks that a statement which removes a record removed one.
pub fn check_delete_processed(query: Result<usize, QueryFailure>) -> (res: Result<(), DatabaseError>)
    ensures
        match delete_outcome_of(query) {
            Ok(()) => res is Ok,
            Err(kind) => res matches Err(e) && e.error_kind == kind,
        },
{
    match query {
        Ok(rows) => {
            if rows > 0 {
                Ok(())
            } else {
                Err(DatabaseError::new(DatabaseErrorKind::NotFound))
            }
        },
        Err(_) => check_query_processed(query),
    }
}

/// The records a query for all records of a user loaded: a user with none
/// has no record to be found; a failure is reported as for a single lookup.
pub fn loaded_records<T>(loaded: Result<Vec<T>, QueryFailure>) -> (res: Result<Vec<T>, DatabaseError>)
    ensures
        match loaded {
            Ok(v) => if v@.len() > 0 {
                res matches Ok(w) && w@ == v@
            } else {
                res matches Err(e) && e.error_kind == DatabaseErrorKind::NotFound
            },
            Err(f) => res matches Err(e) && e.error_kind == (if f == QueryFailure::NotFound {
                DatabaseErrorKind::NotFound
            } else {
                DatabaseErrorKind::DatabaseFailure
            }),
        },
{
    match loaded {
        Ok(v) => {
            if v.len() > 0 {
                Ok(v)
            } else {
                Err(DatabaseError::new(DatabaseErrorKind::NotFound))
            }
        },
        Err(f) => Err(lookup_failure(f)),
    }
}

/// The error a failed lookup of a single record is reported with: the record
/// was not found, or the database failed.
pub fn lookup_failure(failure: QueryFailure) -> (res: DatabaseError)
    ensures
        res.error_kind == (if failure == QueryFailure::NotFound {
            DatabaseErrorKind::NotFound
        } else {
            DatabaseErrorKind::DatabaseFailure
        }),
{
    if failure == QueryFailure::NotFound {
        DatabaseError::new(DatabaseErrorKind::NotFound)
    } else {
        DatabaseError::new(DatabaseErrorKind::DatabaseFailure)
    }
}

/// Checks the token that matched a login token id, if any, at time `now`,
/// and gives the text of the UUID of the client it was issued to.
pub fn check_token(found: Option<Token>, now: i64) -> (res: Result<String, DatabaseError>)
    requires
        found matches Some(t) ==> t.start_date <= i64::MAX - MAX_TOKEN_AGE_MICROS,
    ensures
        match found {
            None => res matches Err(e) && e.error_kind == DatabaseErrorKind::NotFound,
            Some(t) => if token_valid_at(t.start_date as int, t.expiry_date as int, now as int) {
                res matches Ok(s) && s@ == uuid_text(t.client_uuid.bytes@)
            } else {
                res matches Err(e) && e.error_kind == DatabaseErrorKind::AuthenticationError
            },
        },
{
    let token = match found {
        Some(t) => t,
        None => {
            return Err(DatabaseError::new(DatabaseErrorKind::NotFound));
        },
    };
    if now >= token.expiry_date {
        return Err(DatabaseError::new(DatabaseErrorKind::AuthenticationError));
    }
    if token.start_date >= token.expiry_date {
        return Err(DatabaseError::new(DatabaseErrorKind::AuthenticationError));
    }
    if token.start_date + MAX_TOKEN_AGE_MICROS <= token.expiry_date {
        return Err(DatabaseError::new(DatabaseErrorKind::AuthenticationError));
    }
    Ok(token.client_uuid.to_string())
}

/// The token issued at a successful login at time `now`: valid from `now`
/// for 30 minutes.
pub fn new_login_token(token: String, client_uuid: Uuid, now: i64) -> (res: Token)
    requires
        now <= i64::MAX - TOKEN_LIFETIME_MICROS,
    ensures
        res.token@ == token@,
        res.client_uuid == client_uuid,
        res.start_date == now,
        res.expiry_date == now + TOKEN_LIFETIME_MICROS,
{
    Token { token, client_uuid, start_date: now, expiry_date: now + TOKEN_LIFETIME_MICROS }
}

/// Checks the token that matched a login token id, if any, against the
/// wall clock: what `check_token` gives for the time the clock read.
pub fn check_token_now(found: Option<Token>) -> (res: Result<String, DatabaseError>)
    requires
        found matches Some(t) ==> t.start_date <= i64::MAX - MAX_TOKEN_AGE_MICROS,
    ensures
        exists|now: i64|
            #[trigger] clock_reading(now) && match found {
                None => res matches Err(e) && e.error_kind == DatabaseErrorKind::NotFound,
                Some(t) => if token_valid_at(
                    t.start_date as int,
                    t.expiry_date as int,
                    now as int,
                ) {
                    res matches Ok(s) && s@ == uuid_text(t.client_uuid.bytes@)
                } else {
                    res matches Err(e) && e.error_kind == DatabaseErrorKind::AuthenticationError
                },
            },
{
    let now = now_micros();
    let res = check_token(found, now);
    assert(clock_reading(now));
    res
}

/// The token issued at a successful login, valid for 30 minutes from the
/// time the wall clock reads; `None` where that time plus 30 minutes would
/// not fit an `i64`.
pub fn login_token_now(token: String, client_uuid: Uuid) -> (res: Option<Token>)
    ensures
        exists|now: i64|
            #[trigger] clock_reading(now) && if now <= i64::MAX - TOKEN_LIFETIME_MICROS {
                res matches Some(t) && t.token@ == token@ && t.client_uuid == client_uuid
                    && t.start_date == now && t.expiry_date == now + TOKEN_LIFETIME_MICROS
            } else {
                res is None
            },
{
    let now = now_micros();
    if now <= i64::MAX - TOKEN_LIFETIME_MICROS {
        let t = new_login_token(token, client_uuid, now);
        assert(clock_reading(now));
        Some(t)
    } else {
        assert(clock_reading(now));
        None
    }
}

/// Allows a change to the account of `user_uuid` only to the owner of the
/// token that `token_check` checked: a failed check is passed on, and a token
/// of another user is an authentication error.
pub fn authorize_owner(token_check: Result<String, DatabaseError>, user_uuid: &Uuid) -> (res:
    Result<(), DatabaseError>)
    ensures
        match token_check {
            Err(e) => res == Err::<(), DatabaseError>(e),
            Ok(owner) => if owner@ == uuid_text(user_uuid.bytes@) {
                res is Ok
            } else {
                res matches Err(e) && e.error_kind == DatabaseErrorKind::AuthenticationError
            },
        },
{
    match token_check {
        Err(e) => Err(e),
        Ok(owner) => {
            let expected = user_uuid.to_string();
            if owner == expected {
                Ok(())
            } else {
                Err(DatabaseError::new(DatabaseErrorKind::AuthenticationError))
            }
        },
    }
}

/// The outcome of replacing a user's password hash: done when exactly one
/// row changed, the user was not found when none did, and a failure of the
/// database otherwise.
pub fn password_update_outcome(result: Result<usize, QueryFailure>) -> (res: Result<
    bool,
    DatabaseError,
>)
    requires
        !(result matches Ok(n) && n > 1),
    ensures
        match result {
            Ok(n) => if n == 1 {
                res == Ok::<bool, DatabaseError>(true)
            } else {
                res matches Err(e) && e.error_kind == DatabaseErrorKind::NotFound
            },
            Err(_) => res matches Err(e) && e.error_kind == DatabaseErrorKind::DatabaseFailure,
        },
{
    match result {
        Ok(n) => {
            if n == 1 {
                Ok(true)
            } else {
                Err(DatabaseError::new(DatabaseErrorKind::NotFound))
            }
        },
        Err(_) => Err(DatabaseError::new(DatabaseErrorKind::DatabaseFailure)),
    }
}

/// Whether a user account may be archived, given whether it was found and,
/// if so, whether it is archived already.
pub fn archive_precheck(archived: Option<bool>) -> (res: Result<(), DatabaseError>)
    ensures
        match archived {
            None => res matches Err(e) && e.error_kind == DatabaseErrorKind::NotFound,
            Some(true) => res matches Err(e) && e.error_kind == DatabaseErrorKind::AlreadyExists,
            Some(false) => res is Ok,
        },
{
    match archived {
        None => Err(DatabaseError::new(DatabaseErrorKind::NotFound)),
        Some(true) => Err(DatabaseError::new(DatabaseErrorKind::AlreadyExists)),
        Some(false) => Ok(()),
    }
}

/// Smallest number a new bank account may get.
pub const MIN_ACCOUNT_NUMBER: i32 = 10_000_000;

/// Bound above the numbers a new bank account may get.
pub const ACCOUNT_NUMBER_BOUND: i32 = 99_999_999;

/// A random number for a new bank account: eight digits, drawn from
/// `[10000000, 99999999)`.
pub fn random_account_number() -> (res: i32)
    ensures
        MIN_ACCOUNT_NUMBER <= res < ACCOUNT_NUMBER_BOUND,
{
    random_in_range(MIN_ACCOUNT_NUMBER, ACCOUNT_NUMBER_BOUND)
}

/// A login token is valid for exactly its first 30 minutes: the token issued
/// at `issued` is valid at every time from `issued` until 30 minutes later,
/// and at no time after that.
pub proof fn lemma_login_token_lifetime(issued: int, now: int)
    requires
        issued <= now,
    ensures
        token_valid_at(issued, issued + TOKEN_LIFETIME_MICROS, now) <==> now < issued
            + TOKEN_LIFETIME_MICROS,
{
}

} // verus!
