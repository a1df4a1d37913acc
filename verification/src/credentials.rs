//! Password hashing and login token generation.

use vstd::prelude::*;
use vstd::utf8::*;

use crate::database::QueryFailure;
use crate::id::{chacha_random_bytes, Uuid};
use crate::session::CalendarDate;
use crate::text::utf8_bytes;

verus! {

/// Length in bytes of the salt a password is hashed with.
pub const SALT_LEN: usize = 16;

/// Length in bytes of the random part of a login token.
pub const TOKEN_BYTES: usize = 32;

/// What `argon2::hash_encoded` returns for a password and salt under
/// `argon2::Config::default()`: the encoded hash.
pub uninterp spec fn argon2_encoded(password: Seq<u8>, salt: Seq<u8>) -> Seq<char>;

/// What `argon2::verify_encoded` makes of an encoded hash and a password:
/// whether they match, or `None` where it reports an error.
pub uninterp spec fn argon2_verified(encoded: Seq<char>, password: Seq<u8>) -> Option<bool>;

/// The character of the standard Base64 alphabet for the six-bit value `v`.
pub open spec fn base64_char(v: int) -> char {
    if v < 26 {
        ('A' as int + v) as char
    } else if v < 52 {
        ('a' as int + (v - 26)) as char
    } else if v < 62 {
        ('0' as int + (v - 52)) as char
    } else if v == 62 {
        '+'
    } else {
        '/'
    }
}

/// The standard, padded Base64 text of some bytes, as `base64::encode`
/// writes it: every three bytes become four characters of six bits each,
/// and a last group of one or two bytes is padded with `=`.
pub open spec fn base64_standard(bytes: Seq<u8>) -> Seq<char>
    decreases bytes.len(),
{
    if bytes.len() == 0 {
        Seq::empty()
    } else if bytes.len() == 1 {
        let b0 = bytes[0] as int;
        seq![base64_char(b0 / 4), base64_char((b0 % 4) * 16), '=', '=']
    } else if bytes.len() == 2 {
        let (b0, b1) = (bytes[0] as int, bytes[1] as int);
        seq![base64_char(b0 / 4), base64_char((b0 % 4) * 16 + b1 / 16), base64_char((b1 % 16) * 4), '=']
    } else {
        let (b0, b1, b2) = (bytes[0] as int, bytes[1] as int, bytes[2] as int);
        seq![
            base64_char(b0 / 4),
            base64_char((b0 % 4) * 16 + b1 / 16),
            base64_char((b1 % 16) * 4 + b2 / 64),
            base64_char(b2 % 64),
        ] + base64_standard(bytes.skip(3))
    }
}

/// The length of the Base64 text of `n` bytes: four characters for every
/// started group of three.
pub proof fn lemma_base64_len(bytes: Seq<u8>)
    ensures
        base64_standard(bytes).len() == 4 * ((bytes.len() + 2) / 3),
    decreases bytes.len(),
{
    if bytes.len() >= 3 {
        lemma_base64_len(bytes.skip(3));
    }
}

/// The start of every hash encoded under `argon2::Config::default()`: the
/// variant Argon2i and version 19 (`0x13`), as `$argon2i$v=19$`.
pub open spec fn argon2_default_prefix() -> Seq<char> {
    seq!['$', 'a', 'r', 'g', 'o', 'n', '2', 'i', '$', 'v', '=', '1', '9', '$']
}

/// Whether `encoded` starts like every hash encoded under the default
/// configuration.
pub open spec fn has_default_prefix(encoded: Seq<char>) -> bool {
    encoded.len() >= argon2_default_prefix().len() && encoded.subrange(
        0,
        argon2_default_prefix().len() as int,
    ) == argon2_default_prefix()
}

/// Calls `argon2::hash_encoded` with `argon2::Config::default()`. Under the
/// default configuration it fails only for a password or salt longer than
/// 2^32 - 1 bytes or a salt shorter than 8, which `requires` leaves out; and
/// as the crate documents, `verify_encoded` accepts the result for the same
/// password. The encoding starts with the variant and version of the
/// default configuration, `$argon2i$v=19$`, as `encoding::encode_string`
/// writes it.
#[verifier::external_body]
fn argon2_hash_encoded(password: &[u8], salt: &[u8]) -> (res: String)
    requires
        password@.len() <= 0xffff_ffff,
        8 <= salt@.len() <= 0xffff_ffff,
    ensures
        res@ == argon2_encoded(password@, salt@),
        argon2_verified(res@, password@) == Some(true),
        has_default_prefix(res@),
{
    argon2::hash_encoded(password, salt, &argon2::Config::default()).unwrap()
}

/// Calls `argon2::verify_encoded`: whether the password matches the encoded
/// hash, or `None` where the crate reports an error (such as a text that is
/// no encoded hash).
#[verifier::external_body]
fn argon2_verify_encoded(encoded: &str, password: &[u8]) -> (res: Option<bool>)
    ensures
        res == argon2_verified(encoded@, password@),
{
    argon2::verify_encoded(encoded, password).ok()
}

/// Calls `base64::encode`: the standard, padded Base64 text of the bytes,
/// as the crate documents it.
#[verifier::external_body]
fn base64_encode(bytes: &[u8]) -> (res: String)
    ensures
        res@ == base64_standard(bytes@),
{
    base64::encode(bytes)
}

/// Hashes a password with the given salt.
pub fn hash_password_with_salt(password: &String, salt: &Vec<u8>) -> (res: String)
    requires
        encode_utf8(password@).len() <= 0xffff_ffff,
        8 <= salt@.len() <= 0xffff_ffff,
    ensures
        res@ == argon2_encoded(encode_utf8(password@), salt@),
        argon2_verified(res@, encode_utf8(password@)) == Some(true),
        has_default_prefix(res@),
{
    let bytes = utf8_bytes(password.as_str());
    argon2_hash_encoded(bytes.as_slice(), salt.as_slice())
}

/// Hashes a password with a fresh random salt of 16 bytes. The result is the
/// encoded hash, which `password_matches` accepts for the same password.
pub fn hash_password(password: String) -> (res: String)
    requires
        encode_utf8(password@).len() <= 0xffff_ffff,
    ensures
        exists|salt: Seq<u8>|
            salt.len() == SALT_LEN && res@ == #[trigger] argon2_encoded(encode_utf8(password@), salt),
        argon2_verified(res@, encode_utf8(password@)) == Some(true),
        has_default_prefix(res@),
{
    let salt = chacha_random_bytes(SALT_LEN);
    hash_password_with_salt(&password, &salt)
}

/// Whether `password` matches the encoded hash.
pub fn password_matches(hash: &String, password: &String) -> (res: bool)
    requires
        argon2_verified(hash@, encode_utf8(password@)) is Some,
    ensures
        Some(res) == argon2_verified(hash@, encode_utf8(password@)),
{
    let bytes = utf8_bytes(password.as_str());
    match argon2_verify_encoded(hash.as_str(), bytes.as_slice()) {
        Some(b) => b,
        None => false,
    }
}

/// Whether `password` matches the encoded hash, or `None` where the hash
/// cannot be checked.
pub fn try_password_matches(hash: &String, password: &String) -> (res: Option<bool>)
    ensures
        res == argon2_verified(hash@, encode_utf8(password@)),
{
    let bytes = utf8_bytes(password.as_str());
    if argon2_verify_encoded(hash.as_str(), bytes.as_slice()).is_some() {
        Some(password_matches(hash, password))
    } else {
        None
    }
}

/// The hash a user name's lookup gave, by its text, or how the lookup failed.
pub open spec fn lookup_view(lookup: Result<String, QueryFailure>) -> Result<Seq<char>, QueryFailure> {
    match lookup {
        Ok(h) => Ok(h@),
        Err(e) => Err(e),
    }
}

/// The outcome of a login whose lookup gave `lookup`, with `password`: a
/// failed lookup is passed on; a stored hash that accepts the password lets
/// the user in; any other hash counts as a user that was not found.
pub open spec fn login_check(lookup: Result<Seq<char>, QueryFailure>, password: Seq<char>) -> Result<
    (),
    QueryFailure,
> {
    match lookup {
        Err(e) => Err(e),
        Ok(h) => if argon2_verified(h, encode_utf8(password)) == Some(true) {
            Ok(())
        } else {
            Err(QueryFailure::NotFound)
        },
    }
}

/// Checks a login: `lookup` is the password hash stored for the user name,
/// or how looking it up failed. A failed lookup is passed on; a password
/// that does not match counts as a user that was not found.
pub fn check_login(lookup: Result<String, QueryFailure>, password: &String) -> (res: Result<
    (),
    QueryFailure,
>)
    requires
        lookup matches Ok(h) ==> argon2_verified(h@, encode_utf8(password@)) is Some,
    ensures
        match lookup {
            Err(e) => res == Err::<(), QueryFailure>(e),
            Ok(h) => if argon2_verified(h@, encode_utf8(password@)) == Some(true) {
                res is Ok
            } else {
                res == Err::<(), QueryFailure>(QueryFailure::NotFound)
            },
        },
        res == login_check(lookup_view(lookup), password@),
{
    match lookup {
        Err(e) => Err(e),
        Ok(hash) => {
            if password_matches(&hash, password) {
                Ok(())
            } else {
                Err(QueryFailure::NotFound)
            }
        },
    }
}

/// Like `check_login`, but returns `None` where the stored hash cannot be
/// checked.
pub fn try_check_login(lookup: Result<String, QueryFailure>, password: &String) -> (res: Option<
    Result<(), QueryFailure>,
>)
    ensures
        lookup matches Ok(h) && argon2_verified(h@, encode_utf8(password@)) is None ==> res is None,
        !(lookup matches Ok(h) && argon2_verified(h@, encode_utf8(password@)) is None) ==> res
            is Some,
        res matches Some(outcome) ==> match lookup {
            Err(e) => outcome == Err::<(), QueryFailure>(e),
            Ok(h) => if argon2_verified(h@, encode_utf8(password@)) == Some(true) {
                outcome is Ok
            } else {
                outcome == Err::<(), QueryFailure>(QueryFailure::NotFound)
            },
        },
{
    match lookup {
        Ok(hash) => {
            if try_password_matches(&hash, password).is_none() {
                None
            } else {
                Some(check_login(Ok(hash), password))
            }
        },
        Err(e) => Some(Err(e)),
    }
}

/// The login token made of the given random bytes: their Base64 text.
pub fn token_from_bytes(bytes: &[u8]) -> (res: String)
    ensures
        res@ == base64_standard(bytes@),
{
    base64_encode(bytes)
}

/// A fresh login token: the Base64 text of 32 bytes from a ChaCha20
/// generator seeded by the operating system, 44 characters long.
pub fn generate_token() -> (res: String)
    ensures
        exists|bytes: Seq<u8>| bytes.len() == TOKEN_BYTES && res@ == #[trigger] base64_standard(bytes),
        res@.len() == 44,
{
    let bytes = chacha_random_bytes(TOKEN_BYTES);
    let res = token_from_bytes(bytes.as_slice());
    proof {
        lemma_base64_len(bytes@);
    }
    res
}

/// A user account as it is stored: its password kept only as its hash.
pub struct StoredUser {
    pub user_uuid: Uuid,
    pub username: String,
    /// The encoded hash of the password.
    pub password: String,
    pub email: String,
    pub date_of_birth: CalendarDate,
    pub join_date: CalendarDate,
    pub archived: bool,
}

/// The record stored for a new user account: the details as given, with the
/// password replaced by its hash under a fresh salt, so that logging in with
/// the same password succeeds.
pub fn stored_user(
    user_uuid: Uuid,
    username: String,
    password: String,
    email: String,
    date_of_birth: CalendarDate,
    join_date: CalendarDate,
    archived: bool,
) -> (res: StoredUser)
    requires
        encode_utf8(password@).len() <= 0xffff_ffff,
    ensures
        res.user_uuid == user_uuid,
        res.username@ == username@,
        res.email@ == email@,
        res.date_of_birth == date_of_birth,
        res.join_date == join_date,
        res.archived == archived,
        exists|salt: Seq<u8>|
            salt.len() == SALT_LEN && res.password@ == #[trigger] argon2_encoded(
                encode_utf8(password@),
                salt,
            ),
        has_default_prefix(res.password@),
        login_check(Ok(res.password@), password@) == Ok::<(), QueryFailure>(()),
{
    let hash = hash_password(password);
    StoredUser {
        user_uuid,
        username,
        password: hash,
        email,
        date_of_birth,
        join_date,
        archived,
    }
}

} // verus!
