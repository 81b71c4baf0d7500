//! Passwords and the identity that a session cookie carries.

use rand::distr::{Alphanumeric, SampleString};
use sha2::{Digest, Sha256};
use vstd::prelude::*;
use vstd::string::*;

verus! {

/// The account that a request is signed in as.
#[derive(Clone, Copy, Debug, PartialEq, Eq, Structural)]
pub struct AuthGuard(pub i32);

/// Stands for a request that is not signed in.
#[derive(Clone, Copy, Debug, PartialEq, Eq, Structural)]
pub struct AuthAnonymousGuard;

pub const PASSWORD_MINIMUM_LENGTH: usize = 4;

pub const PASSWORD_MAXIMUM_LENGTH: usize = 200;

/// The length of a generated password.
pub const PASSWORD_GENERATED_LENGTH: usize = 60;

/// The length of a generated recovery password.
pub const RECOVERY_GENERATED_LENGTH: usize = 40;

/// The SHA-256 digest of the UTF-8 bytes of `text`.
pub uninterp spec fn sha256(text: Seq<char>) -> Seq<u8>;

/// The number that `text` is the decimal notation of, as `str::parse` reads an
/// `i32`, or `None` where it is none.
pub uninterp spec fn parsed_user_id(text: Seq<char>) -> Option<i32>;

/// A letter of the English alphabet, in either case, or a digit.
pub open spec fn is_alphanumeric(c: char) -> bool {
    ('a' <= c && c <= 'z') || ('A' <= c && c <= 'Z') || ('0' <= c && c <= '9')
}

/// Computes the digest with `Sha256::digest` of the sha2 crate: 32 bytes that
/// depend on the bytes of `text` alone.
#[verifier::external_body]
fn digest(text: &str) -> (result: Vec<u8>)
    ensures
        result@ == sha256(text@),
        result@.len() == 32,
{
    Sha256::digest(text.as_bytes()).to_vec()
}

/// Draws `length` characters with `Alphanumeric.sample_string` of the rand
/// crate, on the thread's generator. Each of them is a letter of the English
/// alphabet or a digit; which ones come is left open. The call does not
/// return where the system gives the generator no seed.
#[verifier::external_body]
fn random_alphanumeric(length: usize) -> (result: String)
    ensures
        result@.len() == length,
        forall|i: int| 0 <= i < result@.len() ==> is_alphanumeric(#[trigger] result@[i]),
{
    Alphanumeric.sample_string(&mut rand::rng(), length)
}

/// Reads a user identifier with `str::parse` as an `i32`: a number where the
/// text is the decimal notation of one that fits, else nothing. The result
/// depends on the characters alone.
#[verifier::external_body]
fn parse_user_id(text: &str) -> (result: Option<i32>)
    ensures
        result == parsed_user_id(text@),
{
    text.parse::<i32>().ok()
}

impl AuthGuard {
    /// The guard for the value of the session cookie: the account whose
    /// identifier the value spells, and none without a cookie or where the
    /// value is no number.
    pub fn from_cookie(value: &Option<String>) -> (result: Option<AuthGuard>)
        ensures
            result == (match *value {
                Some(text) => match parsed_user_id(text@) {
                    Some(user_id) => Some(AuthGuard(user_id)),
                    None => None,
                },
                None => None,
            }),
    {
        match value {
            Some(text) => AuthGuard::from_user_id(parse_user_id(text.as_str())),
            None => None,
        }
    }

    /// The guard for what the cookie's value was read as.
    pub fn from_user_id(user_id: Option<i32>) -> (result: Option<AuthGuard>)
        ensures
            result == (match user_id {
                Some(id) => Some(AuthGuard(id)),
                None => None,
            }),
    {
        match user_id {
            Some(id) => Some(AuthGuard(id)),
            None => None,
        }
    }
}

impl AuthAnonymousGuard {
    /// The guard for a request that may not be signed in: there exactly when
    /// the request has no `AuthGuard`.
    pub fn from_guard(guard: &Option<AuthGuard>) -> (result: Option<AuthAnonymousGuard>)
        ensures
            result is Some <==> guard is None,
    {
        match guard {
            Some(_) => None,
            None => Some(AuthAnonymousGuard),
        }
    }
}

/// The stored form of a password: the digest of the password followed by the
/// salt.
pub fn password_encode(password: &str, salt: &str) -> (result: Vec<u8>)
    ensures
        result@ == sha256(password@ + salt@),
        result@.len() == 32,
{
    let mut password_salted = password.to_owned();
    password_salted.append(salt);
    digest(password_salted.as_str())
}

/// Whether the stored form `encoded` is the same as `reference`, byte for
/// byte.
pub fn password_matches(encoded: &[u8], reference: &[u8]) -> (result: bool)
    ensures
        result == (encoded@ == reference@),
{
    if encoded.len() != reference.len() {
        return false;
    }
    let mut i: usize = 0;
    while i < encoded.len()
        invariant
            encoded@.len() == reference@.len(),
            i <= encoded@.len(),
            forall|j: int| 0 <= j < i ==> encoded@[j] == reference@[j],
        decreases encoded@.len() - i,
    {
        if encoded[i] != reference[i] {
            return false;
        }
        i += 1;
    }
    assert(encoded@ =~= reference@);
    true
}

/// Whether `password` is the one that `reference` is the stored form of.
pub fn password_verify(reference: &[u8], password: &str, salt: &str) -> (result: bool)
    ensures
        result == (sha256(password@ + salt@) == reference@),
{
    let password_encoded = password_encode(password, salt);
    password_matches(password_encoded.as_slice(), reference)
}

/// A new password of 60 letters and digits, after its stored form.
pub fn password_generate(salt: &str) -> (result: (Vec<u8>, String))
    ensures
        result.1@.len() == PASSWORD_GENERATED_LENGTH,
        forall|i: int| 0 <= i < result.1@.len() ==> is_alphanumeric(#[trigger] result.1@[i]),
        result.0@ == sha256(result.1@ + salt@),
{
    let password = random_alphanumeric(PASSWORD_GENERATED_LENGTH);
    (password_encode(password.as_str(), salt), password)
}

/// A new recovery password of 40 letters and digits, after its stored form.
pub fn recovery_generate(salt: &str) -> (result: (Vec<u8>, String))
    ensures
        result.1@.len() == RECOVERY_GENERATED_LENGTH,
        forall|i: int| 0 <= i < result.1@.len() ==> is_alphanumeric(#[trigger] result.1@[i]),
        result.0@ == sha256(result.1@ + salt@),
{
    let recovery_password = random_alphanumeric(RECOVERY_GENERATED_LENGTH);
    (password_encode(recovery_password.as_str(), salt), recovery_password)
}

/// Whether a password may be chosen: it takes between 4 and 200 bytes.
pub fn password_policy_check(password: &str) -> (result: bool)
    ensures
        result == (PASSWORD_MINIMUM_LENGTH <= password.len() <= PASSWORD_MAXIMUM_LENGTH),
{
    let size: usize = password.len();
    size >= PASSWORD_MINIMUM_LENGTH && size <= PASSWORD_MAXIMUM_LENGTH
}

} // verus!
