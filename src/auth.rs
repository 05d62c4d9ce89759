use vstd::prelude::*;
use rand::Rng;
use vstd::utf8::encode_utf8;
use crate::text::{chars_of, is_white_space, white_space, push_char};
use crate::user::User;

verus! {

/// The claims of a session token: its expiry, as Unix seconds, and its payload.
pub struct Claims<T> {
    pub exp: usize,
    pub claims: T,
}

impl<T> Claims<T> {
    pub fn new(exp: usize, claims: T) -> (r: Claims<T>)
        ensures
            r.exp == exp,
            r.claims == claims,
    {
        Claims { exp, claims }
    }

    pub fn into_inner(self) -> (r: T)
        ensures
            r == self.claims,
    {
        self.claims
    }
}

/// Length of the secret that signs session tokens.
pub const SECRET_LEN: usize = 512;

/// An ASCII letter or digit.
pub open spec fn ascii_alphanumeric(c: char) -> bool {
    ('a' <= c <= 'z') || ('A' <= c <= 'Z') || ('0' <= c <= '9')
}

/// Relies on rand's `Alphanumeric` distribution drawn from `thread_rng`: a
/// byte uniformly drawn from the ASCII letters and digits.
#[verifier::external_body]
fn random_alphanumeric() -> (c: char)
    ensures
        ascii_alphanumeric(c),
{
    char::from(rand::thread_rng().sample(rand::distributions::Alphanumeric))
}

/// A fresh random secret for signing session tokens: 512 ASCII letters and digits.
pub fn random_secret() -> (r: String)
    ensures
        r@.len() == SECRET_LEN,
        forall|i: int| 0 <= i < r@.len() ==> ascii_alphanumeric(#[trigger] r@[i]),
{
    let mut out = String::new();
    let mut i: usize = 0;
    while i < SECRET_LEN
        invariant
            i <= SECRET_LEN,
            out@.len() == i,
            forall|k: int| 0 <= k < out@.len() ==> ascii_alphanumeric(#[trigger] out@[k]),
        decreases SECRET_LEN - i,
    {
        let c = random_alphanumeric();
        push_char(&mut out, c);
        i = i + 1;
    }
    out
}

/// Whether `address` is a valid email address, as the email_address crate judges.
pub uninterp spec fn valid_email(address: Seq<char>) -> bool;

/// Whether `c` is alphabetic or numeric in Unicode's terms.
pub uninterp spec fn alphanumeric(c: char) -> bool;

/// Whether `password` matches the bcrypt hash `hash`.
pub uninterp spec fn bcrypt_accepts(password: Seq<char>, hash: Seq<char>) -> bool;

/// Relies on `email_address::EmailAddress::is_valid`: it depends on the text alone.
#[verifier::external_body]
fn email_is_valid(address: &str) -> (r: bool)
    ensures
        r == valid_email(address@),
{
    email_address::EmailAddress::is_valid(address)
}

/// Relies on `char::is_alphanumeric`: it depends on the character alone.
#[verifier::external_body]
fn is_alphanumeric(c: char) -> (r: bool)
    ensures
        r == alphanumeric(c),
{
    c.is_alphanumeric()
}

/// Relies on `bcrypt::verify`: it depends on the password and the hash alone;
/// a hash that cannot be read matches nothing.
#[verifier::external_body]
fn bcrypt_verify(password: &str, hash: &str) -> (r: bool)
    ensures
        r == bcrypt_accepts(password@, hash@),
{
    bcrypt::verify(password, hash).unwrap_or(false)
}

/// Longest username, in UTF-8 bytes.
pub const MAX_USERNAME_BYTES: usize = 25;

/// Longest email address, in UTF-8 bytes.
pub const MAX_EMAIL_BYTES: usize = 75;

/// Why a registration is refused before it reaches the account store.
#[derive(Clone, Copy, Debug, PartialEq, Eq, Structural)]
pub enum RegistrationError {
    /// The username or the email address is too long.
    TooLong,
    /// The email address is not valid.
    InvalidEmail,
    /// The username holds a character that is not a letter or a digit.
    UnreadableUsername,
}

impl RegistrationError {
    /// The human-readable text of the error.
    pub fn message(&self) -> (r: String)
        ensures
            r@ == registration_error_text(*self),
    {
        match self {
            RegistrationError::TooLong => String::from_str(
                "Max 25 characters per username and 75 characters per email allowed.",
            ),
            RegistrationError::InvalidEmail => String::from_str("The email is not a valid email."),
            RegistrationError::UnreadableUsername => String::from_str(
                "Username must only contain readable characters",
            ),
        }
    }
}

pub open spec fn registration_error_text(e: RegistrationError) -> Seq<char> {
    match e {
        RegistrationError::TooLong => "Max 25 characters per username and 75 characters per email allowed."@,
        RegistrationError::InvalidEmail => "The email is not a valid email."@,
        RegistrationError::UnreadableUsername => "Username must only contain readable characters"@,
    }
}

/// A username of letters and digits only.
pub open spec fn readable_username(name: Seq<char>) -> bool {
    forall|i: int| 0 <= i < name.len() ==> alphanumeric(#[trigger] name[i]) && !white_space(name[i])
}

/// The first rule a registration breaks, if any: lengths first, then the
/// email address, then the username's characters.
pub open spec fn registration_check(name: &str, email: &str) -> Result<(), RegistrationError> {
    if encode_utf8(name@).len() > MAX_USERNAME_BYTES || encode_utf8(email@).len() > MAX_EMAIL_BYTES {
        Err(RegistrationError::TooLong)
    } else if !valid_email(email@) {
        Err(RegistrationError::InvalidEmail)
    } else if !readable_username(name@) {
        Err(RegistrationError::UnreadableUsername)
    } else {
        Ok(())
    }
}

/// Checks a registration's username and email address.
pub fn check_registration(username: &str, email: &str) -> (r: Result<(), RegistrationError>)
    ensures
        r == registration_check(username, email),
{
    if username.as_bytes().len() > MAX_USERNAME_BYTES || email.as_bytes().len() > MAX_EMAIL_BYTES {
        return Err(RegistrationError::TooLong);
    }
    if !email_is_valid(email) {
        return Err(RegistrationError::InvalidEmail);
    }
    let chars = chars_of(username);
    let mut i: usize = 0;
    while i < chars.len()
        invariant
            i <= chars.len(),
            chars@ == username@,
            valid_email(email@),
            encode_utf8(username@).len() <= MAX_USERNAME_BYTES,
            encode_utf8(email@).len() <= MAX_EMAIL_BYTES,
            forall|k: int|
                0 <= k < i ==> alphanumeric(#[trigger] chars@[k]) && !white_space(chars@[k]),
        decreases chars.len() - i,
    {
        let c = chars[i];
        if !is_alphanumeric(c) || is_white_space(c) {
            assert(!(alphanumeric(username@[i as int]) && !white_space(username@[i as int])));
            return Err(RegistrationError::UnreadableUsername);
        }
        i = i + 1;
    }
    Ok(())
}

/// Whether `password` opens the account `user`.
pub fn password_matches(user: &User, password: &str) -> (r: bool)
    ensures
        r == bcrypt_accepts(password@, user@.password),
{
    bcrypt_verify(password, user.password())
}

/// The account found for a login, kept only if the password matches its hash.
pub fn check_login(found: Option<User>, password: &str) -> (r: Option<User>)
    ensures
        match found {
            None => r is None,
            Some(u) => if bcrypt_accepts(password@, u@.password) {
                r matches Some(v) && v == u
            } else {
                r is None
            },
        },
{
    match found {
        None => None,
        Some(u) => {
            if password_matches(&u, password) {
                Some(u)
            } else {
                None
            }
        },
    }
}

} // verus!
