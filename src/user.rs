use vstd::prelude::*;
use vstd::utf8::encode_utf8;
use base64::Engine;
use crate::text::{
    NumberError, dec_int, parse_int, split_once, chars_of, split_once_chars, parse_int_chars,
    push_dec_int, push_char, push_chars,
};

verus! {

/// How long a free paint lasts before the next one: twelve hours, in nanoseconds.
pub const COOLDOWN_NANOS: i128 = 43_200_000_000_000;

/// A bound on the size of any Unix time in nanoseconds that the clock gives.
pub const CLOCK_BOUND_NANOS: i128 = 100_000_000_000_000_000_000_000;

#[verifier::external_type_specification]
#[verifier::external_body]
pub struct ExDecodeError(base64::DecodeError);

/// Why an account operation failed.
#[derive(Debug)]
pub enum UserError {
    /// Neither a free paint nor a credit is available now.
    Unconsumable,
    /// An activation token did not name an account.
    InvalidActivationToken,
    /// An activation token was not URL-safe base64.
    Base64(base64::DecodeError),
    /// The account number in an activation token was not an `i32`.
    ParseInt(NumberError),
}

/// What the account store has to record after a paint was granted.
#[derive(Clone, Copy, Debug, PartialEq, Eq, Structural)]
pub enum CreditUpdate {
    /// One credit was spent.
    Spend,
    /// The free paint was used; the next one comes at this time.
    Renew(i128),
}

/// An account, as the canvas sees it.
#[derive(Clone, Debug)]
pub struct User {
    id: i32,
    email: String,
    username: String,
    password: String,
    credits: i32,
    next_free_credit: i128,
    activated: bool,
}

/// The plain values of an account; times are Unix times in nanoseconds.
pub struct UserView {
    pub id: int,
    pub email: Seq<char>,
    pub username: Seq<char>,
    pub password: Seq<char>,
    pub credits: int,
    pub next_free_credit: int,
    pub activated: bool,
}

impl View for User {
    type V = UserView;

    closed spec fn view(&self) -> UserView {
        UserView {
            id: self.id as int,
            email: self.email@,
            username: self.username@,
            password: self.password@,
            credits: self.credits as int,
            next_free_credit: self.next_free_credit as int,
            activated: self.activated,
        }
    }
}

/// A paint may go ahead at `now`: the free one is due, or a credit is left.
pub open spec fn can_consume_at(u: UserView, now: int) -> bool {
    now >= u.next_free_credit || u.credits > 0
}

/// What granting a paint at `now` records, or why none is granted.
pub open spec fn credit_update_at(u: UserView, now: int) -> Result<CreditUpdate, ()> {
    if now < u.next_free_credit {
        if u.credits <= 0 {
            Err(())
        } else {
            Ok(CreditUpdate::Spend)
        }
    } else {
        Ok(CreditUpdate::Renew((now + COOLDOWN_NANOS) as i128))
    }
}

/// The account after `c` was recorded.
pub open spec fn applied(u: UserView, c: CreditUpdate) -> UserView {
    match c {
        CreditUpdate::Spend => UserView { credits: u.credits - 1, ..u },
        CreditUpdate::Renew(t) => UserView { next_free_credit: t as int, ..u },
    }
}

/// Relies on `time::OffsetDateTime::now_utc` and `unix_timestamp_nanos`: the
/// current time; its year lies within +-999,999, so its size in nanoseconds
/// stays below the bound.
#[verifier::external_body]
fn utc_now_nanos() -> (r: i128)
    ensures
        -CLOCK_BOUND_NANOS < r < CLOCK_BOUND_NANOS,
{
    time::OffsetDateTime::now_utc().unix_timestamp_nanos()
}

impl User {
    pub fn new(
        id: i32,
        email: String,
        username: String,
        password: String,
        credits: i32,
        next_free_credit: i128,
        activated: bool,
    ) -> (r: User)
        ensures
            r@ == (UserView {
                id: id as int,
                email: email@,
                username: username@,
                password: password@,
                credits: credits as int,
                next_free_credit: next_free_credit as int,
                activated,
            }),
    {
        User { id, email, username, password, credits, next_free_credit, activated }
    }

    /// A copy of the account.
    pub fn replica(&self) -> (r: User)
        ensures
            r@ == self@,
    {
        User {
            id: self.id,
            email: self.email.clone(),
            username: self.username.clone(),
            password: self.password.clone(),
            credits: self.credits,
            next_free_credit: self.next_free_credit,
            activated: self.activated,
        }
    }

    /// The display name.
    pub fn name(&self) -> (r: &String)
        ensures
            r@ == self@.username,
    {
        &self.username
    }

    pub fn activated(&self) -> (r: bool)
        ensures
            r == self@.activated,
    {
        self.activated
    }

    pub fn credits(&self) -> (r: i32)
        ensures
            r == self@.credits,
    {
        self.credits
    }

    pub fn username(&self) -> (r: &str)
        ensures
            r@ == self@.username,
    {
        self.username.as_str()
    }

    pub fn email(&self) -> (r: &str)
        ensures
            r@ == self@.email,
    {
        self.email.as_str()
    }

    /// The stored password hash.
    pub fn password(&self) -> (r: &str)
        ensures
            r@ == self@.password,
    {
        self.password.as_str()
    }

    pub fn id(&self) -> (r: i32)
        ensures
            r == self@.id,
    {
        self.id
    }

    /// When the next free paint is due, as a Unix time in nanoseconds.
    pub fn next_free_credit(&self) -> (r: i128)
        ensures
            r == self@.next_free_credit,
    {
        self.next_free_credit
    }

    /// Whether a paint may go ahead at `now`.
    pub fn can_consume_credit_at(&self, now: i128) -> (r: bool)
        ensures
            r == can_consume_at(self@, now as int),
    {
        self.next_free_credit <= now || self.credits > 0
    }

    /// Whether a paint may go ahead now, as `can_consume_credit_at` says at
    /// the current time; always so while a credit is left.
    pub fn can_consume_credit(&self) -> (r: bool)
        ensures
            exists|now: int|
                -CLOCK_BOUND_NANOS < now < CLOCK_BOUND_NANOS && r == #[trigger] can_consume_at(
                    self@,
                    now,
                ),
            self@.credits > 0 ==> r,
    {
        let now = utc_now_nanos();
        self.can_consume_credit_at(now)
    }

    /// What granting a paint at `now` would record, without recording it.
    pub fn credit_update(&self, now: i128) -> (r: Result<CreditUpdate, UserError>)
        requires
            now <= i128::MAX - COOLDOWN_NANOS,
        ensures
            match credit_update_at(self@, now as int) {
                Ok(c) => r matches Ok(d) && d == c,
                Err(_) => r matches Err(e) && e is Unconsumable,
            },
            r is Ok <==> can_consume_at(self@, now as int),
    {
        if self.next_free_credit > now {
            if self.credits <= 0 {
                return Err(UserError::Unconsumable);
            }
            Ok(CreditUpdate::Spend)
        } else {
            Ok(CreditUpdate::Renew(now + COOLDOWN_NANOS))
        }
    }

    /// Records `c`, which `credit_update` gave for this account.
    pub fn apply_credit_update(&mut self, c: CreditUpdate)
        requires
            c is Spend ==> old(self)@.credits > 0,
        ensures
            final(self)@ == applied(old(self)@, c),
    {
        match c {
            CreditUpdate::Spend => {
                self.credits = self.credits - 1;
            },
            CreditUpdate::Renew(t) => {
                self.next_free_credit = t;
            },
        }
    }

    /// Spends a paint at `now`: the free one if it is due, which moves the
    /// next one twelve hours on and leaves the credits; else one credit; else
    /// fails with `Unconsumable` and changes nothing. Returns what the account
    /// store has to record.
    pub fn consume_credit_at(&mut self, now: i128) -> (r: Result<CreditUpdate, UserError>)
        requires
            now <= i128::MAX - COOLDOWN_NANOS,
        ensures
            match credit_update_at(old(self)@, now as int) {
                Ok(c) => r matches Ok(d) && d == c && final(self)@ == applied(old(self)@, c),
                Err(_) => r matches Err(e) && e is Unconsumable && final(self)@ == old(self)@,
            },
    {
        match self.credit_update(now) {
            Ok(c) => {
                self.apply_credit_update(c);
                Ok(c)
            },
            Err(e) => Err(e),
        }
    }

    /// Spends a paint now, as `consume_credit_at` does at the current time.
    pub fn consume_credit(&mut self) -> (r: Result<CreditUpdate, UserError>)
        ensures
            exists|now: int|
                -CLOCK_BOUND_NANOS < now < CLOCK_BOUND_NANOS && match #[trigger] credit_update_at(
                    old(self)@,
                    now,
                ) {
                    Ok(c) => r matches Ok(d) && d == c && final(self)@ == applied(old(self)@, c),
                    Err(_) => r matches Err(e) && e is Unconsumable && final(self)@ == old(
                        self,
                    )@,
                },
    {
        let now = utc_now_nanos();
        self.consume_credit_at(now)
    }
}

/// What URL-safe base64 with padding makes of the bytes `b`.
pub uninterp spec fn url_safe_encoded(b: Seq<u8>) -> Seq<char>;

/// What URL-safe base64 decoding makes of `s`, if it is valid.
pub uninterp spec fn url_safe_decoded(s: Seq<char>) -> Option<Seq<u8>>;

/// What lossy UTF-8 decoding makes of the bytes `b`.
pub uninterp spec fn utf8_lossy(b: Seq<u8>) -> Seq<char>;

/// Relies on base64's `URL_SAFE` engine, `Engine::encode`: the encoding
/// depends on the bytes alone. It panics only where the encoded length
/// overflows `usize`, which needs a slice longer than `isize::MAX` bytes,
/// more than Rust lets any slice hold.
#[verifier::external_body]
fn url_safe_encode(b: &[u8]) -> (r: String)
    ensures
        r@ == url_safe_encoded(b@),
{
    base64::engine::general_purpose::URL_SAFE.encode(b)
}

/// Relies on base64's `URL_SAFE` engine, `Engine::decode`: the outcome
/// depends on the text alone.
#[verifier::external_body]
fn url_safe_decode(s: &str) -> (r: Result<Vec<u8>, base64::DecodeError>)
    ensures
        r is Ok <==> url_safe_decoded(s@) is Some,
        r matches Ok(b) ==> b@ == url_safe_decoded(s@)->0,
{
    base64::engine::general_purpose::URL_SAFE.decode(s)
}

/// Relies on `String::from_utf8_lossy`: the text depends on the bytes alone.
#[verifier::external_body]
fn from_utf8_lossy(b: &[u8]) -> (r: String)
    ensures
        r@ == utf8_lossy(b@),
{
    String::from_utf8_lossy(b).into_owned()
}

/// The text behind an activation token: `<id>;<email>`.
pub open spec fn activation_text(u: UserView) -> Seq<char> {
    dec_int(u.id) + seq![';'] + u.email
}

/// What an activation token's text names: the account number and the email,
/// or, for a text without `;`, no account; or why the number is not an `i32`.
pub open spec fn activation_target(t: Seq<char>) -> Result<(int, Seq<char>), Option<NumberError>> {
    match split_once(t, ';') {
        None => Err(None),
        Some((id, email)) => match parse_int(id, 10, i32::MIN as int, i32::MAX as int) {
            Err(e) => Err(Some(e)),
            Ok(n) => Ok((n, email)),
        },
    }
}

/// Reads the decoded text of an activation token as `<id>;<email>`.
pub fn read_activation_text(text: &str) -> (r: Result<(i32, String), UserError>)
    ensures
        match activation_target(text@) {
            Ok((n, email)) => r matches Ok((i, e)) && i == n && e@ == email,
            Err(None) => r matches Err(e) && e is InvalidActivationToken,
            Err(Some(k)) => r matches Err(e) && e == UserError::ParseInt(k),
        },
{
    let chars = chars_of(text);
    match split_once_chars(&chars, ';') {
        None => Err(UserError::InvalidActivationToken),
        Some((id, email)) => match parse_int_chars(&id, 10, i32::MIN as i64, i32::MAX as i64) {
            Err(e) => Err(UserError::ParseInt(e)),
            Ok(n) => {
                let mut out = String::new();
                let mut i: usize = 0;
                while i < email.len()
                    invariant
                        i <= email.len(),
                        out@ == email@.subrange(0, i as int),
                    decreases email.len() - i,
                {
                    push_char(&mut out, email[i]);
                    assert(out@ =~= email@.subrange(0, i + 1));
                    i = i + 1;
                }
                assert(email@.subrange(0, email.len() as int) == email@);
                Ok((n as i32, out))
            },
        },
    }
}

/// Reads an activation token: URL-safe base64 of `<id>;<email>`.
pub fn parse_activation_token(token: &str) -> (r: Result<(i32, String), UserError>)
    ensures
        match url_safe_decoded(token@) {
            None => r matches Err(e) && e is Base64,
            Some(b) => match activation_target(utf8_lossy(b)) {
                Ok((n, email)) => r matches Ok((i, e)) && i == n && e@ == email,
                Err(None) => r matches Err(e) && e is InvalidActivationToken,
                Err(Some(k)) => r matches Err(e) && e == UserError::ParseInt(k),
            },
        },
{
    match url_safe_decode(token) {
        Err(e) => Err(UserError::Base64(e)),
        Ok(bytes) => {
            let text = from_utf8_lossy(bytes.as_slice());
            read_activation_text(text.as_str())
        },
    }
}

impl User {
    /// The token that activates this account: URL-safe base64 of the UTF-8
    /// bytes of `<id>;<email>`.
    pub fn activation_token(&self) -> (r: String)
        ensures
            r@ == url_safe_encoded(encode_utf8(activation_text(self@))),
    {
        let mut text = String::new();
        push_dec_int(&mut text, self.id as i64);
        push_char(&mut text, ';');
        push_chars(&mut text, self.email.as_str());
        assert(text@ =~= activation_text(self@));
        let bytes = text.as_str().as_bytes();
        url_safe_encode(bytes)
    }
}

/// An identity that may or may not have signed in.
#[derive(Clone, Debug)]
pub enum MaybeUser {
    Authorized(User),
    Unauthorized,
}


/// A paint asked for before the free one is due, with no credit left, is
/// refused, and the account keeps its credits.
pub proof fn lemma_no_credit_refused(u: UserView, now: int)
    requires
        u.credits == 0,
        now < u.next_free_credit,
    ensures
        credit_update_at(u, now) is Err,
        !can_consume_at(u, now),
{
}

/// A paint asked for once the free one is due is granted for free: the next
/// free paint moves to twelve hours after `now` and the credits stay.
pub proof fn lemma_free_paint_renews(u: UserView, now: int)
    requires
        now >= u.next_free_credit,
        i128::MIN <= now <= i128::MAX - COOLDOWN_NANOS,
    ensures
        credit_update_at(u, now) == Ok::<CreditUpdate, ()>(
            CreditUpdate::Renew((now + COOLDOWN_NANOS) as i128),
        ),
        applied(u, CreditUpdate::Renew((now + COOLDOWN_NANOS) as i128)).credits == u.credits,
        applied(u, CreditUpdate::Renew((now + COOLDOWN_NANOS) as i128)).next_free_credit == now
            + COOLDOWN_NANOS,
{
}

} // verus!
