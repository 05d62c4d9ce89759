use canvadot::auth::{check_login, check_registration, random_secret, Claims, RegistrationError};
use canvadot::text::NumberError;
use canvadot::user::{parse_activation_token, read_activation_text, CreditUpdate, User, UserError, COOLDOWN_NANOS};

const HOUR: i128 = 3_600_000_000_000;

fn account(credits: i32, next_free_credit: i128) -> User {
    User::new(
        1,
        String::from("bob@example.com"),
        String::from("bob"),
        String::from("hash"),
        credits,
        next_free_credit,
        true,
    )
}

#[test]
fn no_credit_before_free_paint_is_refused() {
    let now = 1_000 * HOUR;
    let mut u = account(0, now + HOUR);
    assert!(!u.can_consume_credit_at(now));
    let r = u.consume_credit_at(now);
    assert!(matches!(r, Err(UserError::Unconsumable)));
    assert_eq!(u.credits(), 0);
    assert_eq!(u.next_free_credit(), now + HOUR);
}

#[test]
fn free_paint_renews_and_keeps_credits() {
    let now = 1_000 * HOUR;
    let mut u = account(3, now - HOUR);
    assert!(u.can_consume_credit_at(now));
    let r = u.consume_credit_at(now).unwrap();
    assert_eq!(r, CreditUpdate::Renew(now + 12 * HOUR));
    assert_eq!(u.next_free_credit(), now + COOLDOWN_NANOS);
    assert_eq!(u.credits(), 3);
}

#[test]
fn free_paint_due_exactly_now() {
    let now = 5 * HOUR;
    let mut u = account(0, now);
    assert_eq!(u.consume_credit_at(now).unwrap(), CreditUpdate::Renew(now + COOLDOWN_NANOS));
}

#[test]
fn paid_paint_spends_a_credit() {
    let now = 1_000 * HOUR;
    let mut u = account(2, now + HOUR);
    assert_eq!(u.consume_credit_at(now).unwrap(), CreditUpdate::Spend);
    assert_eq!(u.credits(), 1);
    assert_eq!(u.next_free_credit(), now + HOUR);
    assert_eq!(u.consume_credit_at(now).unwrap(), CreditUpdate::Spend);
    assert!(matches!(u.consume_credit_at(now), Err(UserError::Unconsumable)));
    assert_eq!(u.credits(), 0);
}

#[test]
fn clock_paths() {
    let mut u = account(1, i128::MAX / 2);
    assert!(u.can_consume_credit());
    assert_eq!(u.consume_credit().unwrap(), CreditUpdate::Spend);
    assert!(!u.can_consume_credit());
    let mut v = account(0, 0);
    assert!(matches!(v.consume_credit().unwrap(), CreditUpdate::Renew(t) if t > COOLDOWN_NANOS));
}

#[test]
fn activation_token_round_trip() {
    let u = account(0, 0);
    let token = u.activation_token();
    assert_eq!(token, "MTtib2JAZXhhbXBsZS5jb20=");
    let (id, email) = parse_activation_token(&token).unwrap();
    assert_eq!((id, email.as_str()), (1, "bob@example.com"));
}

#[test]
fn activation_token_errors() {
    assert!(matches!(parse_activation_token("%%%"), Err(UserError::Base64(_))));
    assert!(matches!(parse_activation_token("bm9zZXA="), Err(UserError::InvalidActivationToken)));
    assert!(matches!(
        parse_activation_token("eDtib2I="),
        Err(UserError::ParseInt(NumberError::InvalidDigit))
    ));
    assert!(matches!(read_activation_text("12;a;b"), Ok((12, ref e)) if e == "a;b"));
}

#[test]
fn registration_rules() {
    assert_eq!(check_registration("bob", "bob@example.com"), Ok(()));
    assert_eq!(
        check_registration("abcdefghijklmnopqrstuvwxyz", "bob@example.com"),
        Err(RegistrationError::TooLong)
    );
    assert_eq!(check_registration("bob", "not an email"), Err(RegistrationError::InvalidEmail));
    assert_eq!(
        check_registration("bob!", "bob@example.com"),
        Err(RegistrationError::UnreadableUsername)
    );
    assert_eq!(
        check_registration("bob smith", "bob@example.com"),
        Err(RegistrationError::UnreadableUsername)
    );
    assert_eq!(check_registration("Zoë7", "bob@example.com"), Ok(()));
    assert_eq!(
        RegistrationError::TooLong.message(),
        "Max 25 characters per username and 75 characters per email allowed."
    );
}

#[test]
fn login_checks_password() {
    let hash = bcrypt::hash("secret", 4).unwrap();
    let u = User::new(1, String::from("a@b.c"), String::from("a"), hash, 0, 0, true);
    let kept = check_login(Some(u.clone()), "secret").unwrap();
    assert_eq!(kept.id(), 1);
    assert!(check_login(Some(u), "wrong").is_none());
    assert!(check_login(None, "secret").is_none());
}

#[test]
fn secret_is_alphanumeric() {
    let s = random_secret();
    assert_eq!(s.len(), 512);
    assert!(s.chars().all(|c| c.is_ascii_alphanumeric()));
    assert_ne!(s, random_secret());
}

#[test]
fn claims_hold_payload() {
    let c = Claims::new(99, String::from("payload"));
    assert_eq!(c.exp, 99);
    assert_eq!(c.into_inner(), "payload");
}
