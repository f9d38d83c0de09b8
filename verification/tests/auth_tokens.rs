use pitaia::auth::JwtService;
use pitaia::auth::{hash_password, verify_password};
use pitaia::ids::{format_id, parse_id};

#[test]
fn hash_then_verify_accepts_the_password() {
    let h = hash_password("longenough1").unwrap();
    assert_eq!(verify_password("longenough1", &h).unwrap(), true);
}

#[test]
fn verify_rejects_a_different_password() {
    let h = hash_password("longenough1").unwrap();
    assert_eq!(verify_password("longenough2", &h).unwrap(), false);
    assert_eq!(verify_password("", &h).unwrap(), false);
}

#[test]
fn two_hashes_of_one_password_differ_but_both_verify() {
    let h1 = hash_password("longenough1").unwrap();
    let h2 = hash_password("longenough1").unwrap();
    assert_ne!(h1, h2);
    assert_eq!(verify_password("longenough1", &h1).unwrap(), true);
    assert_eq!(verify_password("longenough1", &h2).unwrap(), true);
}

#[test]
fn verify_errors_on_malformed_hash() {
    assert!(verify_password("longenough1", "not-a-hash").is_err());
}

#[test]
fn issued_token_verifies_with_its_claims() {
    let jwt = JwtService::new(String::from("fixed-test-secret"));
    let id: u128 = 0x0123_4567_89ab_cdef_0123_4567_89ab_cdef;
    let now: u64 = 1_700_000_000;
    let token = jwt.generate_token(id, "ana", now).unwrap();
    let claims = jwt.verify_token(&token, now).unwrap();
    assert_eq!(claims.sub, format_id(id));
    assert_eq!(claims.username, "ana");
    assert_eq!(claims.iat, now);
    assert_eq!(claims.exp, now + 86400);
}

#[test]
fn token_fails_from_the_expiry_instant_on() {
    let jwt = JwtService::new(String::from("fixed-test-secret"));
    let now: u64 = 1_700_000_000;
    let token = jwt.generate_token(7, "ana", now).unwrap();
    assert!(jwt.verify_token(&token, now + 86399).is_ok());
    assert!(jwt.verify_token(&token, now + 86400).is_err());
    assert!(jwt.verify_token(&token, now + 100_000).is_err());
}

#[test]
fn token_fails_under_another_secret() {
    let jwt = JwtService::new(String::from("fixed-test-secret"));
    let other = JwtService::new(String::from("another-secret"));
    let now: u64 = 1_700_000_000;
    let token = jwt.generate_token(7, "ana", now).unwrap();
    assert!(other.verify_token(&token, now).is_err());
}

#[test]
fn garbage_token_is_rejected() {
    let jwt = JwtService::new(String::from("fixed-test-secret"));
    assert!(jwt.verify_token("definitely.not.atoken", 0).is_err());
    assert!(jwt.verify_token("", 0).is_err());
}

#[test]
fn id_text_round_trip() {
    let id: u128 = 0x0123_4567_89ab_cdef_0123_4567_89ab_cdef;
    let s = format_id(id);
    assert_eq!(s, "01234567-89ab-cdef-0123-456789abcdef");
    assert_eq!(s.len(), 36);
    assert_eq!(parse_id(&s), Some(id));
    let zero = format_id(0);
    assert_eq!(zero, "00000000-0000-0000-0000-000000000000");
    assert_eq!(parse_id(&zero), Some(0));
    let max = format_id(u128::MAX);
    assert_eq!(max, "ffffffff-ffff-ffff-ffff-ffffffffffff");
    assert_eq!(parse_id(&max), Some(u128::MAX));
}

#[test]
fn id_parse_accepts_upper_case_and_rejects_bad_shapes() {
    assert_eq!(
        parse_id("FFFFFFFF-FFFF-FFFF-FFFF-FFFFFFFFFFFF"),
        Some(u128::MAX)
    );
    assert_eq!(parse_id(""), None);
    assert_eq!(parse_id("hello"), None);
    assert_eq!(parse_id("00000000-0000-0000-0000-00000000000"), None);
    assert_eq!(parse_id("00000000-0000-0000-0000-0000000000000"), None);
    assert_eq!(parse_id("00000000x0000-0000-0000-000000000000"), None);
    assert_eq!(parse_id("g0000000-0000-0000-0000-000000000000"), None);
}
