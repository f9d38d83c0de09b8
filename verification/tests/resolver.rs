use pitaia::auth::JwtService;
use pitaia::middleware::{authenticate, authenticate_optional, extract_token_from_header, AuthRejection};

const NOW: u64 = 1_700_000_000;

fn service() -> JwtService {
    JwtService::new(String::from("fixed-test-secret"))
}

#[test]
fn bearer_extraction_is_case_sensitive_and_exact() {
    assert_eq!(extract_token_from_header(Some("Bearer abc.def.ghi")), Some(String::from("abc.def.ghi")));
    assert_eq!(extract_token_from_header(Some("bearer abc")), None);
    assert_eq!(extract_token_from_header(Some("Basic abc")), None);
    assert_eq!(extract_token_from_header(Some("Bearer")), None);
    assert_eq!(extract_token_from_header(Some("")), None);
    assert_eq!(extract_token_from_header(None), None);
    assert_eq!(extract_token_from_header(Some("Bearer ")), Some(String::new()));
}

#[test]
fn a_fresh_token_authenticates_its_identity() {
    let jwt = service();
    let id: u128 = 42;
    let token = jwt.generate_token(id, "ana", NOW).unwrap();
    let header = format!("Bearer {}", token);
    let user = authenticate(&jwt, Some(&header), NOW).unwrap();
    assert_eq!(user.id, id);
    assert_eq!(user.username, "ana");
}

#[test]
fn missing_header_is_a_missing_token() {
    let jwt = service();
    assert_eq!(authenticate(&jwt, None, NOW).unwrap_err(), AuthRejection::MissingToken);
    assert_eq!(authenticate(&jwt, Some("Basic xyz"), NOW).unwrap_err(), AuthRejection::MissingToken);
}

#[test]
fn bad_or_expired_tokens_are_invalid() {
    let jwt = service();
    assert_eq!(
        authenticate(&jwt, Some("Bearer no.real.token"), NOW).unwrap_err(),
        AuthRejection::InvalidToken
    );
    let token = jwt.generate_token(42, "ana", NOW).unwrap();
    let header = format!("Bearer {}", token);
    assert_eq!(
        authenticate(&jwt, Some(&header), NOW + 86400).unwrap_err(),
        AuthRejection::InvalidToken
    );
}

#[test]
fn a_verified_token_with_a_bad_subject_is_malformed() {
    // Build a validly signed token whose subject is no identity-id text, as a
    // foreign issuer sharing the secret could.
    let mut claims = serde_json::Map::new();
    claims.insert(String::from("sub"), serde_json::Value::from("not-an-id"));
    claims.insert(String::from("username"), serde_json::Value::from("ana"));
    claims.insert(String::from("exp"), serde_json::Value::from(NOW + 86400));
    claims.insert(String::from("iat"), serde_json::Value::from(NOW));
    let key = jsonwebtoken::EncodingKey::from_secret(b"fixed-test-secret");
    let token = jsonwebtoken::encode(
        &jsonwebtoken::Header::default(),
        &serde_json::Value::Object(claims),
        &key,
    )
    .unwrap();
    let jwt = service();
    let header = format!("Bearer {}", token);
    assert_eq!(
        authenticate(&jwt, Some(&header), NOW).unwrap_err(),
        AuthRejection::MalformedToken
    );
}

#[test]
fn optional_variant_differs_only_without_a_credential() {
    let jwt = service();
    assert!(authenticate_optional(&jwt, None, NOW).unwrap().is_none());
    let token = jwt.generate_token(42, "ana", NOW).unwrap();
    let header = format!("Bearer {}", token);
    let got = authenticate_optional(&jwt, Some(&header), NOW).unwrap().unwrap();
    assert_eq!(got.id, 42);
    assert_eq!(
        authenticate_optional(&jwt, Some("Bearer junk"), NOW).unwrap_err(),
        AuthRejection::InvalidToken
    );
}

#[test]
fn rejections_collapse_to_the_uniform_category() {
    assert_eq!(
        AuthRejection::MissingToken.to_error(),
        pitaia::errors::ApiError::Unauthenticated
    );
    assert_eq!(
        AuthRejection::InvalidToken.to_error(),
        pitaia::errors::ApiError::Unauthenticated
    );
}
