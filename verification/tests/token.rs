use open_comm::error::{AuthError, Error};
use open_comm::token::{
    bearer_of, extract_token, generate_jwt, BearerToken, JWTConfig, JWTKey, TokenQuery, LEEWAY,
    TOKEN_EXPIRATION,
};

fn key() -> JWTKey {
    JWTKey::from_secret(b"an example secret".to_vec())
}

const NOW: u64 = 1_600_000_000;

#[test]
fn expiration_window_is_seven_days_and_leeway_a_minute() {
    assert_eq!(TOKEN_EXPIRATION, 604800);
    assert_eq!(TOKEN_EXPIRATION, 7 * 24 * 60 * 60);
    assert_eq!(LEEWAY, 60);
}

#[test]
fn issued_claims_hold_subject_and_window() {
    let claims = BearerToken::issued("foo".to_string(), NOW).unwrap();
    assert_eq!(claims.iat, 1_600_000_000);
    assert_eq!(claims.exp, 1_600_604_800);
    assert_eq!(claims.username, "foo");
    assert!(BearerToken::issued("foo".to_string(), u64::MAX - 604799).is_none());
    assert!(BearerToken::issued("foo".to_string(), u64::MAX - 604800).is_some());
}

#[test]
fn issued_token_verifies_at_once() {
    let token = generate_jwt("foo", &key(), NOW).unwrap();
    assert_eq!(token.split('.').count(), 3);
    assert_ne!(token, "foo");
    let claims = BearerToken::verify_token(&key(), &token, NOW).unwrap();
    assert_eq!(claims.username, "foo");
    assert_eq!(claims.iat, NOW);
    assert_eq!(claims.exp, NOW + 604800);
}

#[test]
fn token_is_a_function_of_key_subject_and_time() {
    assert_eq!(generate_jwt("foo", &key(), NOW), generate_jwt("foo", &key(), NOW));
    assert_ne!(generate_jwt("foo", &key(), NOW), generate_jwt("foo", &key(), NOW + 1));
    assert_ne!(generate_jwt("foo", &key(), NOW), generate_jwt("bar", &key(), NOW));
    let other = JWTKey::from_secret(b"another secret".to_vec());
    assert_ne!(generate_jwt("foo", &key(), NOW), generate_jwt("foo", &other, NOW));
}

#[test]
fn token_expires_past_the_leeway() {
    let token = generate_jwt("foo", &key(), NOW).unwrap();
    let exp = NOW + 604800;
    assert!(BearerToken::verify_token(&key(), &token, exp).is_ok());
    assert!(BearerToken::verify_token(&key(), &token, exp + 60).is_ok());
    assert_eq!(
        BearerToken::verify_token(&key(), &token, exp + 61).unwrap_err(),
        AuthError::Expired
    );
    assert_eq!(
        BearerToken::verify_token(&key(), &token, u64::MAX).unwrap_err(),
        AuthError::Expired
    );
    assert!(BearerToken::verify_token(&key(), &token, 0).is_ok());
}

#[test]
fn is_expired_at_the_edges() {
    let t = BearerToken { iat: 0, exp: 100, username: "foo".to_string() };
    assert!(!t.is_expired(0));
    assert!(!t.is_expired(160));
    assert!(t.is_expired(161));
    let last = BearerToken { iat: 0, exp: u64::MAX, username: "foo".to_string() };
    assert!(!last.is_expired(u64::MAX));
    let first = BearerToken { iat: 0, exp: 0, username: "foo".to_string() };
    assert!(!first.is_expired(59));
    assert!(!first.is_expired(60));
    assert!(first.is_expired(61));
}

#[test]
fn tampering_with_any_byte_of_the_token_is_invalid() {
    let token = generate_jwt("foo", &key(), NOW).unwrap();
    let bytes = token.as_bytes();
    for i in 0..bytes.len() {
        let mut changed = bytes.to_vec();
        changed[i] = if bytes[i] == b'A' { b'B' } else { b'A' };
        let changed = String::from_utf8(changed).unwrap();
        assert_eq!(
            BearerToken::verify_token(&key(), &changed, NOW).unwrap_err(),
            AuthError::Invalid,
            "byte {} changed",
            i
        );
    }
}

#[test]
fn wrong_key_or_garbage_is_invalid() {
    let token = generate_jwt("foo", &key(), NOW).unwrap();
    let other = JWTKey::from_secret(b"another secret".to_vec());
    assert_eq!(BearerToken::verify_token(&other, &token, NOW).unwrap_err(), AuthError::Invalid);
    assert_eq!(BearerToken::verify_token(&key(), "", NOW).unwrap_err(), AuthError::Invalid);
    assert_eq!(BearerToken::verify_token(&key(), "a.b.c", NOW).unwrap_err(), AuthError::Invalid);
    assert_eq!(BearerToken::verify_token(&key(), "foo", NOW).unwrap_err(), AuthError::Invalid);
}

#[test]
fn an_expired_token_with_a_bad_signature_is_invalid_not_expired() {
    let token = generate_jwt("foo", &key(), NOW).unwrap();
    let other = JWTKey::from_secret(b"another secret".to_vec());
    assert_eq!(
        BearerToken::verify_token(&other, &token, NOW + 604800 + 61).unwrap_err(),
        AuthError::Invalid
    );
}

#[test]
fn judge_wants_all_three_claims() {
    let ok = BearerToken::judge(Some((Some(1), Some(100), Some("foo".to_string()))), 50).unwrap();
    assert_eq!((ok.iat, ok.exp, ok.username.as_str()), (1, 100, "foo"));
    assert_eq!(BearerToken::judge(None, 50).unwrap_err(), AuthError::Invalid);
    assert_eq!(
        BearerToken::judge(Some((None, Some(100), Some("foo".to_string()))), 50).unwrap_err(),
        AuthError::Invalid
    );
    assert_eq!(
        BearerToken::judge(Some((Some(1), None, Some("foo".to_string()))), 50).unwrap_err(),
        AuthError::Invalid
    );
    assert_eq!(
        BearerToken::judge(Some((Some(1), Some(100), None)), 50).unwrap_err(),
        AuthError::Invalid
    );
    assert_eq!(
        BearerToken::judge(Some((Some(1), Some(100), Some("foo".to_string()))), 161).unwrap_err(),
        AuthError::Expired
    );
}

#[test]
fn issuing_at_the_end_of_time_is_an_internal_error() {
    assert_eq!(generate_jwt("foo", &key(), u64::MAX), Err(Error::Internal));
    assert_eq!(generate_jwt("foo", &key(), u64::MAX - 604799), Err(Error::Internal));
    assert!(generate_jwt("foo", &key(), u64::MAX - 604800).is_ok());
}

#[test]
fn bearer_header_gives_its_token() {
    assert_eq!(bearer_of("Bearer abc.def.ghi"), Some("abc.def.ghi"));
    assert_eq!(bearer_of("Bearer "), Some(""));
    assert_eq!(bearer_of("Bearer"), None);
    assert_eq!(bearer_of("bearer abc"), None);
    assert_eq!(bearer_of("Basic abc"), None);
    assert_eq!(bearer_of(""), None);
    assert_eq!(bearer_of("Bearer \u{e9}t\u{e9}"), Some("\u{e9}t\u{e9}"));
}

#[test]
fn header_takes_precedence_over_query() {
    let q = TokenQuery { access_token: "from-query".to_string() };
    assert_eq!(extract_token(Some("Bearer from-header"), Some(&q)), Ok("from-header"));
    assert_eq!(extract_token(Some("Bearer from-header"), None), Ok("from-header"));
    assert_eq!(extract_token(None, Some(&q)), Ok("from-query"));
}

#[test]
fn malformed_header_does_not_fall_back_to_query() {
    let q = TokenQuery { access_token: "from-query".to_string() };
    assert_eq!(extract_token(Some("Token abc"), Some(&q)), Err(AuthError::Invalid));
    assert_eq!(extract_token(Some(""), Some(&q)), Err(AuthError::Invalid));
}

#[test]
fn no_token_at_all_is_missing() {
    assert_eq!(extract_token(None, None), Err(AuthError::Missing));
}

#[test]
fn secret_configuration_gives_a_key_and_key_files_do_not() {
    let k = JWTConfig::Secret("an example secret".to_string()).key().unwrap();
    assert_eq!(generate_jwt("foo", &k, NOW), generate_jwt("foo", &key(), NOW));
    let files =
        JWTConfig::RSAFiles { private: "private.pem".to_string(), public: "public.pem".to_string() };
    assert!(files.key().is_none());
}

fn sign(alg: jsonwebtoken::Algorithm, claims: &[(&str, serde_json::Value)]) -> String {
    let mut map = serde_json::Map::new();
    for (name, value) in claims {
        map.insert(name.to_string(), value.clone());
    }
    jsonwebtoken::encode(
        &jsonwebtoken::Header::new(alg),
        &map,
        &jsonwebtoken::EncodingKey::from_secret(b"an example secret"),
    )
    .unwrap()
}

fn full_claims() -> Vec<(&'static str, serde_json::Value)> {
    vec![
        ("iat", serde_json::Value::from(NOW)),
        ("exp", serde_json::Value::from(NOW + 604800)),
        ("username", serde_json::Value::from("foo")),
    ]
}

#[test]
fn a_token_made_elsewhere_with_the_same_secret_verifies() {
    let token = sign(jsonwebtoken::Algorithm::HS256, &full_claims());
    assert_eq!(Ok(token.clone()), generate_jwt("foo", &key(), NOW));
    let claims = BearerToken::verify_token(&key(), &token, NOW).unwrap();
    assert_eq!((claims.iat, claims.exp, claims.username.as_str()), (NOW, NOW + 604800, "foo"));
}

#[test]
fn a_token_signed_with_another_algorithm_is_invalid() {
    let token = sign(jsonwebtoken::Algorithm::HS384, &full_claims());
    assert_eq!(BearerToken::verify_token(&key(), &token, NOW).unwrap_err(), AuthError::Invalid);
    let token = sign(jsonwebtoken::Algorithm::HS512, &full_claims());
    assert_eq!(BearerToken::verify_token(&key(), &token, NOW).unwrap_err(), AuthError::Invalid);
}

#[test]
fn a_well_signed_token_without_all_claims_is_invalid() {
    for missing in ["iat", "exp", "username"] {
        let claims: Vec<_> = full_claims().into_iter().filter(|(n, _)| *n != missing).collect();
        let token = sign(jsonwebtoken::Algorithm::HS256, &claims);
        assert_eq!(
            BearerToken::verify_token(&key(), &token, NOW).unwrap_err(),
            AuthError::Invalid,
            "without {}",
            missing
        );
    }
    let mut claims = full_claims();
    claims[1].1 = serde_json::Value::from("soon");
    let token = sign(jsonwebtoken::Algorithm::HS256, &claims);
    assert_eq!(BearerToken::verify_token(&key(), &token, NOW).unwrap_err(), AuthError::Invalid);
    let mut claims = full_claims();
    claims[2].1 = serde_json::Value::from(7);
    let token = sign(jsonwebtoken::Algorithm::HS256, &claims);
    assert_eq!(BearerToken::verify_token(&key(), &token, NOW).unwrap_err(), AuthError::Invalid);
    let mut claims = full_claims();
    claims[0].1 = serde_json::Value::from(-1);
    let token = sign(jsonwebtoken::Algorithm::HS256, &claims);
    assert_eq!(BearerToken::verify_token(&key(), &token, NOW).unwrap_err(), AuthError::Invalid);
}

#[test]
fn extra_claims_are_passed_over() {
    let mut claims = full_claims();
    claims.push(("role", serde_json::Value::from("admin")));
    let token = sign(jsonwebtoken::Algorithm::HS256, &claims);
    let read = BearerToken::verify_token(&key(), &token, NOW).unwrap();
    assert_eq!(read.username, "foo");
}

#[test]
fn usernames_of_any_text_come_back_unchanged() {
    for name in ["", "a b", "caf\u{e9}", "\"quoted\"\\", "line\nbreak", "\u{1F600}", "a.b.c"] {
        let token = generate_jwt(name, &key(), NOW).unwrap();
        assert_eq!(BearerToken::verify_token(&key(), &token, NOW).unwrap().username, name);
    }
    for (iat, exp) in [(0u64, 604800u64), (u64::MAX - 604800, u64::MAX)] {
        let token = generate_jwt("foo", &key(), iat).unwrap();
        let read = BearerToken::verify_token(&key(), &token, iat).unwrap();
        assert_eq!((read.iat, read.exp), (iat, exp));
    }
    let empty = JWTKey::from_secret(Vec::new());
    let token = generate_jwt("foo", &empty, NOW).unwrap();
    assert_eq!(BearerToken::verify_token(&empty, &token, NOW).unwrap().username, "foo");
}
