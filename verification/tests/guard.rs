use open_comm::error::{AuthError, Error};
use open_comm::guard::{
    authentic_token_query, authentic_user_header, authenticate, screen, user_and_token_match,
    user_resource, user_resource_query, Guard,
};
use open_comm::token::{generate_jwt, BearerToken, JWTKey, TokenQuery};

fn key() -> JWTKey {
    JWTKey::from_secret(b"guard secret".to_vec())
}

const NOW: u64 = 1_700_000_000;

fn header_for(user: &str) -> String {
    format!("Bearer {}", generate_jwt(user, &key(), NOW).unwrap())
}

fn claims(user: &str) -> BearerToken {
    BearerToken { iat: NOW, exp: NOW + 604800, username: user.to_string() }
}

#[test]
fn token_of_a_opens_resource_of_a() {
    assert_eq!(user_and_token_match("A".to_string(), claims("A")), Ok("A".to_string()));
    assert_eq!(user_resource(&key(), "A".to_string(), &header_for("A"), NOW), Ok("A".to_string()));
}

#[test]
fn token_of_a_does_not_open_resource_of_b() {
    assert_eq!(user_and_token_match("B".to_string(), claims("A")), Err(Error::Unauthorized));
    assert_eq!(
        user_resource(&key(), "B".to_string(), &header_for("A"), NOW),
        Err(Error::Unauthorized)
    );
    assert_eq!(Error::Unauthorized.status(), 401);
}

#[test]
fn usernames_are_compared_exactly() {
    assert_eq!(user_and_token_match("a".to_string(), claims("A")), Err(Error::Unauthorized));
    assert_eq!(user_and_token_match("A ".to_string(), claims("A")), Err(Error::Unauthorized));
    assert_eq!(user_and_token_match("".to_string(), claims("A")), Err(Error::Unauthorized));
}

#[test]
fn guard_state_machine_reaches_authorized_or_rejected() {
    let end = Guard::new().present(Ok(claims("A"))).access(Some("A"));
    assert!(matches!(end, Guard::Authorized(Some(ref t)) if t.0.username == "A"));
    let end = Guard::new().present(Ok(claims("A"))).access(Some("B"));
    assert!(matches!(end, Guard::Rejected(Error::Unauthorized)));
    let end = Guard::new().present(Err(AuthError::Expired)).access(Some("A"));
    assert!(matches!(end, Guard::Rejected(Error::Token(AuthError::Expired))));
    let end = Guard::new().present(Err(AuthError::Invalid)).access(None);
    assert!(matches!(end, Guard::Rejected(Error::Token(AuthError::Invalid))));
}

#[test]
fn unscoped_resources_skip_the_owner_comparison() {
    let end = Guard::new().present(Ok(claims("A"))).access(None);
    assert!(matches!(end, Guard::Authorized(Some(ref t)) if t.0.username == "A"));
    let end = Guard::new().access(None);
    assert!(matches!(end, Guard::Authorized(None)));
    let end = Guard::new().access(Some("A"));
    assert!(matches!(end, Guard::Rejected(Error::Token(AuthError::Missing))));
}

#[test]
fn terminal_states_do_not_move() {
    let end = Guard::Rejected(Error::Unauthorized).present(Ok(claims("A"))).access(Some("A"));
    assert!(matches!(end, Guard::Rejected(Error::Unauthorized)));
    let end = Guard::Authorized(None).present(Err(AuthError::Invalid)).access(Some("A"));
    assert!(matches!(end, Guard::Authorized(None)));
    let twice = Guard::new().present(Ok(claims("A"))).present(Ok(claims("B"))).access(Some("A"));
    assert!(matches!(twice, Guard::Authorized(Some(ref t)) if t.0.username == "A"));
}

#[test]
fn header_must_read_bearer_and_hold_a_good_token() {
    assert_eq!(authentic_user_header(&key(), &header_for("A"), NOW).unwrap().username, "A");
    assert_eq!(
        authentic_user_header(&key(), "Bearer", NOW).unwrap_err(),
        Error::Token(AuthError::Invalid)
    );
    assert_eq!(
        authentic_user_header(&key(), "", NOW).unwrap_err(),
        Error::Token(AuthError::Invalid)
    );
    assert_eq!(
        authentic_user_header(&key(), "Bearer not-a-token", NOW).unwrap_err(),
        Error::Token(AuthError::Invalid)
    );
    assert_eq!(
        authentic_user_header(&key(), &header_for("A"), NOW + 604800 + 61).unwrap_err(),
        Error::Token(AuthError::Expired)
    );
}

#[test]
fn query_parameter_carries_the_token_too() {
    let q = TokenQuery { access_token: generate_jwt("A", &key(), NOW).unwrap() };
    assert_eq!(authentic_token_query(&key(), &q, NOW).unwrap().username, "A");
    assert_eq!(user_resource_query(&key(), "A".to_string(), &q, NOW), Ok("A".to_string()));
    assert_eq!(user_resource_query(&key(), "B".to_string(), &q, NOW), Err(Error::Unauthorized));
    let bad = TokenQuery { access_token: "junk".to_string() };
    assert_eq!(
        user_resource_query(&key(), "A".to_string(), &bad, NOW),
        Err(Error::Token(AuthError::Invalid))
    );
}

#[test]
fn authenticate_prefers_header_and_fails_on_a_malformed_one() {
    let q = TokenQuery { access_token: generate_jwt("Q", &key(), NOW).unwrap() };
    assert_eq!(authenticate(&key(), Some(&header_for("H")), Some(&q), NOW).unwrap().username, "H");
    assert_eq!(authenticate(&key(), None, Some(&q), NOW).unwrap().username, "Q");
    assert_eq!(authenticate(&key(), Some("Basic abc"), Some(&q), NOW).unwrap_err(), AuthError::Invalid);
    assert_eq!(authenticate(&key(), None, None, NOW).unwrap_err(), AuthError::Missing);
}

#[test]
fn screen_runs_the_whole_guard() {
    let h = header_for("A");
    assert_eq!(screen(&key(), Some(&h), None, Some("A"), NOW).subject(), Ok(Some("A".to_string())));
    assert_eq!(screen(&key(), Some(&h), None, Some("B"), NOW).subject(), Err(Error::Unauthorized));
    assert_eq!(screen(&key(), Some(&h), None, None, NOW).subject(), Ok(Some("A".to_string())));
    assert_eq!(screen(&key(), None, None, None, NOW).subject(), Ok(None));
    assert_eq!(
        screen(&key(), None, None, Some("A"), NOW).subject(),
        Err(Error::Token(AuthError::Missing))
    );
    assert_eq!(
        screen(&key(), Some("Bearer junk"), None, None, NOW).subject(),
        Err(Error::Token(AuthError::Invalid))
    );
    assert_eq!(
        screen(&key(), Some(&h), None, Some("A"), NOW + 700_000).subject(),
        Err(Error::Token(AuthError::Expired))
    );
}

#[test]
fn each_request_is_judged_afresh() {
    let h = header_for("A");
    assert!(screen(&key(), Some(&h), None, Some("A"), NOW).subject().is_ok());
    assert!(screen(&key(), None, None, Some("A"), NOW).subject().is_err());
    assert!(screen(&key(), Some(&h), None, Some("A"), NOW).subject().is_ok());
}
