use open_comm::auth::{
    login_handler, random_string, register_handler, register_with_fresh_salt, Login, Register,
};
use open_comm::credential::CredentialStore;
use open_comm::error::{outcome_status, Error};
use open_comm::token::{BearerToken, JWTKey};

fn key() -> JWTKey {
    JWTKey::from_secret(b"auth secret".to_vec())
}

const NOW: u64 = 1_650_000_000;

fn register(u: &str, p: &str) -> Register {
    Register { username: u.to_string(), password: p.to_string() }
}

fn login(u: &str, p: &str) -> Login {
    Login { username: u.to_string(), password: p.to_string() }
}

#[test]
fn random_strings_are_alphanumeric_and_of_the_length_asked() {
    for len in [0usize, 1, 16, 32, 500] {
        let s = random_string(len);
        assert_eq!(s.chars().count(), len);
        assert!(s.chars().all(|c| c.is_ascii_alphanumeric()));
    }
}

#[test]
fn random_strings_differ() {
    assert_ne!(random_string(32), random_string(32));
}

#[test]
fn registration_answers_with_a_token_for_the_new_user() {
    let mut store = CredentialStore::new();
    let r = register_handler(&mut store, &key(), register("foo", "bar"), "a".repeat(16), NOW);
    assert_eq!(outcome_status(&r, 201), 201);
    let claims = BearerToken::verify_token(&key(), &r.unwrap().token, NOW).unwrap();
    assert_eq!(claims.username, "foo");
    assert_eq!(claims.exp, NOW + 604800);
    assert_eq!(store.user_id("foo"), Some(1));
}

#[test]
fn repeated_registration_is_a_conflict() {
    let mut store = CredentialStore::new();
    register_handler(&mut store, &key(), register("foo", "bar"), "a".repeat(16), NOW).unwrap();
    let r = register_handler(&mut store, &key(), register("foo", "bar"), "b".repeat(16), NOW);
    assert_eq!(r.as_ref().unwrap_err(), &Error::Conflict);
    assert_eq!(outcome_status(&r, 201), 409);
    assert_eq!(store.len(), 1);
}

#[test]
fn login_answers_with_a_token_or_unauthorized() {
    let mut store = CredentialStore::new();
    register_handler(&mut store, &key(), register("foo", "bar"), "a".repeat(16), NOW).unwrap();
    let r = login_handler(&store, &key(), login("foo", "bar"), NOW + 5);
    assert_eq!(outcome_status(&r, 200), 200);
    let claims = BearerToken::verify_token(&key(), &r.unwrap().token, NOW + 5).unwrap();
    assert_eq!((claims.username.as_str(), claims.iat), ("foo", NOW + 5));
    let r = login_handler(&store, &key(), login("foo", "baz"), NOW);
    assert_eq!(r.as_ref().unwrap_err(), &Error::Unauthorized);
    assert_eq!(outcome_status(&r, 200), 401);
    let r = login_handler(&store, &key(), login("nobody", "bar"), NOW);
    assert_eq!(r.unwrap_err(), Error::Unauthorized);
}

#[test]
fn registration_with_a_fresh_salt_lets_the_user_log_in() {
    let mut store = CredentialStore::new();
    let r = register_with_fresh_salt(&mut store, &key(), register("foo", "bar"), NOW);
    assert!(r.is_ok());
    assert!(login_handler(&store, &key(), login("foo", "bar"), NOW).is_ok());
    assert!(login_handler(&store, &key(), login("foo", "Bar"), NOW).is_err());
    let r = register_with_fresh_salt(&mut store, &key(), register("foo", "other"), NOW);
    assert_eq!(r.unwrap_err(), Error::Conflict);
}

#[test]
fn a_token_that_cannot_be_issued_leaves_the_account_registered() {
    let mut store = CredentialStore::new();
    let r = register_handler(&mut store, &key(), register("foo", "bar"), "a".repeat(16), u64::MAX);
    assert_eq!(r.unwrap_err(), Error::Internal);
    assert_eq!(store.user_id("foo"), Some(1));
    assert_eq!(
        login_handler(&store, &key(), login("foo", "bar"), u64::MAX).unwrap_err(),
        Error::Internal
    );
}
