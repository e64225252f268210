use open_comm::credential::{
    hash_password, new_user_auth, password_matches, CredentialStore, UserAuth, SALT_SIZE,
};
use open_comm::digest::secure_hash;
use open_comm::error::Error;

#[test]
fn password_hash_is_digest_of_password_then_salt() {
    assert_eq!(
        hash_password("bar", "NaCl0123456789ab"),
        "2ec87054074f7cd6fa51f33152837734ef84929d337c80778821963a82dfac09"
    );
    assert_eq!(hash_password("bar", "NaCl0123456789ab"), secure_hash("barNaCl0123456789ab"));
    assert_ne!(hash_password("bar", "NaCl0123456789ab"), secure_hash("NaCl0123456789abbar"));
}

#[test]
fn salt_size_is_sixteen() {
    assert_eq!(SALT_SIZE, 16);
}

#[test]
fn new_user_auth_keeps_salt_and_hash() {
    let auth = new_user_auth(7, "bar", "NaCl0123456789ab".to_string());
    assert_eq!(auth.user_id, 7);
    assert_eq!(auth.salt, "NaCl0123456789ab");
    assert_eq!(
        auth.password_hash,
        "2ec87054074f7cd6fa51f33152837734ef84929d337c80778821963a82dfac09"
    );
}

#[test]
fn password_matches_only_the_right_password() {
    let auth = UserAuth {
        id: 1,
        user_id: 1,
        password_hash: hash_password("bar", "NaCl0123456789ab"),
        salt: "NaCl0123456789ab".to_string(),
    };
    assert!(password_matches(&auth, "bar"));
    assert!(!password_matches(&auth, "baz"));
    assert!(!password_matches(&auth, ""));
    assert!(!password_matches(&auth, "barN"));
}

#[test]
fn register_then_verify_succeeds_and_wrong_password_is_unauthorized() {
    let mut store = CredentialStore::new();
    let id = store.register("foo".to_string(), "bar", "aaaaaaaaaaaaaaaa".to_string());
    assert_eq!(id, Ok(1));
    assert_eq!(store.verify("foo", "bar"), Ok(1));
    assert_eq!(store.verify("foo", "baz"), Err(Error::Unauthorized));
    assert_eq!(store.verify("foo", ""), Err(Error::Unauthorized));
}

#[test]
fn unknown_user_reads_like_wrong_password() {
    let mut store = CredentialStore::new();
    store.register("foo".to_string(), "bar", "aaaaaaaaaaaaaaaa".to_string()).unwrap();
    assert_eq!(store.verify("nobody", "bar"), store.verify("foo", "wrong"));
    assert_eq!(store.verify("nobody", "bar"), Err(Error::Unauthorized));
}

#[test]
fn second_registration_of_a_username_is_a_conflict() {
    let mut store = CredentialStore::new();
    assert_eq!(store.register("foo".to_string(), "bar", "aaaaaaaaaaaaaaaa".to_string()), Ok(1));
    assert_eq!(
        store.register("foo".to_string(), "other", "bbbbbbbbbbbbbbbb".to_string()),
        Err(Error::Conflict)
    );
    assert_eq!(store.len(), 1);
    assert_eq!(store.verify("foo", "bar"), Ok(1));
    assert_eq!(store.verify("foo", "other"), Err(Error::Unauthorized));
}

#[test]
fn ids_count_up_from_one() {
    let mut store = CredentialStore::new();
    assert_eq!(store.user_id("foo"), None);
    assert_eq!(store.register("foo".to_string(), "bar", "aaaaaaaaaaaaaaaa".to_string()), Ok(1));
    assert_eq!(store.register("bar2".to_string(), "foo", "bbbbbbbbbbbbbbbb".to_string()), Ok(2));
    assert_eq!(store.user_id("foo"), Some(1));
    assert_eq!(store.user_id("bar2"), Some(2));
    assert_eq!(store.user_id("Foo"), None);
    assert_eq!(store.verify("bar2", "foo"), Ok(2));
}

#[test]
fn same_password_under_another_salt_hashes_differently() {
    assert_ne!(hash_password("bar", "aaaaaaaaaaaaaaaa"), hash_password("bar", "bbbbbbbbbbbbbbbb"));
}

#[test]
fn a_salt_serves_one_account_only() {
    let mut store = CredentialStore::new();
    assert_eq!(store.register("foo".to_string(), "bar", "aaaaaaaaaaaaaaaa".to_string()), Ok(1));
    assert_eq!(
        store.register("bar2".to_string(), "foo", "aaaaaaaaaaaaaaaa".to_string()),
        Err(Error::Internal)
    );
    assert_eq!(store.len(), 1);
    assert_eq!(store.user_id("bar2"), None);
    assert_eq!(store.register("bar2".to_string(), "foo", "aaaaaaaaaaaaaaab".to_string()), Ok(2));
}
