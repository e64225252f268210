//! Registration and login: what the two requests hold, what they are
//! answered with, and the salt a new account gets.

use crate::credential::{spec_register, spec_verify, valid_salt, CredentialStore, SALT_SIZE};
use crate::error::Error;
use crate::text::{all_alphanumeric, is_alphanumeric};
use crate::token::{generate_jwt, spec_issue, JWTKey};
use rand::distributions::Alphanumeric;
use rand::Rng;
use vstd::prelude::*;

verus! {

/// The body of a registration request.
#[derive(Debug)]
pub struct Register {
    pub username: String,
    pub password: String,
}

/// The answer to a registration.
#[derive(Debug)]
pub struct RegisterResp {
    pub token: String,
}

/// The body of a login request.
#[derive(Debug)]
pub struct Login {
    pub username: String,
    pub password: String,
}

/// The answer to a login.
#[derive(Debug)]
pub struct LoginResp {
    pub token: String,
}

/// `Rng::sample` of `Alphanumeric` on `thread_rng()`: a character drawn
/// from a-z, A-Z and 0-9. Which one is chance.
#[verifier::external_body]
fn random_alphanumeric() -> (c: char)
    ensures
        is_alphanumeric(c),
{
    rand::thread_rng().sample(Alphanumeric)
}

/// A string of `len` random ASCII letters and digits.
pub fn random_string(len: usize) -> (s: String)
    ensures
        s@.len() == len,
        all_alphanumeric(s@),
{
    let mut s = String::new();
    let mut i: usize = 0;
    while i < len
        invariant
            i <= len,
            s@.len() == i,
            all_alphanumeric(s@),
        decreases len - i,
    {
        let c = random_alphanumeric();
        s.push(c);
        i = i + 1;
    }
    s
}

/// The token or the error of an answer to a registration.
pub open spec fn register_outcome(r: Result<RegisterResp, Error>) -> Result<Seq<char>, Error> {
    match r {
        Ok(resp) => Ok(resp.token@),
        Err(e) => Err(e),
    }
}

/// The token or the error of an answer to a login.
pub open spec fn login_outcome(r: Result<LoginResp, Error>) -> Result<Seq<char>, Error> {
    match r {
        Ok(resp) => Ok(resp.token@),
        Err(e) => Err(e),
    }
}

/// What a registration is answered with: the error of the store, else a
/// token for the new account.
pub open spec fn spec_register_answer(
    made: Result<i32, Error>,
    secret: Seq<u8>,
    username: Seq<char>,
    now: u64,
) -> Result<Seq<char>, Error> {
    match made {
        Ok(_) => spec_issue(secret, username, now),
        Err(e) => Err(e),
    }
}

/// Registers the account under `salt` and answers with a token issued at
/// `now`. A taken username is a conflict.
pub fn register_handler(
    store: &mut CredentialStore,
    jwt_key: &JWTKey,
    login: Register,
    salt: String,
    now: u64,
) -> (r: Result<RegisterResp, Error>)
    requires
        old(store).wf(),
        valid_salt(salt@),
    ensures
        final(store).wf(),
        final(store)@ == spec_register(old(store)@, login.username@, login.password@, salt@).0,
        register_outcome(r) == spec_register_answer(
            spec_register(old(store)@, login.username@, login.password@, salt@).1,
            jwt_key@,
            login.username@,
            now,
        ),
{
    let username = login.username.clone();
    match store.register(login.username, login.password.as_str(), salt) {
        Ok(_) => match generate_jwt(username.as_str(), jwt_key, now) {
            Ok(token) => Ok(RegisterResp { token }),
            Err(e) => Err(e),
        },
        Err(e) => Err(e),
    }
}

/// Registers the account under a fresh random salt of `SALT_SIZE`
/// characters and answers with a token issued at `now`.
pub fn register_with_fresh_salt(
    store: &mut CredentialStore,
    jwt_key: &JWTKey,
    login: Register,
    now: u64,
) -> (r: Result<RegisterResp, Error>)
    requires
        old(store).wf(),
    ensures
        final(store).wf(),
        exists|salt: Seq<char>|
            {
                &&& valid_salt(salt)
                &&& final(store)@ == (#[trigger] spec_register(
                    old(store)@,
                    login.username@,
                    login.password@,
                    salt,
                )).0
                &&& register_outcome(r) == spec_register_answer(
                    spec_register(old(store)@, login.username@, login.password@, salt).1,
                    jwt_key@,
                    login.username@,
                    now,
                )
            },
{
    let salt = random_string(SALT_SIZE);
    register_handler(store, jwt_key, login, salt, now)
}

/// Checks the password and answers with a token issued at `now`. A wrong
/// password and an unknown username are both `Unauthorized`.
pub fn login_handler(store: &CredentialStore, jwt_key: &JWTKey, login: Login, now: u64) -> (r:
    Result<LoginResp, Error>)
    requires
        store.wf(),
    ensures
        login_outcome(r) == (match spec_verify(store@, login.username@, login.password@) {
            Ok(_) => spec_issue(jwt_key@, login.username@, now),
            Err(e) => Err(e),
        }),
{
    match store.verify(login.username.as_str(), login.password.as_str()) {
        Ok(_) => match generate_jwt(login.username.as_str(), jwt_key, now) {
            Ok(token) => Ok(LoginResp { token }),
            Err(e) => Err(e),
        },
        Err(e) => Err(e),
    }
}

} // verus!
