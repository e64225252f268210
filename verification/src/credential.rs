//! The credential store: one account per username, each with a salt of
//! its own and the hash of the password followed by that salt.

use crate::digest::{secure_hash, sha3_256_hex};
use crate::error::Error;
use crate::text::{all_alphanumeric, bytes_eq, str_eq};
use vstd::prelude::*;
use vstd::string::StringExecFns;
use vstd::utf8::encode_utf8;

verus! {

/// The number of characters in a salt.
pub const SALT_SIZE: usize = 16;

/// An account: a username and the id it is known by.
#[derive(Debug)]
pub struct User {
    pub id: i32,
    pub username: String,
}

/// The secret kept for an account.
#[derive(Debug)]
pub struct UserAuth {
    pub id: i32,
    pub user_id: i32,
    pub password_hash: String,
    pub salt: String,
}

/// The secret of an account about to be made.
#[derive(Debug)]
pub struct NewUserAuth {
    pub user_id: i32,
    pub password_hash: String,
    pub salt: String,
}

/// An account with its secret.
#[derive(Debug)]
pub struct Account {
    pub user: User,
    pub auth: UserAuth,
}

pub struct AccountView {
    pub id: i32,
    pub username: Seq<char>,
    pub password_hash: Seq<char>,
    pub salt: Seq<char>,
}

impl View for Account {
    type V = AccountView;

    open spec fn view(&self) -> AccountView {
        AccountView {
            id: self.user.id,
            username: self.user.username@,
            password_hash: self.auth.password_hash@,
            salt: self.auth.salt@,
        }
    }
}

/// The views of a list of accounts.
pub open spec fn account_views(v: Seq<Account>) -> Seq<AccountView> {
    v.map_values(|a: Account| a@)
}

/// The hash kept for `password` under `salt`: the digest of the password
/// followed by the salt.
pub open spec fn credential_hash(password: Seq<char>, salt: Seq<char>) -> Seq<char> {
    sha3_256_hex(encode_utf8(password + salt))
}

/// Whether `s` has an account named `username`.
pub open spec fn has_user(s: Seq<AccountView>, username: Seq<char>) -> bool {
    exists|i: int| 0 <= i < s.len() && (#[trigger] s[i]).username == username
}

/// The account of `s` that is named `username`.
pub open spec fn account_of(s: Seq<AccountView>, username: Seq<char>) -> AccountView {
    s[choose|i: int| 0 <= i < s.len() && (#[trigger] s[i]).username == username]
}

/// What a salt looks like: `SALT_SIZE` ASCII letters and digits.
pub open spec fn valid_salt(salt: Seq<char>) -> bool {
    salt.len() == SALT_SIZE && all_alphanumeric(salt)
}

/// Whether some account of `s` has the salt `salt`.
pub open spec fn salt_in_use(s: Seq<AccountView>, salt: Seq<char>) -> bool {
    exists|i: int| 0 <= i < s.len() && (#[trigger] s[i]).salt == salt
}

/// No username and no salt is held twice, every salt looks like one, and
/// ids count up from one.
pub open spec fn accounts_wf(s: Seq<AccountView>) -> bool {
    &&& s.len() <= i32::MAX
    &&& forall|i: int| 0 <= i < s.len() ==> (#[trigger] s[i]).id == i + 1
    &&& forall|i: int| 0 <= i < s.len() ==> valid_salt((#[trigger] s[i]).salt)
    &&& forall|i: int, j: int|
        0 <= i < j < s.len() ==> (#[trigger] s[i]).username != (#[trigger] s[j]).username
    &&& forall|i: int, j: int|
        0 <= i < j < s.len() ==> (#[trigger] s[i]).salt != (#[trigger] s[j]).salt
}

/// The store and the outcome after `username` asks to register: a
/// conflict where the name is taken; no account where the salt has been
/// used before or the ids have run out; else a new account with the next
/// id.
pub open spec fn spec_register(
    s: Seq<AccountView>,
    username: Seq<char>,
    password: Seq<char>,
    salt: Seq<char>,
) -> (Seq<AccountView>, Result<i32, Error>) {
    if has_user(s, username) {
        (s, Err(Error::Conflict))
    } else if salt_in_use(s, salt) || s.len() >= i32::MAX {
        (s, Err(Error::Internal))
    } else {
        (
            s.push(
                AccountView {
                    id: (s.len() + 1) as i32,
                    username,
                    password_hash: credential_hash(password, salt),
                    salt,
                },
            ),
            Ok((s.len() + 1) as i32),
        )
    }
}

/// Whether `password` is the one `username` registered with, as far as the
/// kept hash tells. An unknown name and a wrong password read the same.
pub open spec fn spec_verify(s: Seq<AccountView>, username: Seq<char>, password: Seq<char>) -> Result<
    i32,
    Error,
> {
    if has_user(s, username) && credential_hash(password, account_of(s, username).salt)
        == account_of(s, username).password_hash {
        Ok(account_of(s, username).id)
    } else {
        Err(Error::Unauthorized)
    }
}

/// The hash to keep for `password` under `salt`.
pub fn hash_password(password: &str, salt: &str) -> (hex: String)
    ensures
        hex@ == credential_hash(password@, salt@),
{
    let mut salted = String::from_str(password);
    salted.append(salt);
    secure_hash(salted.as_str())
}

/// The secret of a new account `user_id` with `password` and `salt`.
pub fn new_user_auth(user_id: i32, password: &str, salt: String) -> (auth: NewUserAuth)
    ensures
        auth.user_id == user_id,
        auth.salt@ == salt@,
        auth.password_hash@ == credential_hash(password@, salt@),
{
    let password_hash = hash_password(password, salt.as_str());
    NewUserAuth { user_id, password_hash, salt }
}

/// Whether `password` hashes to what is kept in `auth`. The two hashes are
/// compared byte by byte to the end.
pub fn password_matches(auth: &UserAuth, password: &str) -> (same: bool)
    ensures
        same == (credential_hash(password@, auth.salt@) == auth.password_hash@),
{
    let given = hash_password(password, auth.salt.as_str());
    proof {
        vstd::utf8::encode_utf8_decode_utf8(given@);
        vstd::utf8::encode_utf8_decode_utf8(auth.password_hash@);
    }
    bytes_eq(given.as_str().as_bytes(), auth.password_hash.as_str().as_bytes())
}

/// The accounts, in the order they registered.
pub struct CredentialStore {
    accounts: Vec<Account>,
}

impl View for CredentialStore {
    type V = Seq<AccountView>;

    closed spec fn view(&self) -> Seq<AccountView> {
        account_views(self.accounts@)
    }
}

impl CredentialStore {
    /// The store's invariant.
    pub open spec fn wf(&self) -> bool {
        accounts_wf(self@)
    }

    pub fn new() -> (store: CredentialStore)
        ensures
            store.wf(),
            store@ == Seq::<AccountView>::empty(),
    {
        let store = CredentialStore { accounts: Vec::new() };
        store
    }

    pub fn len(&self) -> (n: usize)
        ensures
            n == self@.len(),
    {
        self.accounts.len()
    }

    fn position(&self, username: &str) -> (at: Option<usize>)
        requires
            self.wf(),
        ensures
            match at {
                Some(i) => i < self@.len() && self@[i as int] == account_of(self@, username@)
                    && has_user(self@, username@) && self@[i as int].username == username@,
                None => !has_user(self@, username@),
            },
    {
        let mut i: usize = 0;
        while i < self.accounts.len()
            invariant
                self.wf(),
                i <= self.accounts.len(),
                forall|j: int| 0 <= j < i ==> (#[trigger] self@[j]).username != username@,
            decreases self.accounts.len() - i,
        {
            if str_eq(self.accounts[i].user.username.as_str(), username) {
                assert(self@[i as int].username == username@);
                return Some(i);
            }
            i = i + 1;
        }
        None
    }

    /// The id of the account named `username`.
    pub fn user_id(&self, username: &str) -> (id: Option<i32>)
        requires
            self.wf(),
        ensures
            match id {
                Some(n) => has_user(self@, username@) && account_of(self@, username@).id == n,
                None => !has_user(self@, username@),
            },
    {
        match self.position(username) {
            Some(i) => Some(self.accounts[i].user.id),
            None => None,
        }
    }

    fn salt_taken(&self, salt: &str) -> (taken: bool)
        ensures
            taken == salt_in_use(self@, salt@),
    {
        let mut i: usize = 0;
        while i < self.accounts.len()
            invariant
                i <= self.accounts.len(),
                forall|j: int| 0 <= j < i ==> (#[trigger] self@[j]).salt != salt@,
            decreases self.accounts.len() - i,
        {
            if str_eq(self.accounts[i].auth.salt.as_str(), salt) {
                assert(self@[i as int].salt == salt@);
                return true;
            }
            i = i + 1;
        }
        false
    }

    /// Registers `username` with `password` under `salt`, in one step:
    /// the name is looked up and the account made with nothing in between.
    /// The salt must be new to the store.
    pub fn register(&mut self, username: String, password: &str, salt: String) -> (r: Result<
        i32,
        Error,
    >)
        requires
            old(self).wf(),
            valid_salt(salt@),
        ensures
            final(self).wf(),
            (final(self)@, r) == spec_register(old(self)@, username@, password@, salt@),
    {
        if self.position(username.as_str()).is_some() {
            return Err(Error::Conflict);
        }
        let n = self.accounts.len();
        if self.salt_taken(salt.as_str()) || n >= 0x7fff_ffff {
            return Err(Error::Internal);
        }
        let id: i32 = (n + 1) as i32;
        let secret = new_user_auth(id, password, salt);
        let account = Account {
            user: User { id, username },
            auth: UserAuth {
                id,
                user_id: secret.user_id,
                password_hash: secret.password_hash,
                salt: secret.salt,
            },
        };
        let ghost before = self@;
        self.accounts.push(account);
        proof {
            let after = before.push(account@);
            assert(self@ =~= after);
            assert forall|i: int, j: int| 0 <= i < j < after.len() implies (
            #[trigger] after[i]).username != (#[trigger] after[j]).username by {}
            assert forall|i: int| 0 <= i < after.len() implies (#[trigger] after[i]).id == i + 1
                && valid_salt(after[i].salt) by {}
            assert forall|i: int, j: int| 0 <= i < j < after.len() implies (
            #[trigger] after[i]).salt != (#[trigger] after[j]).salt by {}
        }
        Ok(id)
    }

    /// Checks `password` for `username` and gives the account's id. An
    /// unknown name and a wrong password fail alike.
    pub fn verify(&self, username: &str, password: &str) -> (r: Result<i32, Error>)
        requires
            self.wf(),
        ensures
            r == spec_verify(self@, username@, password@),
    {
        match self.position(username) {
            Some(i) => {
                let account = &self.accounts[i];
                if password_matches(&account.auth, password) {
                    Ok(account.user.id)
                } else {
                    Err(Error::Unauthorized)
                }
            },
            None => Err(Error::Unauthorized),
        }
    }
}

/// A new username registers under a new salt, and then its password
/// verifies, while any password with another hash under the account's
/// salt is turned away as unauthorized.
pub proof fn lemma_register_then_verify(
    s: Seq<AccountView>,
    username: Seq<char>,
    password: Seq<char>,
    salt: Seq<char>,
    other: Seq<char>,
)
    requires
        accounts_wf(s),
        s.len() < i32::MAX,
        !has_user(s, username),
        !salt_in_use(s, salt),
    ensures
        ({
            let (after, made) = spec_register(s, username, password, salt);
            &&& made == Ok::<i32, Error>((s.len() + 1) as i32)
            &&& spec_verify(after, username, password) == made
            &&& credential_hash(other, salt) != credential_hash(password, salt) ==> spec_verify(
                after,
                username,
                other,
            ) == Err::<i32, Error>(Error::Unauthorized)
        }),
{
    let (after, made) = spec_register(s, username, password, salt);
    assert(after[s.len() as int].username == username);
}

/// A username registers at most once: after a registration that
/// succeeded, another one for the same name is a conflict and leaves the
/// store as it was, whatever password and salt come with it.
pub proof fn lemma_register_twice(
    s: Seq<AccountView>,
    username: Seq<char>,
    first_password: Seq<char>,
    first_salt: Seq<char>,
    second_password: Seq<char>,
    second_salt: Seq<char>,
)
    requires
        accounts_wf(s),
    ensures
        ({
            let (once, made) = spec_register(s, username, first_password, first_salt);
            let (twice, again) = spec_register(once, username, second_password, second_salt);
            &&& made is Ok ==> again == Err::<i32, Error>(Error::Conflict) && twice == once
            &&& has_user(s, username) ==> made == Err::<i32, Error>(Error::Conflict) && again
                == made && twice == s
            &&& !(made is Ok && again is Ok)
        }),
{
    let (once, made) = spec_register(s, username, first_password, first_salt);
    if made is Ok {
        assert(once[s.len() as int].username == username);
    }
}

} // verus!
