//! The backend as a whole: every request passes the guard first, which
//! ends it at the first failure; what is let through reaches the stores.

use crate::auth::{
    login_handler, login_outcome, register_handler, register_outcome, register_with_fresh_salt,
    spec_register_answer, Login, LoginResp, Register, RegisterResp,
};
use crate::blob::{first_visible, Asset, AssetView};
use crate::credential::{
    account_of, has_user, spec_register, spec_verify, valid_salt, AccountView, CredentialStore,
    User,
};
use crate::error::Error;
use crate::form::TileForm;
use crate::guard::{screen, spec_authenticate, spec_screen, GuardView};
use crate::listing::{EntryView, TileQuery, PAGE_LIMIT};
use crate::scope::Scope;
use crate::text::spec_opt_str;
use crate::tile::{
    spec_create, spec_delete, spec_list, spec_update, tile_outcome, tile_views, Tile, TilePage,
    TileStore, TileView,
};
use crate::token::{spec_issue, spec_query_token, JWTKey, TokenQuery};
use vstd::prelude::*;
use vstd::string::StringExecFns;

verus! {

/// What every request brings along: the `Authorization` header and the
/// `access_token` parameter, where it has them, and the time it arrives.
pub struct Request<'a> {
    pub authorization: Option<&'a str>,
    pub access_token: Option<&'a TokenQuery>,
    pub now: u64,
}

pub struct RequestView {
    pub authorization: Option<Seq<char>>,
    pub access_token: Option<Seq<char>>,
    pub now: u64,
}

impl<'a> View for Request<'a> {
    type V = RequestView;

    open spec fn view(&self) -> RequestView {
        RequestView {
            authorization: spec_opt_str(self.authorization),
            access_token: spec_query_token(self.access_token),
            now: self.now,
        }
    }
}

/// Where the guard ends for `req` at a resource of `owner`, or at an
/// unscoped one.
pub open spec fn guard_end(secret: Seq<u8>, req: RequestView, owner: Option<Seq<char>>) -> GuardView {
    spec_screen(secret, req.authorization, req.access_token, owner, req.now)
}

/// The account that a request for a resource of `user` acts on: the
/// guard's rejection where it rejects, `NotFound` where it lets through a
/// name that no account has, else the account's id.
pub open spec fn spec_owner(
    secret: Seq<u8>,
    accounts: Seq<AccountView>,
    req: RequestView,
    user: Seq<char>,
) -> Result<i32, Error> {
    match guard_end(secret, req, Some(user)) {
        GuardView::Rejected(e) => Err(e),
        _ => if has_user(accounts, user) {
            Ok(account_of(accounts, user).id)
        } else {
            Err(Error::NotFound)
        },
    }
}

/// Whom a request for an unscoped resource is seen as: nobody where it
/// brings no token, else the account its token speaks for.
pub open spec fn spec_viewer(secret: Seq<u8>, accounts: Seq<AccountView>, req: RequestView) -> Result<
    Option<i32>,
    Error,
> {
    match guard_end(secret, req, None) {
        GuardView::Rejected(e) => Err(e),
        GuardView::Authorized(Some(claims)) => if has_user(accounts, claims.username) {
            Ok(Some(account_of(accounts, claims.username).id))
        } else {
            Err(Error::NotFound)
        },
        _ => Ok(None),
    }
}

/// The tiles or the error of an outcome that holds a page.
pub open spec fn page_outcome(r: Result<TilePage, Error>) -> Result<Seq<TileView>, Error> {
    match r {
        Ok(p) => Ok(tile_views(p.items@)),
        Err(e) => Err(e),
    }
}

/// The accounts and the tiles behind one signing key.
pub struct Backend {
    pub key: JWTKey,
    pub accounts: CredentialStore,
    pub tiles: TileStore,
}

impl Backend {
    /// The backend's invariant: that of its stores.
    pub open spec fn wf(&self) -> bool {
        self.accounts.wf() && self.tiles.wf()
    }

    pub fn new(key: JWTKey) -> (backend: Backend)
        ensures
            backend.wf(),
            backend.key@ == key@,
            backend.accounts@ == Seq::<AccountView>::empty(),
            backend.tiles.entries@ == Seq::<EntryView>::empty(),
            backend.tiles.blobs@ == Seq::<AssetView>::empty(),
    {
        Backend { key, accounts: CredentialStore::new(), tiles: TileStore::new() }
    }

    /// Registers an account under `salt` and answers with its first token.
    pub fn register(&mut self, body: Register, salt: String, now: u64) -> (r: Result<
        RegisterResp,
        Error,
    >)
        requires
            old(self).wf(),
            valid_salt(salt@),
        ensures
            final(self).wf(),
            final(self).key@ == old(self).key@,
            final(self).tiles == old(self).tiles,
            final(self).accounts@ == spec_register(
                old(self).accounts@,
                body.username@,
                body.password@,
                salt@,
            ).0,
            register_outcome(r) == spec_register_answer(
                spec_register(old(self).accounts@, body.username@, body.password@, salt@).1,
                old(self).key@,
                body.username@,
                now,
            ),
    {
        register_handler(&mut self.accounts, &self.key, body, salt, now)
    }

    /// Registers an account under a fresh random salt.
    pub fn register_fresh(&mut self, body: Register, now: u64) -> (r: Result<RegisterResp, Error>)
        requires
            old(self).wf(),
        ensures
            final(self).wf(),
            final(self).key@ == old(self).key@,
            final(self).tiles == old(self).tiles,
            exists|salt: Seq<char>|
                {
                    &&& valid_salt(salt)
                    &&& final(self).accounts@ == (#[trigger] spec_register(
                        old(self).accounts@,
                        body.username@,
                        body.password@,
                        salt,
                    )).0
                    &&& register_outcome(r) == spec_register_answer(
                        spec_register(old(self).accounts@, body.username@, body.password@, salt).1,
                        old(self).key@,
                        body.username@,
                        now,
                    )
                },
    {
        register_with_fresh_salt(&mut self.accounts, &self.key, body, now)
    }

    /// Checks a password and answers with a token.
    pub fn login(&self, body: Login, now: u64) -> (r: Result<LoginResp, Error>)
        requires
            self.wf(),
        ensures
            login_outcome(r) == (match spec_verify(self.accounts@, body.username@, body.password@) {
                Ok(_) => spec_issue(self.key@, body.username@, now),
                Err(e) => Err(e),
            }),
    {
        login_handler(&self.accounts, &self.key, body, now)
    }

    /// Guards a resource of `user` and finds the account it belongs to.
    pub fn owner(&self, req: &Request, user: &str) -> (r: Result<i32, Error>)
        requires
            self.wf(),
        ensures
            r == spec_owner(self.key@, self.accounts@, req@, user@),
    {
        let end = screen(&self.key, req.authorization, req.access_token, Some(user), req.now);
        match end.subject() {
            Ok(_) => match self.accounts.user_id(user) {
                Some(id) => Ok(id),
                None => Err(Error::NotFound),
            },
            Err(e) => Err(e),
        }
    }

    /// Guards an unscoped resource and finds whom the request is seen as.
    pub fn viewer(&self, req: &Request) -> (r: Result<Option<i32>, Error>)
        requires
            self.wf(),
        ensures
            r == spec_viewer(self.key@, self.accounts@, req@),
    {
        let end = screen(&self.key, req.authorization, req.access_token, None, req.now);
        match end.subject() {
            Ok(Some(name)) => match self.accounts.user_id(name.as_str()) {
                Some(id) => Ok(Some(id)),
                None => Err(Error::NotFound),
            },
            Ok(None) => Ok(None),
            Err(e) => Err(e),
        }
    }

    /// The account of `user`, for `user` alone.
    pub fn read_user(&self, req: &Request, user: &str) -> (r: Result<User, Error>)
        requires
            self.wf(),
        ensures
            match spec_owner(self.key@, self.accounts@, req@, user@) {
                Ok(id) => r matches Ok(account) && account.id == id && account.username@ == user@,
                Err(e) => r matches Err(f) && f == e,
            },
    {
        match self.owner(req, user) {
            Ok(id) => Ok(User { id, username: String::from_str(user) }),
            Err(e) => Err(e),
        }
    }

    /// Makes a tile for `user`.
    pub fn create_user_tile(&mut self, req: &Request, user: &str, form: TileForm) -> (r: Result<
        Tile,
        Error,
    >)
        requires
            old(self).wf(),
        ensures
            final(self).wf(),
            final(self).key@ == old(self).key@,
            final(self).accounts@ == old(self).accounts@,
            (final(self).tiles.entries@, final(self).tiles.blobs@, tile_outcome(r)) == (match spec_owner(
                old(self).key@,
                old(self).accounts@,
                req@,
                user@,
            ) {
                Ok(id) => spec_create(
                    old(self).tiles.entries@,
                    old(self).tiles.blobs@,
                    Scope::Owner(id),
                    form@,
                ),
                Err(e) => (old(self).tiles.entries@, old(self).tiles.blobs@, Err(e)),
            }),
    {
        match self.owner(req, user) {
            Ok(id) => self.tiles.create_user_tile(id, form),
            Err(e) => Err(e),
        }
    }

    /// One page of tiles: of `user`'s own and the public ones where a
    /// user is named, which is for that user alone; of the public ones
    /// where none is.
    pub fn list_tiles(&self, req: &Request, user: Option<&str>, query: &TileQuery) -> (r: Result<
        TilePage,
        Error,
    >)
        requires
            self.wf(),
        ensures
            page_outcome(r) == (match user {
                Some(u) => match spec_owner(self.key@, self.accounts@, req@, u@) {
                    Ok(id) => Ok(spec_list(self.tiles.entries@, Some(id), query@)),
                    Err(e) => Err(e),
                },
                None => match guard_end(self.key@, req@, None) {
                    GuardView::Rejected(e) => Err(e),
                    _ => Ok(spec_list(self.tiles.entries@, None, query@)),
                },
            }),
            match r {
                Ok(found) => match found.next_page {
                    Some(next) => found.items.len() == PAGE_LIMIT && next@ == query@.following(),
                    None => found.items.len() < PAGE_LIMIT,
                },
                Err(_) => true,
            },
    {
        match user {
            Some(u) => match self.owner(req, u) {
                Ok(id) => Ok(self.tiles.list_tiles(Some(id), query)),
                Err(e) => Err(e),
            },
            None => {
                let end = screen(&self.key, req.authorization, req.access_token, None, req.now);
                match end.subject() {
                    Ok(_) => Ok(self.tiles.list_tiles(None, query)),
                    Err(e) => Err(e),
                }
            },
        }
    }

    /// The image under `hash`, if the request may see it.
    pub fn read_image(&self, req: &Request, hash: &str) -> (r: Result<&Asset, Error>)
        requires
            self.wf(),
        ensures
            match spec_viewer(self.key@, self.accounts@, req@) {
                Ok(viewer) => match r {
                    Ok(a) => exists|i: int|
                        first_visible(self.tiles.blobs@, hash@, viewer, i) && self.tiles.blobs@[i]
                            == a@,
                    Err(e) => e == Error::NotFound && forall|i: int|
                        0 <= i < self.tiles.blobs@.len() ==> !((#[trigger] self.tiles.blobs@[i]).hash
                            == hash@ && self.tiles.blobs@[i].scope.spec_visible_to(viewer)),
                },
                Err(e) => r matches Err(f) && f == e,
            },
    {
        match self.viewer(req) {
            Ok(viewer) => self.tiles.read_image(viewer, hash),
            Err(e) => Err(e),
        }
    }

    /// Changes the tile that `user` has under `phrase`.
    pub fn update_user_tile(&mut self, req: &Request, user: &str, phrase: &str, form: TileForm) -> (r:
        Result<Tile, Error>)
        requires
            old(self).wf(),
        ensures
            final(self).wf(),
            final(self).key@ == old(self).key@,
            final(self).accounts@ == old(self).accounts@,
            (final(self).tiles.entries@, final(self).tiles.blobs@, tile_outcome(r)) == (match spec_owner(
                old(self).key@,
                old(self).accounts@,
                req@,
                user@,
            ) {
                Ok(id) => spec_update(
                    old(self).tiles.entries@,
                    old(self).tiles.blobs@,
                    id,
                    phrase@,
                    form@,
                ),
                Err(e) => (old(self).tiles.entries@, old(self).tiles.blobs@, Err(e)),
            }),
    {
        match self.owner(req, user) {
            Ok(id) => self.tiles.update_user_tile(id, phrase, form),
            Err(e) => Err(e),
        }
    }

    /// Deletes the tile that `user` has under `phrase`; to delete what is
    /// not there is no failure.
    pub fn delete_user_tile(&mut self, req: &Request, user: &str, phrase: &str) -> (r: Result<
        (),
        Error,
    >)
        requires
            old(self).wf(),
        ensures
            final(self).wf(),
            final(self).key@ == old(self).key@,
            final(self).accounts@ == old(self).accounts@,
            final(self).tiles.blobs@ == old(self).tiles.blobs@,
            match spec_owner(old(self).key@, old(self).accounts@, req@, user@) {
                Ok(id) => r is Ok && final(self).tiles.entries@ == spec_delete(
                    old(self).tiles.entries@,
                    id,
                    phrase@,
                ).0,
                Err(e) => r == Err::<(), Error>(e) && final(self).tiles.entries@ == old(
                    self,
                ).tiles.entries@,
            },
    {
        match self.owner(req, user) {
            Ok(id) => {
                self.tiles.delete_user_tile(id, phrase);
                Ok(())
            },
            Err(e) => Err(e),
        }
    }
}

/// A good token opens its own subject's resources and nobody else's: a
/// request that authenticates as one account is turned away as
/// unauthorized from every resource of another name, and acts on its own
/// account where it asks for its own.
pub proof fn lemma_owner_only(
    secret: Seq<u8>,
    accounts: Seq<AccountView>,
    req: RequestView,
    user: Seq<char>,
)
    requires
        req.authorization is Some || req.access_token is Some,
        spec_authenticate(secret, req.authorization, req.access_token, req.now) is Ok,
    ensures
        ({
            let claims = spec_authenticate(
                secret,
                req.authorization,
                req.access_token,
                req.now,
            )->Ok_0;
            &&& claims.username != user ==> spec_owner(secret, accounts, req, user) == Err::<
                i32,
                Error,
            >(Error::Unauthorized)
            &&& claims.username == user && has_user(accounts, user) ==> spec_owner(
                secret,
                accounts,
                req,
                user,
            ) == Ok::<i32, Error>(account_of(accounts, user).id)
        }),
{
}

/// Without a good token no resource of any user is reached.
pub proof fn lemma_no_token_no_entry(
    secret: Seq<u8>,
    accounts: Seq<AccountView>,
    req: RequestView,
    user: Seq<char>,
)
    requires
        req.authorization is None && req.access_token is None || spec_authenticate(
            secret,
            req.authorization,
            req.access_token,
            req.now,
        ) is Err,
    ensures
        spec_owner(secret, accounts, req, user) matches Err(Error::Token(_)),
{
}

} // verus!
