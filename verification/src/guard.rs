//! The authorization guard: a request's token is verified, then its
//! subject is held against the owner of the resource asked for. Nothing is
//! remembered from one request to the next.

use crate::error::{AuthError, Error};
use crate::text::{after_prefix, spec_opt_str, str_eq};
use crate::token::{
    bearer_of, bearer_prefix, extract_token, hs256_claims, outcome_view, presented,
    spec_query_token, text_outcome, verdict, BearerToken, Claims, JWTKey, TokenQuery,
};
use vstd::prelude::*;

verus! {

/// A verified token that is good for the resource asked for.
#[derive(Debug)]
pub struct UserToken(pub BearerToken);

/// Where a request stands with the guard.
#[derive(Debug)]
pub enum Guard {
    /// No token has been looked at yet.
    Unauthenticated,
    /// The token verified; its claims are held.
    Authenticated(BearerToken),
    /// The request proceeds: for the subject of this token, or for nobody
    /// in particular where a public resource was asked for without one.
    Authorized(Option<UserToken>),
    /// The request ends here, for this reason.
    Rejected(Error),
}

pub enum GuardView {
    Unauthenticated,
    Authenticated(Claims),
    Authorized(Option<Claims>),
    Rejected(Error),
}

impl View for Guard {
    type V = GuardView;

    open spec fn view(&self) -> GuardView {
        match *self {
            Guard::Unauthenticated => GuardView::Unauthenticated,
            Guard::Authenticated(t) => GuardView::Authenticated(t@),
            Guard::Authorized(Some(t)) => GuardView::Authorized(Some(t.0@)),
            Guard::Authorized(None) => GuardView::Authorized(None),
            Guard::Rejected(e) => GuardView::Rejected(e),
        }
    }
}

impl GuardView {
    /// No step leads out of these.
    pub open spec fn terminal(self) -> bool {
        self is Authorized || self is Rejected
    }

    /// The step taken when a token's verification has come out as
    /// `outcome`: only a request not yet authenticated takes it.
    pub open spec fn present(self, outcome: Result<Claims, AuthError>) -> GuardView {
        match self {
            GuardView::Unauthenticated => match outcome {
                Ok(claims) => GuardView::Authenticated(claims),
                Err(e) => GuardView::Rejected(Error::Token(e)),
            },
            _ => self,
        }
    }

    /// The step taken when the resource is known: scoped to `owner`, or to
    /// nobody. A scoped resource is for the token whose subject is the
    /// owner; an unscoped one is for everybody, with a token or without.
    pub open spec fn access(self, owner: Option<Seq<char>>) -> GuardView {
        match self {
            GuardView::Unauthenticated => match owner {
                Some(_) => GuardView::Rejected(Error::Token(AuthError::Missing)),
                None => GuardView::Authorized(None),
            },
            GuardView::Authenticated(claims) => match owner {
                Some(o) => if claims.username == o {
                    GuardView::Authorized(Some(claims))
                } else {
                    GuardView::Rejected(Error::Unauthorized)
                },
                None => GuardView::Authorized(Some(claims)),
            },
            _ => self,
        }
    }
}

impl Guard {
    /// Every request starts here.
    pub fn new() -> (g: Guard)
        ensures
            g@ == GuardView::Unauthenticated,
    {
        Guard::Unauthenticated
    }

    pub fn present(self, outcome: Result<BearerToken, AuthError>) -> (next: Guard)
        ensures
            next@ == self@.present(outcome_view(outcome)),
    {
        match self {
            Guard::Unauthenticated => match outcome {
                Ok(token) => Guard::Authenticated(token),
                Err(e) => Guard::Rejected(Error::Token(e)),
            },
            other => other,
        }
    }

    pub fn access(self, owner: Option<&str>) -> (next: Guard)
        ensures
            next@ == self@.access(spec_opt_str(owner)),
            next@.terminal(),
    {
        match self {
            Guard::Unauthenticated => match owner {
                Some(_) => Guard::Rejected(Error::Token(AuthError::Missing)),
                None => Guard::Authorized(None),
            },
            Guard::Authenticated(token) => match owner {
                Some(o) => if str_eq(token.username.as_str(), o) {
                    Guard::Authorized(Some(UserToken(token)))
                } else {
                    Guard::Rejected(Error::Unauthorized)
                },
                None => Guard::Authorized(Some(UserToken(token))),
            },
            other => other,
        }
    }
}

/// A valid token for one user opens the resources scoped to that user and
/// no other user's: asked for a resource of `owner`, the guard ends in
/// `Authorized` if the token's subject is `owner`, and in
/// `Rejected(Unauthorized)` if it is anyone else.
pub proof fn lemma_guard_owner_only(claims: Claims, owner: Seq<char>)
    ensures
        ({
            let end = GuardView::Unauthenticated.present(Ok(claims)).access(Some(owner));
            &&& claims.username == owner ==> end == GuardView::Authorized(Some(claims))
            &&& claims.username != owner ==> end == GuardView::Rejected(Error::Unauthorized)
        }),
{
}

/// A token that does not verify never gets past the guard, whatever is
/// asked for.
pub proof fn lemma_guard_rejects_bad_token(e: AuthError, owner: Option<Seq<char>>)
    ensures
        GuardView::Unauthenticated.present(Err(e)).access(owner) == GuardView::Rejected(
            Error::Token(e),
        ),
{
}

/// The outcome of verification as a handler's result.
pub open spec fn as_failure(r: Result<Claims, AuthError>) -> Result<Claims, Error> {
    match r {
        Ok(c) => Ok(c),
        Err(e) => Err(Error::Token(e)),
    }
}

/// The claims or the error of a handler's result that holds a token.
pub open spec fn claims_outcome(r: Result<BearerToken, Error>) -> Result<Claims, Error> {
    match r {
        Ok(t) => Ok(t@),
        Err(e) => Err(e),
    }
}

/// What the `Authorization` header `header` authenticates at `now`.
pub open spec fn spec_header_claims(secret: Seq<u8>, header: Seq<char>, now: u64) -> Result<
    Claims,
    Error,
> {
    match after_prefix(header, bearer_prefix()) {
        Some(t) => as_failure(verdict(hs256_claims(secret, t), now)),
        None => Err(Error::Token(AuthError::Invalid)),
    }
}

/// Whose resources a verified token opens: its own subject's.
pub open spec fn spec_match(user: Seq<char>, r: Result<Claims, Error>) -> Result<Seq<char>, Error> {
    match r {
        Ok(c) => if c.username == user {
            Ok(c.username)
        } else {
            Err(Error::Unauthorized)
        },
        Err(e) => Err(e),
    }
}

/// Authenticates the token of an `Authorization` header, which must read
/// `Bearer <token>`.
pub fn authentic_user_header(pub_key: &JWTKey, header: &str, now: u64) -> (r: Result<
    BearerToken,
    Error,
>)
    ensures
        claims_outcome(r) == spec_header_claims(pub_key@, header@, now),
{
    match bearer_of(header) {
        Some(raw) => match BearerToken::verify_token(pub_key, raw, now) {
            Ok(t) => Ok(t),
            Err(e) => Err(Error::Token(e)),
        },
        None => Err(Error::Token(AuthError::Invalid)),
    }
}

/// Authenticates the token of the `access_token` query parameter.
pub fn authentic_token_query(pub_key: &JWTKey, query: &TokenQuery, now: u64) -> (r: Result<
    BearerToken,
    Error,
>)
    ensures
        claims_outcome(r) == as_failure(verdict(hs256_claims(pub_key@, query.access_token@), now)),
{
    match BearerToken::verify_token(pub_key, query.access_token.as_str(), now) {
        Ok(t) => Ok(t),
        Err(e) => Err(Error::Token(e)),
    }
}

/// The user whose resources are asked for, if the token is that user's.
pub fn user_and_token_match(user: String, tok: BearerToken) -> (r: Result<String, Error>)
    ensures
        text_outcome(r) == spec_match(user@, Ok(tok@)),
{
    if user == tok.username {
        Ok(tok.username)
    } else {
        Err(Error::Unauthorized)
    }
}

/// Guards a resource scoped to `user` by the `Authorization` header.
pub fn user_resource(pub_key: &JWTKey, user: String, header: &str, now: u64) -> (r: Result<
    String,
    Error,
>)
    ensures
        text_outcome(r) == spec_match(
            user@,
            spec_header_claims(pub_key@, header@, now),
        ),
{
    match authentic_user_header(pub_key, header, now) {
        Ok(tok) => user_and_token_match(user, tok),
        Err(e) => Err(e),
    }
}

/// Guards a resource scoped to `user` by the `access_token` query
/// parameter.
pub fn user_resource_query(pub_key: &JWTKey, user: String, query: &TokenQuery, now: u64) -> (r:
    Result<String, Error>)
    ensures
        text_outcome(r) == spec_match(
            user@,
            as_failure(verdict(hs256_claims(pub_key@, query.access_token@), now)),
        ),
{
    match authentic_token_query(pub_key, query, now) {
        Ok(tok) => user_and_token_match(user, tok),
        Err(e) => Err(e),
    }
}


/// What a request authenticates as at `now`: its token is taken from the
/// header or else from the query, and verified.
pub open spec fn spec_authenticate(
    secret: Seq<u8>,
    header: Option<Seq<char>>,
    query: Option<Seq<char>>,
    now: u64,
) -> Result<Claims, AuthError> {
    match presented(header, query) {
        Ok(t) => verdict(hs256_claims(secret, t), now),
        Err(e) => Err(e),
    }
}

/// Where the guard ends for a request to a resource of `owner`, or to an
/// unscoped one. A request without any token presents nothing: it stays
/// unauthenticated until the resource decides.
pub open spec fn spec_screen(
    secret: Seq<u8>,
    header: Option<Seq<char>>,
    query: Option<Seq<char>>,
    owner: Option<Seq<char>>,
    now: u64,
) -> GuardView {
    if header is None && query is None {
        GuardView::Unauthenticated.access(owner)
    } else {
        GuardView::Unauthenticated.present(spec_authenticate(secret, header, query, now)).access(
            owner,
        )
    }
}

/// Authenticates a request by the token it presents.
pub fn authenticate(
    pub_key: &JWTKey,
    header: Option<&str>,
    query: Option<&TokenQuery>,
    now: u64,
) -> (r: Result<BearerToken, AuthError>)
    ensures
        outcome_view(r) == spec_authenticate(
            pub_key@,
            spec_opt_str(header),
            spec_query_token(query),
            now,
        ),
{
    match extract_token(header, query) {
        Ok(raw) => BearerToken::verify_token(pub_key, raw, now),
        Err(e) => Err(e),
    }
}

/// Runs the guard over one request, from `Unauthenticated` to a terminal
/// state.
pub fn screen(
    pub_key: &JWTKey,
    header: Option<&str>,
    query: Option<&TokenQuery>,
    owner: Option<&str>,
    now: u64,
) -> (end: Guard)
    ensures
        end@ == spec_screen(
            pub_key@,
            spec_opt_str(header),
            spec_query_token(query),
            spec_opt_str(owner),
            now,
        ),
        end@.terminal(),
{
    let start = Guard::new();
    if header.is_none() && query.is_none() {
        start.access(owner)
    } else {
        start.present(authenticate(pub_key, header, query, now)).access(owner)
    }
}

impl Guard {
    /// The account name the request proceeds for, none for an anonymous
    /// one, or the reason it was rejected.
    pub fn subject(self) -> (r: Result<Option<String>, Error>)
        requires
            self@.terminal(),
        ensures
            match r {
                Ok(Some(name)) => self@ matches GuardView::Authorized(Some(c)) && c.username
                    == name@,
                Ok(None) => self@ == GuardView::Authorized(None),
                Err(e) => self@ == GuardView::Rejected(e),
            },
    {
        match self {
            Guard::Authorized(Some(token)) => Ok(Some(token.0.username)),
            Guard::Authorized(None) => Ok(None),
            Guard::Rejected(e) => Err(e),
            _ => Err(Error::Internal),
        }
    }
}

} // verus!
