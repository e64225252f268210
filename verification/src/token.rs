//! The token service: signed bearer tokens that name their subject and
//! expire by the clock alone.

use crate::error::{AuthError, Error};
use crate::text::{after_prefix, opt_text, spec_opt_str, strip_prefix};
use jsonwebtoken::{DecodingKey, EncodingKey, Header, Validation};
use vstd::prelude::*;
use vstd::utf8::encode_utf8;

verus! {

/// Seconds from the issue of a token to its expiry: seven days.
pub const TOKEN_EXPIRATION: u64 = 604800;

/// Seconds of clock skew that a token is forgiven past its expiry.
pub const LEEWAY: u64 = 60;

/// The claims of a bearer token.
#[derive(Debug)]
pub struct BearerToken {
    /// When the token was issued, in seconds since the epoch.
    pub iat: u64,
    /// When it expires.
    pub exp: u64,
    /// Whom it speaks for.
    pub username: String,
}

pub struct Claims {
    pub iat: u64,
    pub exp: u64,
    pub username: Seq<char>,
}

impl View for BearerToken {
    type V = Claims;

    open spec fn view(&self) -> Claims {
        Claims { iat: self.iat, exp: self.exp, username: self.username@ }
    }
}

/// Where the signing key comes from.
#[derive(Debug)]
pub enum JWTConfig {
    /// A shared secret, given directly.
    Secret(String),
    /// The paths of an RSA key pair in PEM files.
    RSAFiles { private: String, public: String },
}

/// The key that tokens are signed and checked with: a shared secret, set
/// once and only read after that.
pub struct JWTKey {
    secret: Vec<u8>,
}

impl View for JWTKey {
    type V = Seq<u8>;

    closed spec fn view(&self) -> Seq<u8> {
        self.secret@
    }
}

impl JWTKey {
    pub fn from_secret(secret: Vec<u8>) -> (key: JWTKey)
        ensures
            key@ == secret@,
    {
        JWTKey { secret }
    }
}

impl JWTConfig {
    /// The key this configuration gives: the secret's bytes. The paths of
    /// a key pair give none, for tokens are signed with a shared secret.
    pub fn key(&self) -> (key: Option<JWTKey>)
        ensures
            match *self {
                JWTConfig::Secret(s) => key matches Some(k) && k@ == encode_utf8(s@),
                JWTConfig::RSAFiles { .. } => key.is_none(),
            },
    {
        match self {
            JWTConfig::Secret(s) => Some(
                JWTKey::from_secret(vstd::slice::slice_to_vec(s.as_str().as_bytes())),
            ),
            JWTConfig::RSAFiles { .. } => None,
        }
    }
}

/// The token that carries the claims `iat`, `exp` and `username` under an
/// HS256 signature made with `secret`; none where encoding fails.
pub uninterp spec fn hs256_token(secret: Seq<u8>, iat: u64, exp: u64, username: Seq<char>) -> Option<
    Seq<char>,
>;

/// What `token` holds when it is split, its HS256 signature is checked
/// against `secret` and its payload is read as a JSON object: none where
/// any of that fails, else the claims `iat` and `exp` where they are
/// unsigned integers and `username` where it is a string.
pub uninterp spec fn hs256_claims(secret: Seq<u8>, token: Seq<char>) -> Option<
    (Option<u64>, Option<u64>, Option<Seq<char>>),
>;

/// The claims a decoded token holds, with texts for strings.
pub open spec fn decoded_view(d: Option<(Option<u64>, Option<u64>, Option<String>)>) -> Option<
    (Option<u64>, Option<u64>, Option<Seq<char>>),
> {
    match d {
        Some((iat, exp, username)) => Some((iat, exp, opt_text(username))),
        None => None,
    }
}

/// `jsonwebtoken::encode` with the default header (HS256) and the key
/// `EncodingKey::from_secret(secret)`, on the claims object `{"iat", "exp",
/// "username"}`. The result is a function of these values alone, and a
/// token that comes out is one that `jsonwebtoken::decode` takes back
/// under the same secret, giving the same three claims: `decode` checks
/// an HS256 signature by signing again and comparing.
#[verifier::external_body]
fn hs256_sign(secret: &[u8], iat: u64, exp: u64, username: &str) -> (token: Option<String>)
    ensures
        opt_text(token) == hs256_token(secret@, iat, exp, username@),
        token matches Some(t) ==> hs256_claims(secret@, t@) == Some(
            (Some(iat), Some(exp), Some(username@)),
        ),
{
    let mut claims = serde_json::Map::new();
    claims.insert("iat".to_string(), serde_json::Value::from(iat));
    claims.insert("exp".to_string(), serde_json::Value::from(exp));
    claims.insert("username".to_string(), serde_json::Value::from(username));
    jsonwebtoken::encode(&Header::default(), &claims, &EncodingKey::from_secret(secret)).ok()
}

/// `jsonwebtoken::decode` with the key `DecodingKey::from_secret(secret)`
/// and the default validation (HS256 only) with the expiry check switched
/// off, so that the result does not depend on the time. Any error gives
/// `None`; the three claims are read off the decoded JSON value. On its
/// way `decode` reads the system clock, which must not stand before 1970.
#[verifier::external_body]
fn hs256_open(secret: &[u8], token: &str) -> (claims: Option<
    (Option<u64>, Option<u64>, Option<String>),
>)
    ensures
        decoded_view(claims) == hs256_claims(secret@, token@),
{
    let mut rules = Validation::default();
    rules.validate_exp = false;
    let key = DecodingKey::from_secret(secret);
    let data = jsonwebtoken::decode::<serde_json::Value>(token, &key, &rules).ok()?;
    let iat = data.claims.get("iat").and_then(serde_json::Value::as_u64);
    let exp = data.claims.get("exp").and_then(serde_json::Value::as_u64);
    let username = data.claims.get("username").and_then(serde_json::Value::as_str);
    Some((iat, exp, username.map(str::to_string)))
}

/// The claims of a token issued to `subject` at `now`.
pub open spec fn issued_claims(subject: Seq<char>, now: u64) -> Claims {
    Claims { iat: now, exp: (now + TOKEN_EXPIRATION) as u64, username: subject }
}

/// Whether a token that expires at `exp` is refused at `now`: once the
/// clock is past the expiry by more than the leeway.
pub open spec fn expired(exp: u64, now: u64) -> bool {
    now > exp + LEEWAY
}

/// What verification makes of a decoded token at `now`.
pub open spec fn verdict(
    decoded: Option<(Option<u64>, Option<u64>, Option<Seq<char>>)>,
    now: u64,
) -> Result<Claims, AuthError> {
    match decoded {
        Some((Some(iat), Some(exp), Some(username))) => if expired(exp, now) {
            Err(AuthError::Expired)
        } else {
            Ok(Claims { iat, exp, username })
        },
        _ => Err(AuthError::Invalid),
    }
}

/// The claims or the error of an outcome of verification.
pub open spec fn outcome_view(r: Result<BearerToken, AuthError>) -> Result<Claims, AuthError> {
    match r {
        Ok(t) => Ok(t@),
        Err(e) => Err(e),
    }
}

/// What issuing a token to `subject` at `now` gives.
pub open spec fn spec_issue(secret: Seq<u8>, subject: Seq<char>, now: u64) -> Result<
    Seq<char>,
    Error,
> {
    if now + TOKEN_EXPIRATION > u64::MAX {
        Err(Error::Internal)
    } else {
        match hs256_token(secret, now, (now + TOKEN_EXPIRATION) as u64, subject) {
            Some(t) => Ok(t),
            None => Err(Error::Internal),
        }
    }
}

/// The text or the error of an outcome that holds a string.
pub open spec fn text_outcome(r: Result<String, Error>) -> Result<Seq<char>, Error> {
    match r {
        Ok(s) => Ok(s@),
        Err(e) => Err(e),
    }
}

impl BearerToken {
    /// The claims of a token issued to `username` at `now`; none where the
    /// expiry would not fit the clock's range.
    pub fn issued(username: String, now: u64) -> (claims: Option<BearerToken>)
        ensures
            match claims {
                Some(t) => now + TOKEN_EXPIRATION <= u64::MAX && t@ == issued_claims(username@, now),
                None => now + TOKEN_EXPIRATION > u64::MAX,
            },
    {
        if now > u64::MAX - TOKEN_EXPIRATION {
            None
        } else {
            Some(BearerToken { iat: now, exp: now + TOKEN_EXPIRATION, username })
        }
    }

    /// Whether the token is refused at `now` for its age.
    pub fn is_expired(&self, now: u64) -> (gone: bool)
        ensures
            gone == expired(self.exp, now),
    {
        now >= LEEWAY && now - LEEWAY > self.exp
    }

    /// What a decoded token is worth at `now`: its claims if all three are
    /// there and it has not expired.
    pub fn judge(decoded: Option<(Option<u64>, Option<u64>, Option<String>)>, now: u64) -> (r:
        Result<BearerToken, AuthError>)
        ensures
            outcome_view(r) == verdict(decoded_view(decoded), now),
    {
        match decoded {
            Some((Some(iat), Some(exp), Some(username))) => {
                let token = BearerToken { iat, exp, username };
                if token.is_expired(now) {
                    Err(AuthError::Expired)
                } else {
                    Ok(token)
                }
            },
            _ => Err(AuthError::Invalid),
        }
    }

    /// Verifies `raw_jwt` at `now`: its shape, its signature under
    /// `jwt_key` and its expiry. A bad signature, a malformed payload or
    /// another algorithm is `Invalid`; a good token past its expiry by
    /// more than the leeway is `Expired`.
    pub fn verify_token(jwt_key: &JWTKey, raw_jwt: &str, now: u64) -> (r: Result<
        BearerToken,
        AuthError,
    >)
        ensures
            outcome_view(r) == spec_verify_token(jwt_key@, raw_jwt@, now),
    {
        BearerToken::judge(hs256_open(jwt_key.secret.as_slice(), raw_jwt), now)
    }
}

/// What verification under `secret` makes of `token` at the time `at`.
pub open spec fn spec_verify_token(secret: Seq<u8>, token: Seq<char>, at: u64) -> Result<
    Claims,
    AuthError,
> {
    verdict(hs256_claims(secret, token), at)
}

/// Issues a token to `username` at `now`, to expire `TOKEN_EXPIRATION`
/// seconds later. The token verifies under the same key at once and until
/// its expiry and the leeway have passed, and is refused as expired from
/// then on.
pub fn generate_jwt(username: &str, key: &JWTKey, now: u64) -> (r: Result<String, Error>)
    ensures
        text_outcome(r) == spec_issue(key@, username@, now),
        r matches Ok(t) ==> {
            &&& spec_verify_token(key@, t@, now) == Ok::<Claims, AuthError>(
                issued_claims(username@, now),
            )
            &&& forall|at: u64|
                at <= now + TOKEN_EXPIRATION + LEEWAY ==> #[trigger] spec_verify_token(
                    key@,
                    t@,
                    at,
                ) == Ok::<Claims, AuthError>(issued_claims(username@, now))
            &&& forall|at: u64|
                at > now + TOKEN_EXPIRATION + LEEWAY ==> #[trigger] spec_verify_token(
                    key@,
                    t@,
                    at,
                ) == Err::<Claims, AuthError>(AuthError::Expired)
        },
{
    if now > u64::MAX - TOKEN_EXPIRATION {
        return Err(Error::Internal);
    }
    match hs256_sign(key.secret.as_slice(), now, now + TOKEN_EXPIRATION, username) {
        Some(t) => Ok(t),
        None => Err(Error::Internal),
    }
}

/// A token issued at `now` is accepted from then until its expiry and
/// through the leeway after it, and refused as expired from the next
/// second on.
pub proof fn lemma_token_lifetime(subject: Seq<char>, now: u64, later: u64)
    requires
        now + TOKEN_EXPIRATION <= u64::MAX,
        now <= later,
    ensures
        ({
            let c = issued_claims(subject, now);
            let d = Some((Some(c.iat), Some(c.exp), Some(c.username)));
            &&& verdict(d, now) == Ok::<Claims, AuthError>(c)
            &&& later <= c.exp + LEEWAY ==> verdict(d, later) == Ok::<Claims, AuthError>(c)
            &&& later > c.exp + LEEWAY ==> verdict(d, later) == Err::<Claims, AuthError>(
                AuthError::Expired,
            )
        }),
{
}

/// The query parameter that may carry the token.
#[derive(Debug)]
pub struct TokenQuery {
    pub access_token: String,
}

/// The scheme word and the space that open an `Authorization` header.
pub open spec fn bearer_prefix() -> Seq<char> {
    seq!['B', 'e', 'a', 'r', 'e', 'r', ' ']
}

/// Where a request's token is taken from: the `Authorization` header if
/// there is one, which must then read `Bearer <token>`; else the query
/// parameter; else there is none.
pub open spec fn presented(header: Option<Seq<char>>, query: Option<Seq<char>>) -> Result<
    Seq<char>,
    AuthError,
> {
    match header {
        Some(h) => match after_prefix(h, bearer_prefix()) {
            Some(t) => Ok(t),
            None => Err(AuthError::Invalid),
        },
        None => match query {
            Some(t) => Ok(t),
            None => Err(AuthError::Missing),
        },
    }
}

/// The token of an `Authorization` header that reads `Bearer <token>`.
pub fn bearer_of(header: &str) -> (token: Option<&str>)
    ensures
        match token {
            Some(t) => after_prefix(header@, bearer_prefix()) == Some(t@),
            None => after_prefix(header@, bearer_prefix()).is_none(),
        },
{
    proof {
        reveal_strlit("Bearer ");
        assert("Bearer "@ =~= bearer_prefix());
    }
    strip_prefix(header, "Bearer ")
}

/// The token a request presents. The header wins over the query
/// parameter, and a header that does not read `Bearer <token>` fails the
/// request even where the query has a token.
pub fn extract_token<'a>(header: Option<&'a str>, query: Option<&'a TokenQuery>) -> (token: Result<
    &'a str,
    AuthError,
>)
    ensures
        match token {
            Ok(t) => presented(spec_opt_str(header), spec_query_token(query)) == Ok::<
                Seq<char>,
                AuthError,
            >(t@),
            Err(e) => presented(spec_opt_str(header), spec_query_token(query)) == Err::<
                Seq<char>,
                AuthError,
            >(e),
        },
{
    match header {
        Some(h) => match bearer_of(h) {
            Some(t) => Ok(t),
            None => Err(AuthError::Invalid),
        },
        None => match query {
            Some(q) => Ok(q.access_token.as_str()),
            None => Err(AuthError::Missing),
        },
    }
}

/// The token text of an optional query parameter.
pub open spec fn spec_query_token(o: Option<&TokenQuery>) -> Option<Seq<char>> {
    match o {
        Some(q) => Some(q.access_token@),
        None => None,
    }
}

} // verus!
