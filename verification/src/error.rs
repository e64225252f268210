//! The error taxonomy and the status code each error is answered with.

use crate::text::{spec_opt_str, str_eq};
use vstd::prelude::*;

verus! {

/// Why a bearer token did not authenticate a request.
#[derive(Clone, Copy, Debug, PartialEq, Eq, Structural)]
pub enum AuthError {
    /// No token was presented.
    Missing,
    /// The token is malformed, wrongly signed or signed with another algorithm.
    Invalid,
    /// The signature is good but the token is past its expiry.
    Expired,
}

/// Every way a request can fail.
#[derive(Clone, Copy, Debug, PartialEq, Eq, Structural)]
pub enum Error {
    /// Bad credentials, or a token for somebody else's resource.
    Unauthorized,
    /// The bearer token did not authenticate.
    Token(AuthError),
    /// A username or an entry key that is already taken.
    Conflict,
    /// No such account, entry or asset.
    NotFound,
    /// A body that does not parse, or a required part that is missing.
    MalformedRequest,
    /// A failure of storage or signing that fits no other class.
    Internal,
}

/// What a request was turned away for before or inside a handler.
#[derive(Clone, Copy, Debug, PartialEq, Eq, Structural)]
pub enum Rejection {
    /// No route matches the path.
    NoRoute,
    /// The body could not be deserialized.
    BadBody,
    /// The path exists but not for this method.
    MethodNotAllowed,
    /// A handler failed with this error.
    Failure(Error),
    /// Anything else.
    Unknown,
}

pub const STATUS_OK: u16 = 200;

pub const STATUS_CREATED: u16 = 201;

pub const STATUS_BAD_REQUEST: u16 = 400;

pub const STATUS_UNAUTHORIZED: u16 = 401;

pub const STATUS_NOT_FOUND: u16 = 404;

pub const STATUS_METHOD_NOT_ALLOWED: u16 = 405;

pub const STATUS_CONFLICT: u16 = 409;

pub const STATUS_INTERNAL_SERVER_ERROR: u16 = 500;

impl Error {
    /// The status code this error is surfaced with. Every failure of
    /// authentication or authorization reads the same to the client.
    pub open spec fn spec_status(self) -> u16 {
        match self {
            Error::Unauthorized => STATUS_UNAUTHORIZED,
            Error::Token(_) => STATUS_UNAUTHORIZED,
            Error::Conflict => STATUS_CONFLICT,
            Error::NotFound => STATUS_NOT_FOUND,
            Error::MalformedRequest => STATUS_BAD_REQUEST,
            Error::Internal => STATUS_INTERNAL_SERVER_ERROR,
        }
    }

    #[verifier::when_used_as_spec(spec_status)]
    pub fn status(self) -> (code: u16)
        ensures
            code == self.spec_status(),
    {
        match self {
            Error::Unauthorized => STATUS_UNAUTHORIZED,
            Error::Token(_) => STATUS_UNAUTHORIZED,
            Error::Conflict => STATUS_CONFLICT,
            Error::NotFound => STATUS_NOT_FOUND,
            Error::MalformedRequest => STATUS_BAD_REQUEST,
            Error::Internal => STATUS_INTERNAL_SERVER_ERROR,
        }
    }
}

/// The SQLSTATE code of a broken uniqueness rule.
pub open spec fn unique_violation() -> Seq<char> {
    "23505"@
}

/// The class of a failure of the durable store, told by its SQLSTATE code
/// where it has one: a broken uniqueness rule is a conflict, any other
/// failure is internal.
pub open spec fn spec_storage_failure(sql_state: Option<Seq<char>>) -> Error {
    if sql_state == Some(unique_violation()) {
        Error::Conflict
    } else {
        Error::Internal
    }
}

pub fn storage_failure(sql_state: Option<&str>) -> (class: Error)
    ensures
        class == spec_storage_failure(spec_opt_str(sql_state)),
{
    match sql_state {
        Some(code) => if str_eq(code, "23505") {
            Error::Conflict
        } else {
            Error::Internal
        },
        None => Error::Internal,
    }
}

/// The status code a rejection is answered with.
pub open spec fn rejection_status(cause: Rejection) -> u16 {
    match cause {
        Rejection::NoRoute => STATUS_NOT_FOUND,
        Rejection::BadBody => STATUS_BAD_REQUEST,
        Rejection::MethodNotAllowed => STATUS_METHOD_NOT_ALLOWED,
        Rejection::Failure(e) => e.spec_status(),
        Rejection::Unknown => STATUS_INTERNAL_SERVER_ERROR,
    }
}

/// Maps a rejection to the status code of the (empty) reply.
pub fn handle_rejects(cause: Rejection) -> (code: u16)
    ensures
        code == rejection_status(cause),
{
    match cause {
        Rejection::NoRoute => STATUS_NOT_FOUND,
        Rejection::BadBody => STATUS_BAD_REQUEST,
        Rejection::MethodNotAllowed => STATUS_METHOD_NOT_ALLOWED,
        Rejection::Failure(e) => e.status(),
        Rejection::Unknown => STATUS_INTERNAL_SERVER_ERROR,
    }
}

/// The status code of a handler's outcome: `success` when it succeeded,
/// else the code of its error.
pub fn outcome_status<T>(outcome: &Result<T, Error>, success: u16) -> (code: u16)
    ensures
        code == match *outcome {
            Ok(_) => success,
            Err(e) => e.spec_status(),
        },
{
    match outcome {
        Ok(_) => success,
        Err(e) => e.status(),
    }
}

} // verus!
