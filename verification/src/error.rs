//! The error type of the HTTP handlers and the status and public message
//! each variant is answered with.

use vstd::prelude::*;

use crate::text::owned;

verus! {

pub enum AppError {
    /// An unexpected failure; the message is logged, never shown.
    Internal(String),
    /// The request is invalid; the message is shown to the caller.
    BadRequest(String),
    /// The addressed resource does not exist.
    NotFound,
}

pub type AppResult<T> = Result<T, AppError>;

/// The HTTP status of each variant.
pub open spec fn status_of(e: AppError) -> u16 {
    match e {
        AppError::BadRequest(_) => 400,
        AppError::NotFound => 404,
        AppError::Internal(_) => 500,
    }
}

/// The message the caller sees: the request error's own text, a fixed text
/// for a missing resource, and never the internal error's text.
pub open spec fn public_message_of(e: AppError) -> Seq<char> {
    match e {
        AppError::BadRequest(m) => m@,
        AppError::NotFound => "resource not found"@,
        AppError::Internal(_) => "internal server error"@,
    }
}

/// The error's own text (its `Display`).
pub open spec fn message_of(e: AppError) -> Seq<char> {
    match e {
        AppError::BadRequest(m) => m@,
        AppError::NotFound => "resource not found"@,
        AppError::Internal(m) => m@,
    }
}

impl AppError {
    pub fn bad_request(message: &str) -> (res: AppError)
        ensures
            res matches AppError::BadRequest(m) && m@ == message@,
    {
        AppError::BadRequest(owned(message))
    }

    /// The status code and public message of the response for this error.
    pub fn status_and_message(&self) -> (res: (u16, String))
        ensures
            res.0 == status_of(*self),
            res.1@ == public_message_of(*self),
    {
        match self {
            AppError::BadRequest(msg) => (400, msg.clone()),
            AppError::NotFound => (404, owned("resource not found")),
            AppError::Internal(_) => (500, owned("internal server error")),
        }
    }

    /// The error's own text.
    pub fn message(&self) -> (res: String)
        ensures
            res@ == message_of(*self),
    {
        match self {
            AppError::BadRequest(msg) => msg.clone(),
            AppError::NotFound => owned("resource not found"),
            AppError::Internal(msg) => msg.clone(),
        }
    }
}

/// An internal error's text is never shown to the caller, and every error
/// is answered with a client or server error status.
pub proof fn law_internal_errors_are_not_disclosed(e: AppError)
    ensures
        e is Internal ==> public_message_of(e) == "internal server error"@,
        400 <= status_of(e) <= 599,
        e is Internal <==> status_of(e) == 500,
{
}

} // verus!
