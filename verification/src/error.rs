//! The error a request handler answers with: an HTTP class and a message.

use vstd::prelude::*;

verus! {

/// A refused request, by HTTP class, with the message shown to the caller.
#[derive(Debug, Clone, PartialEq, Eq)]
pub enum ApiError {
    BadRequest(String),
    Unauthorized(String),
    Forbidden(String),
    NotFound(String),
    Conflict(String),
    Gone(String),
    Internal(String),
}

/// The HTTP status code of each class.
pub open spec fn status_of(e: ApiError) -> u16 {
    match e {
        ApiError::BadRequest(_) => 400,
        ApiError::Unauthorized(_) => 401,
        ApiError::Forbidden(_) => 403,
        ApiError::NotFound(_) => 404,
        ApiError::Conflict(_) => 409,
        ApiError::Gone(_) => 410,
        ApiError::Internal(_) => 500,
    }
}

/// The message of an error.
pub open spec fn message_of(e: ApiError) -> Seq<char> {
    match e {
        ApiError::BadRequest(m) => m@,
        ApiError::Unauthorized(m) => m@,
        ApiError::Forbidden(m) => m@,
        ApiError::NotFound(m) => m@,
        ApiError::Conflict(m) => m@,
        ApiError::Gone(m) => m@,
        ApiError::Internal(m) => m@,
    }
}

impl ApiError {
    /// The HTTP status code this error is answered with.
    pub fn status(&self) -> (code: u16)
        ensures
            code == status_of(*self),
    {
        match self {
            ApiError::BadRequest(_) => 400,
            ApiError::Unauthorized(_) => 401,
            ApiError::Forbidden(_) => 403,
            ApiError::NotFound(_) => 404,
            ApiError::Conflict(_) => 409,
            ApiError::Gone(_) => 410,
            ApiError::Internal(_) => 500,
        }
    }

    /// The message shown to the caller.
    pub fn message(&self) -> (m: &String)
        ensures
            m@ == message_of(*self),
    {
        match self {
            ApiError::BadRequest(m) => m,
            ApiError::Unauthorized(m) => m,
            ApiError::Forbidden(m) => m,
            ApiError::NotFound(m) => m,
            ApiError::Conflict(m) => m,
            ApiError::Gone(m) => m,
            ApiError::Internal(m) => m,
        }
    }
}

/// Whether `r` is the error of class `code` with message `msg`.
pub open spec fn is_error<T>(r: Result<T, ApiError>, code: u16, msg: Seq<char>) -> bool {
    r matches Err(e) && status_of(e) == code && message_of(e) == msg
}

} // verus!
