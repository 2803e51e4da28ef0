//! What a refused request is answered.

use vstd::prelude::*;

verus! {

/// Which class of answer an error is.
#[derive(Clone, Copy, Debug, PartialEq, Eq, Structural)]
pub enum ApiErrorKind {
    /// The request itself is wrong.
    BadRequest,
    /// What the request names is not there.
    NotFound,
    /// The request could not be carried out.
    Internal,
}

/// The answer to a request that is refused or fails.
#[derive(Debug)]
pub struct ApiError {
    pub kind: ApiErrorKind,
    pub message: String,
}

impl ApiError {
    /// An answer that says what is wrong with the request.
    pub fn bad_request(message: &str) -> (r: Self)
        ensures
            r.kind == ApiErrorKind::BadRequest,
            r.message@ == message@,
    {
        ApiError { kind: ApiErrorKind::BadRequest, message: message.to_string() }
    }

    /// An answer that says what was not found.
    pub fn not_found(message: String) -> (r: Self)
        ensures
            r.kind == ApiErrorKind::NotFound,
            r.message == message,
    {
        ApiError { kind: ApiErrorKind::NotFound, message }
    }

    /// An answer that says what could not be done.
    pub fn internal(message: String) -> (r: Self)
        ensures
            r.kind == ApiErrorKind::Internal,
            r.message == message,
    {
        ApiError { kind: ApiErrorKind::Internal, message }
    }
}

} // verus!
