//! The status and body with which a handler answers.

use vstd::prelude::*;

verus! {

/// The status of an answer.
#[derive(Debug, Clone, Copy, PartialEq, Eq, Structural)]
pub enum Status {
    Success,
    BadRequest,
    InternalServerError,
}

/// The HTTP status code of `status`.
pub open spec fn status_code(status: Status) -> u16 {
    match status {
        Status::Success => 200,
        Status::BadRequest => 400,
        Status::InternalServerError => 500,
    }
}

impl Status {
    /// The HTTP status code.
    pub fn code(&self) -> (code: u16)
        ensures
            code == status_code(*self),
    {
        match self {
            Status::Success => 200,
            Status::BadRequest => 400,
            Status::InternalServerError => 500,
        }
    }
}

/// The answer to a request that was served: status 200 and the body `OK`.
pub fn ok_response() -> (response: (Status, String))
    ensures
        response.0 == Status::Success,
        response.1@ == "OK"@,
{
    (Status::Success, "OK".to_owned())
}

/// The answer to a request that failed in the store: status 500 and the
/// cause as the body.
pub fn storage_failure(cause: String) -> (response: (Status, String))
    ensures
        response.0 == Status::InternalServerError,
        response.1@ == cause@,
{
    (Status::InternalServerError, cause)
}

} // verus!
