//! The error taxonomy of the service, with its HTTP status mapping.

use vstd::prelude::*;

verus! {

/// Why a request was refused. Every fallible operation of the library
/// reports one of these; the HTTP layer maps each to a status code.
#[derive(Clone, Copy, Debug, PartialEq, Eq, Structural)]
pub enum ApiError {
    /// Malformed or out-of-range input (400).
    Validation,
    /// Missing, expired or invalid credentials (401).
    Auth,
    /// Authenticated but not permitted (403).
    Forbidden,
    /// A referenced entity is absent (404).
    NotFound,
    /// A uniqueness or state rule would be violated (409).
    Conflict,
    /// The store failed, e.g. its id space is exhausted (500).
    Store,
}

impl ApiError {
    /// The HTTP status code this error is reported with.
    pub fn status_code(self) -> (code: u16)
        ensures
            code == self.spec_status_code(),
    {
        match self {
            ApiError::Validation => 400,
            ApiError::Auth => 401,
            ApiError::Forbidden => 403,
            ApiError::NotFound => 404,
            ApiError::Conflict => 409,
            ApiError::Store => 500,
        }
    }

    pub open spec fn spec_status_code(self) -> u16 {
        match self {
            ApiError::Validation => 400,
            ApiError::Auth => 401,
            ApiError::Forbidden => 403,
            ApiError::NotFound => 404,
            ApiError::Conflict => 409,
            ApiError::Store => 500,
        }
    }
}

} // verus!
