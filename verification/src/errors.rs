//! The error taxonomy of the coordination engine.

use vstd::prelude::*;

verus! {

/// Errors surfaced by the queue and flow-coordination operations.
///
/// Cancellation and resume operations prefer idempotent success messages over
/// errors when the requested end state is already achieved, so "already done"
/// outcomes are not represented here; they are success values.
#[derive(Debug, PartialEq, Eq)]
pub enum ApiError {
    /// A referenced job, flow or resume target is absent.
    NotFound(String),
    /// Malformed signature inputs, missing parameters, or an invalid state
    /// for the requested transition.
    BadRequest(String),
    /// Anonymous access to an operation that requires an authenticated user.
    NotAuthorized(String),
    /// An authenticated user that the approval policy rejects.
    PermissionDenied(String),
    /// A bounded wait was exceeded.
    Timeout(String),
    /// A duplicate attempt at a one-shot operation.
    Conflict(String),
    /// A store or serialization failure.
    Internal(String),
}

impl ApiError {
    /// The human-readable message carried by the error.
    pub fn message(&self) -> (r: &String)
        ensures
            r@ == self.spec_message(),
    {
        match self {
            ApiError::NotFound(m) => m,
            ApiError::BadRequest(m) => m,
            ApiError::NotAuthorized(m) => m,
            ApiError::PermissionDenied(m) => m,
            ApiError::Timeout(m) => m,
            ApiError::Conflict(m) => m,
            ApiError::Internal(m) => m,
        }
    }

    /// The message, as a sequence of characters.
    pub open spec fn spec_message(&self) -> Seq<char> {
        match self {
            ApiError::NotFound(m) => m@,
            ApiError::BadRequest(m) => m@,
            ApiError::NotAuthorized(m) => m@,
            ApiError::PermissionDenied(m) => m@,
            ApiError::Timeout(m) => m@,
            ApiError::Conflict(m) => m@,
            ApiError::Internal(m) => m@,
        }
    }
}

} // verus!
