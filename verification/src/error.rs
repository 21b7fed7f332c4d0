//! The error kinds the service answers with.
use vstd::prelude::*;

verus! {

/// An error answer of the service; the `String` carries the message shown to the client.
#[derive(Clone, Debug, PartialEq, Eq)]
pub enum AppError {
    Validation(String),
    NotFound(String),
    Conflict(String),
    Forbidden,
    Unauthorized,
    Internal(String),
}

/// Result of a service operation.
pub type AppResult<T> = Result<T, AppError>;

/// A validation error whose message holds exactly the characters of `msg`.
pub open spec fn is_validation(e: AppError, msg: Seq<char>) -> bool {
    e matches AppError::Validation(m) && m@ == msg
}

/// A not-found error whose message holds exactly the characters of `msg`.
pub open spec fn is_not_found(e: AppError, msg: Seq<char>) -> bool {
    e matches AppError::NotFound(m) && m@ == msg
}

} // verus!
