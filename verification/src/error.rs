//! Failure taxonomy of the back-office engine.
//!
//! Every operation on the store reports one of three outcomes besides
//! success: a referenced row is absent (`NotFound`), the request itself is
//! ill-formed (`Validation`, carrying a human-readable reason), or the
//! storage layer rejected the write (`Storage`, kept opaque to clients).

use vstd::prelude::*;

verus! {

#[derive(Debug)]
pub enum AppError {
    NotFound,
    Validation(String),
    Storage,
}

impl AppError {
    /// The client-visible message for this error, as the HTTP layer reports it.
    pub fn message(&self) -> (r: String)
        ensures
            match self {
                AppError::NotFound => r@ == "Resource not found"@,
                AppError::Validation(m) => r@ == m@,
                AppError::Storage => r@ == "Internal server error"@,
            },
    {
        match self {
            AppError::NotFound => "Resource not found".to_owned(),
            AppError::Validation(m) => m.clone(),
            AppError::Storage => "Internal server error".to_owned(),
        }
    }
}

/// The body sent to a client when a request fails.
pub struct ErrorResponse {
    pub error: String,
}

impl ErrorResponse {
    pub fn new(error: String) -> (r: ErrorResponse)
        ensures
            r.error == error,
    {
        ErrorResponse { error }
    }
}

} // verus!
