use vstd::prelude::*;

verus! {

/// The three outcomes other than success that every operation can report.
#[derive(Debug, Clone, Copy, PartialEq, Eq, Structural)]
pub enum ApiError {
    /// The addressed resource does not exist.
    NotFound,
    /// The payload references another entity that does not exist.
    ValidationFailure,
    /// The persistence call itself failed.
    StorageFailure,
}

/// A failure reported by the storage layer, with no further detail.
#[derive(Debug, Clone, Copy, PartialEq, Eq, Structural)]
pub struct StorageError;

/// The HTTP status code of each error.
pub open spec fn status_of(e: ApiError) -> u16 {
    match e {
        ApiError::NotFound => 404,
        ApiError::ValidationFailure => 400,
        ApiError::StorageFailure => 500,
    }
}

impl ApiError {
    /// The HTTP status code that reports this error to a client.
    pub fn status_code(&self) -> (r: u16)
        ensures
            r == status_of(*self),
    {
        match self {
            ApiError::NotFound => 404,
            ApiError::ValidationFailure => 400,
            ApiError::StorageFailure => 500,
        }
    }
}

} // verus!
