//! Error taxonomy surfaced to request handlers.

use vstd::prelude::*;

verus! {

/// Failure kinds the service reports to its callers. `NotFound` marks an
/// absent entity, `Unauthorized` a failed identity check, `BadRequest` a
/// rejected input, and `InternalServerError` a durable-medium failure.
#[derive(Debug)]
pub enum AppError {
    Unauthorized,
    NotFound,
    BadRequest(Vec<u8>),
    InternalServerError,
}

impl AppError {
    /// The HTTP status code this error maps to at the response boundary.
    pub open spec fn spec_status_code(&self) -> u16 {
        match self {
            AppError::Unauthorized => 401,
            AppError::NotFound => 404,
            AppError::BadRequest(_) => 400,
            AppError::InternalServerError => 500,
        }
    }

    /// Status code of the response built for this error.
    pub fn status_code(&self) -> (code: u16)
        ensures
            code == self.spec_status_code(),
    {
        match self {
            AppError::Unauthorized => 401,
            AppError::NotFound => 404,
            AppError::BadRequest(_) => 400,
            AppError::InternalServerError => 500,
        }
    }
}

} // verus!
