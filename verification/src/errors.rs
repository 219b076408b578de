//! The error taxonomy of the service, and its mapping to HTTP-style status
//! codes for callers.

use vstd::prelude::*;

verus! {

/// Why an API operation was refused.
#[derive(Clone, Copy, Debug, PartialEq, Eq, Structural)]
pub enum ApiError {
    /// The presented credential does not match the configured secret.
    Unauthorized,
    /// The submitted link is not an absolute URL.
    InvalidUrl,
    /// The persistent store failed to read or write.
    PersistenceFailure,
    /// A webhook destination refused or failed to receive the digest.
    DeliveryFailure,
}

impl ApiError {
    /// The status code reported to an external caller.
    pub fn status_code(&self) -> (r: u16)
        ensures
            *self == ApiError::Unauthorized ==> r == 401,
            *self == ApiError::InvalidUrl ==> r == 400,
            *self == ApiError::PersistenceFailure ==> r == 500,
            *self == ApiError::DeliveryFailure ==> r == 500,
    {
        match self {
            ApiError::Unauthorized => 401,
            ApiError::InvalidUrl => 400,
            ApiError::PersistenceFailure => 500,
            ApiError::DeliveryFailure => 500,
        }
    }
}

} // verus!
