//! The failures that the service reports to its callers.

use vstd::prelude::*;

verus! {

/// Why an operation was refused.
#[derive(Clone, Copy, Debug, PartialEq, Eq, Structural)]
pub enum ServiceError {
    /// No row matches the requested resident or location.
    NotFound,
    /// A row with the same primary key is already stored.
    Conflict,
    /// The input is malformed: a date that does not parse, a number out of
    /// range, a reference to a location that does not exist.
    Validation,
    /// The store cannot take the write.
    StoreUnavailable,
}

impl ServiceError {
    /// The HTTP status that stands for this failure.
    pub open spec fn spec_status(self) -> int {
        match self {
            ServiceError::NotFound => 404,
            ServiceError::Conflict => 409,
            ServiceError::Validation => 400,
            ServiceError::StoreUnavailable => 500,
        }
    }

    /// The HTTP status that stands for this failure.
    pub fn status(&self) -> (code: u16)
        ensures
            code as int == self.spec_status(),
    {
        match self {
            ServiceError::NotFound => 404,
            ServiceError::Conflict => 409,
            ServiceError::Validation => 400,
            ServiceError::StoreUnavailable => 500,
        }
    }
}

} // verus!
