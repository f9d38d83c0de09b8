use vstd::prelude::*;

verus! {

/// The failure taxonomy of the core: every operation that can fail returns one
/// of these categories; internal detail (storage, cryptography) is never
/// carried outward.
#[derive(Clone, Copy, Debug, PartialEq, Eq, Structural)]
pub enum ApiError {
    /// Malformed or oversized input, rejected before touching storage.
    ValidationFailure,
    /// Uniqueness violation on registration.
    Conflict,
    /// Missing, invalid, expired or malformed credential.
    Unauthenticated,
    /// Lookup miss.
    NotFound,
    /// Transaction or connectivity failure of the backing store.
    StorageFailure,
    /// Hashing or signing subsystem failure.
    InternalFailure,
}

/// The uniform outward message for each failure category. Authentication
/// failures share one message whatever their cause, so that callers cannot
/// probe which identities exist.
pub open spec fn spec_message(e: ApiError) -> Seq<char> {
    match e {
        ApiError::ValidationFailure => "invalid input"@,
        ApiError::Conflict => "already in use"@,
        ApiError::Unauthenticated => "invalid credentials"@,
        ApiError::NotFound => "not found"@,
        ApiError::StorageFailure => "server error"@,
        ApiError::InternalFailure => "server error"@,
    }
}

impl ApiError {
    /// The outward message: storage and cryptographic failures collapse to a
    /// generic server error, and all authentication failures are uniform.
    pub fn message(&self) -> (r: String)
        ensures
            r@ == spec_message(*self),
    {
        match self {
            ApiError::ValidationFailure => String::from_str("invalid input"),
            ApiError::Conflict => String::from_str("already in use"),
            ApiError::Unauthenticated => String::from_str("invalid credentials"),
            ApiError::NotFound => String::from_str("not found"),
            ApiError::StorageFailure => String::from_str("server error"),
            ApiError::InternalFailure => String::from_str("server error"),
        }
    }
}

} // verus!
