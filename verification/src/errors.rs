//! Domain-specific errors.

use crate::store::StoreError;
use vstd::prelude::*;

verus! {

/// How the credential flows fail. `InvalidCredentials` covers both an
/// unknown email and a wrong password, deliberately indistinguishably.
#[derive(Clone, Copy, Debug, PartialEq, Eq, Structural)]
pub enum DomainError {
    /// User not found.
    UserNotFound,
    /// User already exists with this email.
    UserAlreadyExists,
    /// Invalid credentials.
    InvalidCredentials,
    /// Password hashing failed.
    PasswordHashingFailed,
    /// Token generation failed.
    TokenGenerationFailed,
    /// The store failed.
    DatabaseError(StoreError),
}

/// The message of each error. One shared message for both halves of a
/// credential failure: which half failed is never disclosed.
pub open spec fn spec_message(e: DomainError) -> Seq<char> {
    match e {
        DomainError::UserNotFound => "User not found"@,
        DomainError::UserAlreadyExists => "User already exists with this email"@,
        DomainError::InvalidCredentials => "Invalid credentials"@,
        DomainError::PasswordHashingFailed => "Password hashing failed"@,
        DomainError::TokenGenerationFailed => "Token generation failed"@,
        DomainError::DatabaseError(_) => "Database error"@,
    }
}

impl DomainError {
    /// The human-readable message.
    pub fn message(&self) -> (r: String)
        ensures
            r@ == spec_message(*self),
    {
        match self {
            DomainError::UserNotFound => "User not found".to_owned(),
            DomainError::UserAlreadyExists => "User already exists with this email".to_owned(),
            DomainError::InvalidCredentials => "Invalid credentials".to_owned(),
            DomainError::PasswordHashingFailed => "Password hashing failed".to_owned(),
            DomainError::TokenGenerationFailed => "Token generation failed".to_owned(),
            DomainError::DatabaseError(_) => "Database error".to_owned(),
        }
    }
}

} // verus!
