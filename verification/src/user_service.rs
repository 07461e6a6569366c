//! The user service: lookups over the store, with absence surfaced as
//! `UserNotFound`.

use crate::errors::DomainError;
use crate::store::{lookup_active, lookup_id_active, UserStore};
use crate::user::User;
use vstd::prelude::*;

verus! {

/// Read-side use cases over the user store.
pub struct UserService {}

impl UserService {
    pub fn new() -> (s: Self) {
        UserService {  }
    }

    /// Get the active user with this id.
    pub fn get_by_id<S: UserStore>(&self, store: &S, id: u128) -> (r: Result<User, DomainError>)
        ensures
            (match r {
                Ok(u) => lookup_id_active(store.rows(), id) == Some(u@),
                Err(e) => match e {
                    DomainError::UserNotFound => lookup_id_active(store.rows(), id) is None,
                    DomainError::DatabaseError(_) => true,
                    _ => false,
                },
            }),
    {
        match store.find_by_id(id) {
            Ok(Some(u)) => Ok(u),
            Ok(None) => Err(DomainError::UserNotFound),
            Err(e) => Err(DomainError::DatabaseError(e)),
        }
    }

    /// Get the active user with this email.
    pub fn get_by_email<S: UserStore>(&self, store: &S, email: &str) -> (r: Result<
        User,
        DomainError,
    >)
        ensures
            (match r {
                Ok(u) => lookup_active(store.rows(), email@) == Some(u@),
                Err(e) => match e {
                    DomainError::UserNotFound => lookup_active(store.rows(), email@) is None,
                    DomainError::DatabaseError(_) => true,
                    _ => false,
                },
            }),
    {
        match store.find_by_email(email) {
            Ok(Some(u)) => Ok(u),
            Ok(None) => Err(DomainError::UserNotFound),
            Err(e) => Err(DomainError::DatabaseError(e)),
        }
    }
}

} // verus!
