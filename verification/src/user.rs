//! The user entity, as this core reads and writes it through the store
//! interface. Timestamps are seconds of epoch time; the identity is the
//! 128 bits of a UUID.

use vstd::prelude::*;

verus! {

/// A user row.
#[derive(Debug)]
pub struct User {
    pub id: u128,
    pub email: String,
    pub password_hash: String,
    pub name: String,
    pub is_active: bool,
    pub created_at: i64,
    pub updated_at: i64,
}

/// The mathematical view of a user row.
pub ghost struct UserView {
    pub id: u128,
    pub email: Seq<char>,
    pub password_hash: Seq<char>,
    pub name: Seq<char>,
    pub is_active: bool,
    pub created_at: i64,
    pub updated_at: i64,
}

impl View for User {
    type V = UserView;

    open spec fn view(&self) -> UserView {
        UserView {
            id: self.id,
            email: self.email@,
            password_hash: self.password_hash@,
            name: self.name@,
            is_active: self.is_active,
            created_at: self.created_at,
            updated_at: self.updated_at,
        }
    }
}

impl Clone for User {
    fn clone(&self) -> (r: Self)
        ensures
            r@ == self@,
    {
        User {
            id: self.id,
            email: self.email.clone(),
            password_hash: self.password_hash.clone(),
            name: self.name.clone(),
            is_active: self.is_active,
            created_at: self.created_at,
            updated_at: self.updated_at,
        }
    }
}

/// Relies on uuid's `Uuid::new_v4`: a freshly drawn random identifier.
/// Of a random value nothing further is promised.
#[verifier::external_body]
fn fresh_user_id() -> (r: u128) {
    uuid::Uuid::new_v4().as_u128()
}

impl User {
    /// A new active user for insertion, with a fresh random identity and
    /// both timestamps at `now`.
    pub fn new(email: String, password_hash: String, name: String, now: i64) -> (u: User)
        ensures
            u@.email == email@,
            u@.password_hash == password_hash@,
            u@.name == name@,
            u@.is_active == true,
            u@.created_at == now,
            u@.updated_at == now,
    {
        User {
            id: fresh_user_id(),
            email,
            password_hash,
            name,
            is_active: true,
            created_at: now,
            updated_at: now,
        }
    }
}

} // verus!
