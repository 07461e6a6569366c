//! The credential service: the register and login flows, orchestrating
//! uniqueness check, hashing, persistence and token issuance over any
//! store that honours the `UserStore` contract.

use crate::claims::Claims;
use crate::errors::DomainError;
use crate::jwt::{create_token, spec_token};
use crate::password::{digest_matches, digest_wf, hash, spec_verify, verify, PasswordError};
use crate::store::{email_taken, lookup_active, StoreError, UserStore};
use crate::user::{User, UserView};
use vstd::prelude::*;

verus! {

/// The register/login use cases, configured with the signing secret and
/// the token lifetime.
pub struct AuthService {
    pub jwt_secret: String,
    pub jwt_expiration_hours: i64,
}

impl AuthService {
    pub fn new(jwt_secret: String, jwt_expiration_hours: i64) -> (s: Self)
        ensures
            s.jwt_secret@ == jwt_secret@,
            s.jwt_expiration_hours == jwt_expiration_hours,
    {
        AuthService { jwt_secret, jwt_expiration_hours }
    }

    /// The token this service issues to subject `sub` at time `now`.
    pub open spec fn issued_token(&self, sub: u128, now: i64) -> Seq<char> {
        spec_token(
            Claims { sub, iat: now, exp: (now + self.jwt_expiration_hours * 3600) as i64 },
            self.jwt_secret@,
        )
    }

    /// A usable clock reading: nonnegative epoch seconds from which the
    /// configured lifetime does not overflow.
    pub open spec fn clock_ok(&self, now: i64) -> bool {
        0 <= now && 1 <= self.jwt_expiration_hours && now + self.jwt_expiration_hours * 3600
            <= i64::MAX
    }

    /// Register a new user: reject a taken email without touching the
    /// store, otherwise hash, persist an active row stamped `now`, and
    /// issue a token for the fresh identity.
    pub fn register<S: UserStore>(
        &self,
        store: &mut S,
        email: &str,
        password: &str,
        name: &str,
        now: i64,
    ) -> (r: Result<String, DomainError>)
        requires
            self.clock_ok(now),
        ensures
            (match r {
                Ok(t) => exists|u: UserView|
                    #![auto]
                    !email_taken(old(store).rows(), email@) && final(store).rows() == old(
                        store,
                    ).rows().push(u) && u.email == email@ && u.name == name@ && u.is_active == true
                        && u.created_at == now && u.updated_at == now && digest_wf(u.password_hash)
                        && digest_matches(password@, u.password_hash) && t@ == self.issued_token(
                        u.id,
                        now,
                    ),
                Err(e) => match e {
                    DomainError::UserAlreadyExists => final(store).rows() == old(store).rows() && (
                    lookup_active(old(store).rows(), email@) is Some || email_taken(
                        old(store).rows(),
                        email@,
                    )),
                    DomainError::PasswordHashingFailed => final(store).rows() == old(store).rows()
                        && lookup_active(old(store).rows(), email@) is None,
                    DomainError::DatabaseError(_) => final(store).rows() == old(store).rows(),
                    _ => false,
                },
            }),
            lookup_active(old(store).rows(), email@) is Some ==> final(store).rows() == old(
                store,
            ).rows() && !(r is Ok),
    {
        match store.find_by_email(email) {
            Err(e) => {
                return Err(DomainError::DatabaseError(e));
            },
            Ok(Some(_)) => {
                return Err(DomainError::UserAlreadyExists);
            },
            Ok(None) => {},
        }
        let digest = match hash(password) {
            Ok(d) => d,
            Err(_) => {
                return Err(DomainError::PasswordHashingFailed);
            },
        };
        let user = User::new(email.to_owned(), digest, name.to_owned(), now);
        match store.insert(&user) {
            Ok(_) => {},
            Err(StoreError::Conflict) => {
                return Err(DomainError::UserAlreadyExists);
            },
            Err(StoreError::Failure) => {
                return Err(DomainError::DatabaseError(StoreError::Failure));
            },
        }
        Ok(create_token(user.id, self.jwt_secret.as_str(), self.jwt_expiration_hours, now).unwrap())
    }

    /// Log in: an unknown email and a wrong password fail with one and
    /// the same error; a correct pair yields a token for the stored
    /// user's identity.
    pub fn login<S: UserStore>(&self, store: &S, email: &str, password: &str, now: i64) -> (r:
        Result<String, DomainError>)
        requires
            self.clock_ok(now),
        ensures
            (match r {
                Ok(t) => lookup_active(store.rows(), email@) matches Some(u) && spec_verify(
                    password@,
                    u.password_hash,
                ) == Ok::<bool, PasswordError>(true) && t@ == self.issued_token(u.id, now),
                Err(e) => match e {
                    DomainError::InvalidCredentials => lookup_active(store.rows(), email@) is None
                        || (lookup_active(store.rows(), email@) matches Some(u) && spec_verify(
                        password@,
                        u.password_hash,
                    ) != Ok::<bool, PasswordError>(true)),
                    DomainError::DatabaseError(_) => true,
                    _ => false,
                },
            }),
    {
        let found = match store.find_by_email(email) {
            Ok(f) => f,
            Err(e) => {
                return Err(DomainError::DatabaseError(e));
            },
        };
        let user = match found {
            Some(u) => u,
            None => {
                return Err(DomainError::InvalidCredentials);
            },
        };
        let ok = match verify(password, user.password_hash.as_str()) {
            Ok(b) => b,
            Err(_) => {
                return Err(DomainError::InvalidCredentials);
            },
        };
        if !ok {
            return Err(DomainError::InvalidCredentials);
        }
        Ok(create_token(user.id, self.jwt_secret.as_str(), self.jwt_expiration_hours, now).unwrap())
    }
}

} // verus!
