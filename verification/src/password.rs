//! Password hashing and verification: one-way salted digests in PHC string
//! form, with verification as the only permitted comparison. The memory-hard
//! derivation itself is trusted to the argon2 crate; everything around it —
//! the error split and the hash/verify relation — is stated and verified.

use argon2::password_hash::rand_core::OsRng;
use argon2::password_hash::{PasswordHash, PasswordHasher, PasswordVerifier, SaltString};
use argon2::Argon2;
use vstd::prelude::*;

verus! {

/// How password handling fails: the hashing subsystem itself, or a stored
/// digest that is not in digest form at all (distinct from a mismatch,
/// which is a plain `false`).
#[derive(Clone, Copy, Debug, PartialEq, Eq, Structural)]
pub enum PasswordError {
    /// Failed to hash password.
    HashingFailed,
    /// Invalid password hash format.
    InvalidHash,
}

/// Whether a stored string parses as a self-describing password digest:
/// the outcome of `PasswordHash::new`, a fixed function of the text.
pub uninterp spec fn digest_wf(d: Seq<char>) -> bool;

/// Whether a password re-derives to the digest, using the algorithm, salt
/// and cost parameters embedded in the digest text: the outcome of
/// argon2's `verify_password`, a fixed function of password and digest.
pub uninterp spec fn digest_matches(p: Seq<char>, d: Seq<char>) -> bool;

/// What verification returns for any password and stored digest.
pub open spec fn spec_verify(p: Seq<char>, d: Seq<char>) -> Result<bool, PasswordError> {
    if digest_wf(d) {
        Ok(digest_matches(p, d))
    } else {
        Err(PasswordError::InvalidHash)
    }
}

/// Relies on argon2's `hash_password` over a fresh `OsRng` salt: on
/// success the digest is a well-formed PHC string that verifies the same
/// password. The salt is random, so nothing else about the text is pinned:
/// two calls on one password may (and almost surely do) differ.
#[verifier::external_body]
fn argon2_hash(password: &str) -> (r: Option<String>)
    ensures
        r matches Some(d) ==> digest_wf(d@) && digest_matches(password@, d@),
{
    let salt = SaltString::generate(&mut OsRng);
    match Argon2::default().hash_password(password.as_bytes(), &salt) {
        Ok(h) => Some(h.to_string()),
        Err(_) => None,
    }
}

/// Relies on `PasswordHash::new` (the digest parses or it does not) and
/// argon2's `verify_password` (constant-time comparison of the
/// re-derivation); both are fixed functions of their text inputs.
#[verifier::external_body]
fn argon2_verify(password: &str, digest: &str) -> (r: Result<bool, PasswordError>)
    ensures
        r == spec_verify(password@, digest@),
{
    let parsed = match PasswordHash::new(digest) {
        Ok(p) => p,
        Err(_) => {
            return Err(PasswordError::InvalidHash);
        },
    };
    Ok(Argon2::default().verify_password(password.as_bytes(), &parsed).is_ok())
}

/// Hash a password into a fresh salted digest. Any text is hashable; the
/// only failure is the hashing subsystem itself.
pub fn hash(password: &str) -> (r: Result<String, PasswordError>)
    ensures
        (match r {
            Ok(d) => digest_wf(d@) && digest_matches(password@, d@),
            Err(e) => e == PasswordError::HashingFailed,
        }),
{
    match argon2_hash(password) {
        Some(d) => Ok(d),
        None => Err(PasswordError::HashingFailed),
    }
}

/// Verify a password against a stored digest: `Ok(false)` on a mismatch,
/// an error only when the digest text is not a digest at all.
pub fn verify(password: &str, hash: &str) -> (r: Result<bool, PasswordError>)
    ensures
        r == spec_verify(password@, hash@),
{
    argon2_verify(password, hash)
}

/// A digest freshly derived from a password verifies that password: for
/// all passwords `p`, verifying `p` against any digest that `hash(p)`
/// returned yields `Ok(true)`.
pub proof fn lemma_fresh_digest_verifies(p: Seq<char>, d: Seq<char>)
    requires
        digest_wf(d),
        digest_matches(p, d),
    ensures
        spec_verify(p, d) == Ok::<bool, PasswordError>(true),
{
}

/// Hashing the same password twice gives digests that both verify it,
/// whatever their (salted, almost surely different) texts are.
pub proof fn lemma_rehash_both_verify(p: Seq<char>, d1: Seq<char>, d2: Seq<char>)
    requires
        digest_wf(d1),
        digest_matches(p, d1),
        digest_wf(d2),
        digest_matches(p, d2),
    ensures
        spec_verify(p, d1) == Ok::<bool, PasswordError>(true),
        spec_verify(p, d2) == Ok::<bool, PasswordError>(true),
{
}

} // verus!
