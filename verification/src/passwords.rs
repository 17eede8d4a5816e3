//! Password hashing, delegated to the argon2 crate.
//!
//! The library never stores a password: it stores the PHC-formatted digest
//! that argon2 produces, and checks a login attempt against that digest.

use vstd::prelude::*;

use argon2::password_hash::rand_core::OsRng;
use argon2::password_hash::{PasswordHash, SaltString};
use argon2::{Argon2, PasswordHasher, PasswordVerifier};

verus! {

/// Whether argon2's verification accepts `password` against `digest`:
/// it re-computes the digest with the salt and parameters stored in
/// `digest` and compares, a function of the two arguments alone.
pub uninterp spec fn digest_matches(password: Seq<char>, digest: Seq<char>) -> bool;

/// Relies on argon2's `PasswordHasher::hash_password` with a fresh random
/// salt. Whatever salt is drawn, verifying the produced digest against the
/// same password succeeds, because verification re-computes the digest with
/// the salt and parameters recorded inside it. The bound on the password's
/// length keeps its byte count (at most four per character) inside
/// argon2's input cap, so the call cannot fail on length. The digest is a
/// PHC string, which always opens with `'$'`.
#[verifier::external_body]
pub(crate) fn hash_password(password: &str) -> (r: String)
    requires
        password@.len() <= 0x3FFFFFFF,
    ensures
        digest_matches(password@, r@),
        r@.len() > 0 && r@[0] == '$',
{
    let salt = SaltString::generate(&mut OsRng);
    Argon2::default().hash_password(password.as_bytes(), &salt).unwrap().to_string()
}

/// Relies on argon2's `PasswordVerifier::verify_password`; a digest that
/// does not parse as a PHC string matches no password.
#[verifier::external_body]
pub(crate) fn verify_password(password: &str, digest: &str) -> (r: bool)
    ensures
        r == digest_matches(password@, digest@),
{
    match PasswordHash::new(digest) {
        Ok(parsed) => Argon2::default().verify_password(password.as_bytes(), &parsed).is_ok(),
        Err(_) => false,
    }
}

} // verus!
