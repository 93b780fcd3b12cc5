//! The credential hasher.
//!
//! `hash` produces a self-describing digest — the PHC string carries the
//! algorithm's parameters and a salt drawn fresh from the operating system on
//! every call — and `verify` recomputes with the parameters embedded in the
//! digest and compares in constant time. A malformed digest verifies as
//! false; it is a negative result, never an error. A failure of the hashing
//! primitive itself is an infrastructure failure and surfaces as a server
//! error, never as a validation message.

use argon2::PasswordHasher;
use argon2::PasswordVerifier;
use vstd::prelude::*;

use crate::errors::AuthError;

verus! {

/// Whether `digest` verifies against `plaintext` under the password-hash
/// scheme: a function of the two arguments alone.
pub uninterp spec fn digest_matches(plaintext: Seq<u8>, digest: Seq<char>) -> bool;

/// Relies on `argon2::Argon2::hash_password` with a salt from
/// `password_hash::SaltString::generate` over the operating system's
/// randomness: on success the returned PHC string verifies against the
/// plaintext that produced it (the salt makes the digest itself
/// unpredictable, so no more is stated of it).
#[verifier::external_body]
fn argon2_hash(plaintext: &[u8]) -> (r: Option<String>)
    ensures
        r matches Some(d) ==> digest_matches(plaintext@, d@),
{
    let salt = argon2::password_hash::SaltString::generate(&mut rand_core::OsRng);
    match argon2::Argon2::default().hash_password(plaintext, &salt) {
        Ok(h) => Some(h.to_string()),
        Err(_) => None,
    }
}

/// Relies on `argon2::Argon2::verify_password` and
/// `password_hash::PasswordHash::new`: true exactly when the digest parses
/// and the hash recomputed under its own parameters matches, a deterministic
/// function of plaintext and digest; the comparison is constant-time. A
/// digest that does not parse verifies as false.
#[verifier::external_body]
fn argon2_verify(plaintext: &[u8], digest: &str) -> (r: bool)
    ensures
        r == digest_matches(plaintext@, digest@),
{
    match argon2::password_hash::PasswordHash::new(digest) {
        Ok(parsed) => argon2::Argon2::default().verify_password(plaintext, &parsed).is_ok(),
        Err(_) => false,
    }
}

/// One-way hash of a plaintext password. On success the digest verifies
/// against the plaintext; a failure of the primitive is a server error.
pub fn hash(plaintext: &[u8]) -> (r: Result<String, AuthError>)
    ensures
        r matches Ok(d) ==> digest_matches(plaintext@, d@),
        r matches Err(e) ==> e == AuthError::Server,
{
    match argon2_hash(plaintext) {
        Some(d) => Ok(d),
        None => Err(AuthError::Server),
    }
}

/// Whether `plaintext` matches `digest`. False for any mismatch, a malformed
/// digest included: a negative comparison is a result, not an error.
pub fn verify(plaintext: &[u8], digest: &str) -> (r: bool)
    ensures
        r == digest_matches(plaintext@, digest@),
{
    argon2_verify(plaintext, digest)
}

} // verus!
