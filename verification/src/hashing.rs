//! The credential hasher: one-way password hashing and verification, done by
//! the argon2 crate behind trusted wrappers. A hash embeds its own algorithm
//! parameters and a fresh random salt, so hashing is not a function of the
//! password alone; what verification returns for a given hash and password is,
//! and `argon_verifies` names it.

use vstd::prelude::*;
use argon2::{Argon2, PasswordHasher, PasswordVerifier};
use crate::errors::ApiError;

verus! {

/// Whether argon2 verification accepts this password for this PHC hash
/// string. Deterministic: verification re-derives the digest from the salt
/// and parameters embedded in the hash string and compares.
pub uninterp spec fn argon_verifies(hash: Seq<char>, password: Seq<char>) -> bool;

/// Whether this string is a structurally sound PHC hash that this verifier
/// processes without error (it parses, names a supported algorithm, carries
/// usable parameters): verification of such a hash always ends in accept or
/// password-mismatch, never another error. Whether a hash processes is a
/// property of the hash string alone: password-dependent failures are
/// reported as a mismatch.
pub uninterp spec fn is_argon_hash(hash: Seq<char>) -> bool;

/// Derives a salted PHC hash string for the password.
///
/// Relies on argon2's `PasswordHasher::hash_password`: on success the result
/// renders as a PHC string that parses back losslessly and that
/// `verify_password` accepts together with the very password it was derived
/// from, since verification recomputes the digest from the embedded salt and
/// parameters. It fails only on internal RNG or parameter failure, never on
/// the password's content.
#[verifier::external_body]
pub fn hash_password(password: &str) -> (r: Result<String, ApiError>)
    ensures
        r matches Ok(h) ==> is_argon_hash(h@) && argon_verifies(h@, password@),
        r matches Err(e) ==> e is PasswordHash,
{
    match Argon2::default().hash_password(password.as_bytes()) {
        Ok(h) => Ok(h.to_string()),
        Err(e) => Err(ApiError::PasswordHash(e.to_string())),
    }
}

/// Recomputes and compares the password against a stored PHC hash string.
///
/// Relies on argon2's `PasswordVerifier::<str>::verify_password`: the outcome
/// is a deterministic function of the hash string and the password; a
/// mismatch — an over-long password included — is reported as
/// `Error::PasswordInvalid` (mapped to `Ok(false)`), so exactly the hashes
/// the verifier cannot process yield an error: corruption is an error,
/// distinguished from a legitimate mismatch.
#[verifier::external_body]
pub fn verify_password(hash: &str, password: &str) -> (r: Result<bool, ApiError>)
    ensures
        r matches Ok(b) ==> b == argon_verifies(hash@, password@),
        r is Err <==> !is_argon_hash(hash@),
        r matches Err(e) ==> e is PasswordHash,
{
    let verifier = Argon2::default();
    match PasswordVerifier::<str>::verify_password(&verifier, password.as_bytes(), hash) {
        Ok(()) => Ok(true),
        Err(argon2::password_hash::Error::PasswordInvalid) => Ok(false),
        Err(e) => Err(ApiError::PasswordHash(e.to_string())),
    }
}

/// Hashing a password and verifying the result against the same password
/// always succeeds: the round-trip law of the credential hasher.
pub fn hash_then_verify(password: &str) -> (r: Result<bool, ApiError>)
    ensures
        r matches Ok(b) ==> b,
        r matches Err(e) ==> e is PasswordHash,
{
    match hash_password(password) {
        Ok(h) => verify_password(h.as_str(), password),
        Err(e) => Err(e),
    }
}

} // verus!
