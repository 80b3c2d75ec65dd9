//! Credential hashing and random secret generation.
//!
//! The memory-hard hashing primitive is provided by the `argon2` crate and
//! the secure random source by `rand`; both are reached only through the
//! trusted wrappers in this module. Everything layered on top is verified.

use vstd::prelude::*;

use argon2::password_hash::SaltString;
use argon2::{Argon2, PasswordHash, PasswordHasher, PasswordVerifier};
use rand::distributions::{Alphanumeric, DistString};
use rand::rngs::StdRng;

verus! {

/// The secure random number generator used for issuing credentials.
#[verifier::external_type_specification]
#[verifier::external_body]
pub struct ExStdRng(StdRng);

/// Whether `encoded` is a well-formed encoded password hash, that is,
/// whether `argon2::PasswordHash::new` accepts it. The encoding is
/// self-describing: algorithm, version, parameters and salt are all
/// embedded in the string.
pub uninterp spec fn hash_wf(encoded: Seq<char>) -> bool;

/// Whether `secret` verifies against the well-formed encoded hash
/// `encoded`, that is, whether recomputing the memory-hard hash of
/// `secret` with the parameters and salt embedded in `encoded` yields
/// the digest embedded in `encoded`. Deterministic in its arguments.
pub uninterp spec fn hash_matches(secret: Seq<char>, encoded: Seq<char>) -> bool;

/// Failure modes of hash verification that are not a legitimate mismatch.
#[derive(Debug, PartialEq, Eq)]
pub enum HashError {
    /// The stored value is not a well-formed encoded hash; stored-data
    /// corruption rather than a user error.
    InvalidHashEncoding,
}

/// Relies on `argon2::PasswordHash::new` to parse the self-describing
/// encoded hash and on `PasswordHash::verify_password`, which recomputes
/// the hash of `password` under the embedded parameters and salt and
/// compares it in constant time against the embedded digest.
#[verifier::external_body]
fn argon2_verify(password: &str, hash: &str) -> (r: Result<bool, HashError>)
    ensures
        r == (if hash_wf(hash@) {
            Ok::<bool, HashError>(hash_matches(password@, hash@))
        } else {
            Err::<bool, HashError>(HashError::InvalidHashEncoding)
        }),
{
    match PasswordHash::new(hash) {
        Err(_) => Err(HashError::InvalidHashEncoding),
        Ok(parsed) => {
            let algs: &[&dyn PasswordVerifier] = &[&Argon2::default()];
            Ok(parsed.verify_password(algs, password).is_ok())
        },
    }
}

/// Relies on `argon2::Argon2::hash_password` with a salt freshly drawn by
/// `SaltString::generate`: the encoded result embeds the salt and
/// parameters, so verifying the same secret against it succeeds.
/// With the default parameters and a freshly generated salt the hashing
/// call does not fail.
#[verifier::external_body]
fn argon2_hash_with_fresh_salt(secret: &str, rng: &mut StdRng) -> (r: String)
    ensures
        hash_wf(r@),
        hash_matches(secret@, r@),
{
    let salt = SaltString::generate(&mut *rng);
    Argon2::default().hash_password(secret.as_bytes(), &salt).unwrap().to_string()
}

/// A character drawn by the alphanumeric sampler: an ASCII digit or letter.
pub open spec fn is_alnum_char(c: char) -> bool {
    ('0' <= c && c <= '9') || ('a' <= c && c <= 'z') || ('A' <= c && c <= 'Z')
}

/// Relies on `rand::distributions::Alphanumeric::sample_string`, which
/// draws exactly `len` characters uniformly from the ASCII alphanumeric
/// alphabet. Nothing is assumed about which characters come out.
#[verifier::external_body]
fn sample_alphanumeric(rng: &mut StdRng, len: usize) -> (r: String)
    ensures
        r@.len() == len,
        forall|i: int| 0 <= i < r@.len() ==> is_alnum_char(#[trigger] r@[i]),
{
    Alphanumeric.sample_string(rng, len)
}

/// Compares a plaintext password against a stored encoded hash.
///
/// Returns `Ok(true)` on a match, `Ok(false)` on a legitimate mismatch,
/// and `Err(InvalidHashEncoding)` when the stored value is not a
/// well-formed encoded hash.
pub fn compare_with_hash(password: &str, hash: &str) -> (r: Result<bool, HashError>)
    ensures
        hash_wf(hash@) ==> r == Ok::<bool, HashError>(hash_matches(password@, hash@)),
        !hash_wf(hash@) ==> r == Err::<bool, HashError>(HashError::InvalidHashEncoding),
{
    argon2_verify(password, hash)
}

/// Hashes a secret under a freshly drawn salt. The result is a
/// well-formed encoded hash that verifies against the secret.
pub fn hash_secret(secret: &str, rng: &mut StdRng) -> (r: String)
    ensures
        hash_wf(r@),
        hash_matches(secret@, r@),
{
    argon2_hash_with_fresh_salt(secret, rng)
}

/// The length, in characters, of every issued plaintext secret.
pub const PASSWORD_LENGTH: usize = 24;

/// Draws a fresh 24-character alphanumeric secret and its encoded hash.
///
/// The returned hash is well formed and verifies against the returned
/// plaintext. Callers that share one generator across threads serialize
/// access to it; the generator is consumed through `&mut` here, so no two
/// concurrent calls can observe the same generator state.
pub fn generate_random_password(rng: &mut StdRng) -> (r: (String, String))
    ensures
        r.0@.len() == PASSWORD_LENGTH,
        forall|i: int| 0 <= i < r.0@.len() ==> is_alnum_char(#[trigger] r.0@[i]),
        hash_wf(r.1@),
        hash_matches(r.0@, r.1@),
{
    let password = sample_alphanumeric(rng, PASSWORD_LENGTH);
    let password_hash = argon2_hash_with_fresh_salt(password.as_str(), rng);
    (password, password_hash)
}

/// A username and password pair, as submitted by a client.
pub struct Credentials {
    pub username: String,
    pub password: String,
}

} // verus!
