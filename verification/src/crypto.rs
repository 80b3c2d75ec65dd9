//! Asymmetric signature verification, reached through the `openssl`
//! crate behind trusted wrappers. Keys are carried as PEM-encoded text;
//! verification recomputes a SHA-256 digest of the signed message under
//! the public key the PEM describes.

use vstd::prelude::*;

use openssl::hash::MessageDigest;
use openssl::pkey::PKey;
use openssl::sign::Verifier;

verus! {

/// Whether `pem` parses as a PEM-encoded public key, that is, whether
/// `openssl::pkey::PKey::public_key_from_pem` accepts its UTF-8 bytes.
/// Deterministic in the text alone.
pub uninterp spec fn pem_key_valid(pem: Seq<char>) -> bool;

/// Whether `signature` is a valid signature of the UTF-8 bytes of
/// `message` over a SHA-256 digest under the public key that `pem`
/// describes: whether `EVP_DigestVerify` concludes positively.
/// Deterministic in its arguments; a verification error is counted as a
/// negative conclusion.
pub uninterp spec fn sig_ok(pem: Seq<char>, signature: Seq<u8>, message: Seq<char>) -> bool;

/// Relies on `openssl::pkey::PKey::public_key_from_pem`: the parse
/// succeeds or fails as a function of the text alone.
#[verifier::external_body]
pub fn check_public_key_pem(pem: &str) -> (r: bool)
    ensures
        r == pem_key_valid(pem@),
{
    PKey::public_key_from_pem(pem.as_bytes()).is_ok()
}

/// Relies on `openssl::sign::Verifier` with a SHA-256 digest and
/// `verify_oneshot`: given the stored PEM text, the signature bytes and
/// the signed message, verification concludes the same way on every
/// call. An unparseable key or a verification error yields `false`.
#[verifier::external_body]
pub fn verify_signature(pem: &str, signature: &Vec<u8>, message: &str) -> (r: bool)
    ensures
        r == (pem_key_valid(pem@) && sig_ok(pem@, signature@, message@)),
{
    let key = match PKey::public_key_from_pem(pem.as_bytes()) {
        Ok(k) => k,
        Err(_) => return false,
    };
    let mut verifier = match Verifier::new(MessageDigest::sha256(), &key) {
        Ok(v) => v,
        Err(_) => return false,
    };
    verifier.verify_oneshot(signature.as_slice(), message.as_bytes()).unwrap_or(false)
}

} // verus!
