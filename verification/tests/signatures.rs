//! Tests of signature authentication: the freshness window, the failure
//! taxonomy and real signature verification.

use base64::prelude::{Engine, BASE64_STANDARD};
use chrono::{Duration, Utc};
use ft_ddns::account::{authenticate_admin, Account, AccountStore, SigningAccount};
use ft_ddns::routes::bootstrap_admin_user;
use ft_ddns::signature::{authenticate_signed, SignatureAuthError};
use openssl::hash::MessageDigest;
use openssl::pkey::{PKey, Private};
use openssl::sign::Signer;
use rand::rngs::StdRng;
use rand::SeedableRng;

const DOMAIN: &str = "sig.example.com";

/// A store with one signing account for `DOMAIN`, and the private key
/// that can sign for it.
fn store_with_signer(seed: u64) -> (AccountStore, PKey<Private>) {
    let mut store = AccountStore::new();
    let mut rng = StdRng::seed_from_u64(seed);
    bootstrap_admin_user(&mut store, "bootstrap-secret", &mut rng);
    let admin = authenticate_admin(&store, "admin", "bootstrap-secret").ok().unwrap();
    let rsa = openssl::rsa::Rsa::generate(2048).unwrap();
    let key = PKey::from_rsa(rsa).unwrap();
    let pem = String::from_utf8(key.public_key_to_pem().unwrap()).unwrap();
    SigningAccount::create_account(DOMAIN, &pem, &admin, &mut store).unwrap();
    (store, key)
}

fn sign(key: &PKey<Private>, message: &str) -> String {
    let mut signer = Signer::new(MessageDigest::sha256(), key).unwrap();
    let bytes = signer.sign_oneshot_to_vec(message.as_bytes()).unwrap();
    BASE64_STANDARD.encode(bytes)
}

#[test]
fn fresh_correctly_signed_request_authenticates() {
    let (store, key) = store_with_signer(20);
    let now = Utc::now().timestamp();
    let date = Utc::now().to_rfc3339();
    let signature = sign(&key, &format!("{date};{DOMAIN}"));
    let r = authenticate_signed(&store, Some(&date), Some(DOMAIN), Some(&signature), now);
    let principal = r.ok().unwrap();
    assert_eq!(principal.get_domain(), DOMAIN);
}

#[test]
fn date_at_the_margin_is_accepted() {
    let (store, key) = store_with_signer(21);
    let now = Utc::now().timestamp();
    // 59 seconds old: within the inclusive 60-second margin even after
    // sub-second truncation.
    let date = (Utc::now() - Duration::seconds(59)).to_rfc3339();
    let signature = sign(&key, &format!("{date};{DOMAIN}"));
    let r = authenticate_signed(&store, Some(&date), Some(DOMAIN), Some(&signature), now);
    assert!(r.is_ok());
}

#[test]
fn expired_date_fails_with_timestamp_outcome_not_signature() {
    let (store, key) = store_with_signer(22);
    let now = Utc::now().timestamp();
    let date = (Utc::now() - Duration::seconds(90)).to_rfc3339();
    // Even a correct signature over the message must not be consulted.
    let signature = sign(&key, &format!("{date};{DOMAIN}"));
    let r = authenticate_signed(&store, Some(&date), Some(DOMAIN), Some(&signature), now);
    assert_eq!(r.err(), Some(SignatureAuthError::TimestampExpired));
}

#[test]
fn future_date_fails_with_timestamp_outcome_not_signature() {
    let (store, _) = store_with_signer(23);
    let now = Utc::now().timestamp();
    let date = (Utc::now() + Duration::seconds(90)).to_rfc3339();
    // Garbage signature bytes: the outcome must still be the timestamp's.
    let r = authenticate_signed(&store, Some(&date), Some(DOMAIN), Some("AAAA"), now);
    assert_eq!(r.err(), Some(SignatureAuthError::TimestampInFuture));
}

#[test]
fn wrong_key_signature_is_invalid() {
    let (store, _) = store_with_signer(24);
    let other = PKey::from_rsa(openssl::rsa::Rsa::generate(2048).unwrap()).unwrap();
    let now = Utc::now().timestamp();
    let date = Utc::now().to_rfc3339();
    let signature = sign(&other, &format!("{date};{DOMAIN}"));
    let r = authenticate_signed(&store, Some(&date), Some(DOMAIN), Some(&signature), now);
    assert_eq!(r.err(), Some(SignatureAuthError::SignatureInvalid));
}

#[test]
fn signature_over_a_different_message_is_invalid() {
    let (store, key) = store_with_signer(25);
    let now = Utc::now().timestamp();
    let date = Utc::now().to_rfc3339();
    let signature = sign(&key, &format!("{date};other.example.com"));
    let r = authenticate_signed(&store, Some(&date), Some(DOMAIN), Some(&signature), now);
    assert_eq!(r.err(), Some(SignatureAuthError::SignatureInvalid));
}

#[test]
fn undecodable_signature_bytes_are_invalid() {
    let (store, _) = store_with_signer(26);
    let now = Utc::now().timestamp();
    let date = Utc::now().to_rfc3339();
    // Valid base64, but not a plausible RSA signature: the crypto layer
    // reports an error, which counts as a failed verification.
    let r = authenticate_signed(&store, Some(&date), Some(DOMAIN), Some("AAAA"), now);
    assert_eq!(r.err(), Some(SignatureAuthError::SignatureInvalid));
}

#[test]
fn missing_headers_are_reported_first() {
    let (store, _) = store_with_signer(27);
    let now = Utc::now().timestamp();
    let date = Utc::now().to_rfc3339();
    let r = authenticate_signed(&store, Some(&date), None, Some("AAAA"), now);
    assert_eq!(r.err(), Some(SignatureAuthError::MissingHeaders));
    let r = authenticate_signed(&store, None, Some(DOMAIN), Some("AAAA"), now);
    assert_eq!(r.err(), Some(SignatureAuthError::MissingHeaders));
    let r = authenticate_signed(&store, Some(&date), Some(DOMAIN), None, now);
    assert_eq!(r.err(), Some(SignatureAuthError::MissingHeaders));
}

#[test]
fn malformed_timestamp_is_reported() {
    let (store, _) = store_with_signer(28);
    let now = Utc::now().timestamp();
    let r = authenticate_signed(&store, Some("yesterday at noon"), Some(DOMAIN), Some("AAAA"), now);
    assert_eq!(r.err(), Some(SignatureAuthError::MalformedTimestamp));
}

#[test]
fn unknown_domain_is_reported() {
    let (store, key) = store_with_signer(29);
    let now = Utc::now().timestamp();
    let date = Utc::now().to_rfc3339();
    let signature = sign(&key, &format!("{date};nobody.example.com"));
    let r =
        authenticate_signed(&store, Some(&date), Some("nobody.example.com"), Some(&signature), now);
    assert_eq!(r.err(), Some(SignatureAuthError::DomainNotFound));
}

#[test]
fn signature_that_is_not_base64_is_malformed() {
    let (store, _) = store_with_signer(30);
    let now = Utc::now().timestamp();
    let date = Utc::now().to_rfc3339();
    let r = authenticate_signed(&store, Some(&date), Some(DOMAIN), Some("!!not base64!!"), now);
    assert_eq!(r.err(), Some(SignatureAuthError::MalformedSignature));
}
