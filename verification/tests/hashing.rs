//! Tests of credential hashing and random secret issuing.

use argon2::password_hash::{PasswordHash, PasswordHasher, SaltString};
use argon2::Argon2;
use ft_ddns::utils::{compare_with_hash, generate_random_password, hash_secret, HashError};
use rand::rngs::StdRng;
use rand::SeedableRng;

#[test]
fn hash_round_trip_succeeds() {
    let mut rng = StdRng::seed_from_u64(1);
    let hash = hash_secret("correct horse battery staple", &mut rng);
    assert_eq!(compare_with_hash("correct horse battery staple", &hash), Ok(true));
}

#[test]
fn hash_of_other_secret_fails() {
    let mut rng = StdRng::seed_from_u64(2);
    let hash = hash_secret("one secret", &mut rng);
    assert_eq!(compare_with_hash("another secret", &hash), Ok(false));
}

#[test]
fn malformed_stored_hash_is_invalid_encoding() {
    assert_eq!(
        compare_with_hash("anything", "not-an-encoded-hash"),
        Err(HashError::InvalidHashEncoding)
    );
    assert_eq!(compare_with_hash("anything", ""), Err(HashError::InvalidHashEncoding));
}

#[test]
fn verify_accepts_externally_computed_hash() {
    // A hash produced by the argon2 crate directly, not by the library,
    // must verify: the library's verification really runs argon2.
    let salt = SaltString::from_b64("c2FsdHNhbHRzYWx0").unwrap();
    let hash = Argon2::default()
        .hash_password("outside secret".as_bytes(), &salt)
        .unwrap()
        .to_string();
    assert_eq!(compare_with_hash("outside secret", &hash), Ok(true));
    assert_eq!(compare_with_hash("wrong secret", &hash), Ok(false));
}

#[test]
fn issued_hash_is_a_real_argon2_hash() {
    let mut rng = StdRng::seed_from_u64(3);
    let (password, hash) = generate_random_password(&mut rng);
    // The stored value parses as a PHC string and verifies under the
    // argon2 crate itself, not only under the library's own wrapper.
    let parsed = PasswordHash::new(&hash).unwrap();
    assert!(parsed
        .verify_password(&[&Argon2::default()], password.as_str())
        .is_ok());
}

#[test]
fn issued_password_is_24_alphanumeric_characters() {
    let mut rng = StdRng::seed_from_u64(4);
    let (password, hash) = generate_random_password(&mut rng);
    assert_eq!(password.chars().count(), 24);
    assert!(password.chars().all(|c| c.is_ascii_alphanumeric()));
    assert_eq!(compare_with_hash(&password, &hash), Ok(true));
    assert_eq!(compare_with_hash("not the password", &hash), Ok(false));
}

#[test]
fn issued_passwords_differ_between_draws() {
    let mut rng = StdRng::seed_from_u64(5);
    let (first, _) = generate_random_password(&mut rng);
    let (second, _) = generate_random_password(&mut rng);
    assert_ne!(first, second);
}
