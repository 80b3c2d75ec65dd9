//! Tests of the account store: creation, uniqueness across account
//! kinds, lookup and password authentication.

use ft_ddns::account::{
    authenticate_admin, authenticate_password_account, domain_exists, Account, AccountStore,
    AdminAccount, AuthError, PasswordAccount, SigningAccount, StoreError,
};
use ft_ddns::routes::bootstrap_admin_user;
use ft_ddns::utils::hash_secret;
use rand::rngs::StdRng;
use rand::SeedableRng;

fn test_pem() -> String {
    let rsa = openssl::rsa::Rsa::generate(2048).unwrap();
    let key = openssl::pkey::PKey::from_rsa(rsa).unwrap();
    String::from_utf8(key.public_key_to_pem().unwrap()).unwrap()
}

fn admin_with(store: &mut AccountStore, rng: &mut StdRng) -> AdminAccount {
    bootstrap_admin_user(store, "bootstrap-secret", rng);
    authenticate_admin(store, "admin", "bootstrap-secret").ok().unwrap()
}

#[test]
fn bootstrap_is_idempotent() {
    let mut store = AccountStore::new();
    let mut rng = StdRng::seed_from_u64(10);
    assert!(bootstrap_admin_user(&mut store, "first-secret", &mut rng));
    assert!(!bootstrap_admin_user(&mut store, "second-secret", &mut rng));
    // The first secret still authenticates; the second never replaced it.
    assert!(authenticate_admin(&store, "admin", "first-secret").is_ok());
    assert_eq!(
        authenticate_admin(&store, "admin", "second-secret").err(),
        Some(AuthError::BadPassword)
    );
}

#[test]
fn unknown_admin_is_rejected() {
    let store = AccountStore::new();
    assert_eq!(
        authenticate_admin(&store, "admin", "whatever").err(),
        Some(AuthError::UnknownAccount)
    );
}

#[test]
fn password_account_round_trip() {
    let mut store = AccountStore::new();
    let mut rng = StdRng::seed_from_u64(11);
    let admin = admin_with(&mut store, &mut rng);
    let hash = hash_secret("domain-secret", &mut rng);
    PasswordAccount::create_account("host.example.com", &hash, &admin, &mut store).unwrap();
    let principal =
        authenticate_password_account(&store, "host.example.com", "domain-secret").ok().unwrap();
    assert_eq!(principal.get_domain(), "host.example.com");
    assert_eq!(
        authenticate_password_account(&store, "host.example.com", "wrong").err(),
        Some(AuthError::BadPassword)
    );
    assert_eq!(
        authenticate_password_account(&store, "other.example.com", "domain-secret").err(),
        Some(AuthError::UnknownAccount)
    );
}

#[test]
fn duplicate_password_domain_is_rejected() {
    let mut store = AccountStore::new();
    let mut rng = StdRng::seed_from_u64(12);
    let admin = admin_with(&mut store, &mut rng);
    let hash = hash_secret("secret", &mut rng);
    PasswordAccount::create_account("host.example.com", &hash, &admin, &mut store).unwrap();
    assert_eq!(
        PasswordAccount::create_account("host.example.com", &hash, &admin, &mut store),
        Err(StoreError::DuplicateDomain)
    );
}

#[test]
fn domain_uniqueness_across_account_kinds() {
    let mut store = AccountStore::new();
    let mut rng = StdRng::seed_from_u64(13);
    let admin = admin_with(&mut store, &mut rng);
    let hash = hash_secret("secret", &mut rng);
    PasswordAccount::create_account("host.example.com", &hash, &admin, &mut store).unwrap();
    // A signing account for the same domain is rejected before anything
    // is written: the signing table stays empty.
    assert_eq!(
        SigningAccount::create_account("host.example.com", &test_pem(), &admin, &mut store),
        Err(StoreError::DuplicateDomain)
    );
    assert!(!SigningAccount::exists_in("host.example.com", &store));
    assert!(SigningAccount::find_key_by_domain("host.example.com", &store).is_none());
    assert!(domain_exists("host.example.com", &store));
}

#[test]
fn invalid_pem_is_a_creation_time_failure() {
    let mut store = AccountStore::new();
    let mut rng = StdRng::seed_from_u64(14);
    let admin = admin_with(&mut store, &mut rng);
    assert_eq!(
        SigningAccount::create_account("sig.example.com", "not a pem key", &admin, &mut store),
        Err(StoreError::InvalidKey)
    );
    assert!(!SigningAccount::exists_in("sig.example.com", &store));
}

#[test]
fn signing_account_stores_and_returns_the_key() {
    let mut store = AccountStore::new();
    let mut rng = StdRng::seed_from_u64(15);
    let admin = admin_with(&mut store, &mut rng);
    let pem = test_pem();
    SigningAccount::create_account("sig.example.com", &pem, &admin, &mut store).unwrap();
    assert_eq!(SigningAccount::find_key_by_domain("sig.example.com", &store), Some(pem));
    assert!(SigningAccount::exists_in("sig.example.com", &store));
    assert!(!PasswordAccount::exists_in("sig.example.com", &store));
    // And the password kind is blocked on that domain in turn.
    let hash = hash_secret("secret", &mut rng);
    assert_eq!(
        PasswordAccount::create_account("sig.example.com", &hash, &admin, &mut store),
        Err(StoreError::DuplicateDomain)
    );
}
