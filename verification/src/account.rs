//! Accounts and their store: admin accounts, password-authenticated
//! domain accounts and signature-authenticated domain accounts, with
//! domain uniqueness enforced across the two domain-owning kinds.
//!
//! The store is an in-memory snapshot of the persisted tables; reads and
//! writes against the persistence backend happen outside the library and
//! hand plain records in and out.

use vstd::prelude::*;

use core::mem::swap;

use crate::crypto::{check_public_key_pem, pem_key_valid};
use crate::text::str_eq;
use crate::utils::{compare_with_hash, hash_matches, hash_wf};

verus! {

/// A persisted admin account: the user name is the primary key.
pub struct AdminRecord {
    pub user: String,
    pub password_hash: String,
}

/// A persisted password-authenticated domain account: the domain is both
/// the primary key and the login identifier.
pub struct PasswordRecord {
    pub domain: String,
    pub password_hash: String,
    pub created_by: String,
    /// `Some(true)` disables the account; `None` or `Some(false)` leaves
    /// it enabled. Authentication rejects disabled accounts.
    pub disabled: Option<bool>,
}

/// A persisted signature-authenticated domain account: the public key is
/// stored as PEM-encoded text.
pub struct SigningRecord {
    pub domain: String,
    pub public_key: String,
    pub created_by: String,
    /// `Some(true)` disables the account; `None` or `Some(false)` leaves
    /// it enabled. Authentication rejects disabled accounts.
    pub disabled: Option<bool>,
}

/// The mathematical content of the store: the three tables in insertion
/// order.
pub struct StoreView {
    pub admins: Seq<AdminRecord>,
    pub passwords: Seq<PasswordRecord>,
    pub signings: Seq<SigningRecord>,
}

/// The first admin record whose user name is `user`.
pub open spec fn spec_find_admin(s: Seq<AdminRecord>, user: Seq<char>) -> Option<AdminRecord>
    decreases s.len(),
{
    if s.len() == 0 {
        None
    } else if s[0].user@ == user {
        Some(s[0])
    } else {
        spec_find_admin(s.drop_first(), user)
    }
}

/// The first password record whose domain is `domain`.
pub open spec fn spec_find_password(s: Seq<PasswordRecord>, domain: Seq<char>) -> Option<
    PasswordRecord,
>
    decreases s.len(),
{
    if s.len() == 0 {
        None
    } else if s[0].domain@ == domain {
        Some(s[0])
    } else {
        spec_find_password(s.drop_first(), domain)
    }
}

/// The first signing record whose domain is `domain`.
pub open spec fn spec_find_signing(s: Seq<SigningRecord>, domain: Seq<char>) -> Option<
    SigningRecord,
>
    decreases s.len(),
{
    if s.len() == 0 {
        None
    } else if s[0].domain@ == domain {
        Some(s[0])
    } else {
        spec_find_signing(s.drop_first(), domain)
    }
}

/// What the admin lookup returns: a record with the looked-up user name
/// that occurs in the table, or `None` exactly when no record has it.
pub proof fn lemma_find_admin_characterization(s: Seq<AdminRecord>, user: Seq<char>)
    ensures
        (spec_find_admin(s, user) is None) <==> (forall|i: int|
            0 <= i < s.len() ==> (#[trigger] s[i]).user@ != user),
        spec_find_admin(s, user) matches Some(rec) ==> rec.user@ == user && (exists|i: int|
            0 <= i < s.len() && #[trigger] s[i] == rec),
    decreases s.len(),
{
    if s.len() > 0 {
        lemma_find_admin_characterization(s.drop_first(), user);
        assert(forall|i: int|
            0 <= i < s.drop_first().len() ==> #[trigger] s.drop_first()[i] == s[i + 1]);
        if s[0].user@ != user {
            match spec_find_admin(s.drop_first(), user) {
                Option::None => {
                    assert forall|i: int| 0 <= i < s.len() implies (#[trigger] s[i]).user@
                        != user by {
                        if i > 0 {
                            assert(s.drop_first()[i - 1] == s[i]);
                        }
                    }
                },
                Option::Some(rec) => {
                    let i = choose|i: int|
                        0 <= i < s.drop_first().len() && #[trigger] s.drop_first()[i] == rec;
                    assert(s[i + 1] == rec);
                },
            }
            if forall|i: int| 0 <= i < s.len() ==> (#[trigger] s[i]).user@ != user {
                assert forall|i: int| 0 <= i < s.drop_first().len() implies (#[trigger] s.drop_first()[i]).user@ != user by {
                    assert(s.drop_first()[i] == s[i + 1]);
                }
            }
        }
    }
}

/// What the password lookup returns, as for the admin lookup.
pub proof fn lemma_find_password_characterization(s: Seq<PasswordRecord>, domain: Seq<char>)
    ensures
        (spec_find_password(s, domain) is None) <==> (forall|i: int|
            0 <= i < s.len() ==> (#[trigger] s[i]).domain@ != domain),
        spec_find_password(s, domain) matches Some(rec) ==> rec.domain@ == domain && (exists|
            i: int,
        |
            0 <= i < s.len() && #[trigger] s[i] == rec),
    decreases s.len(),
{
    if s.len() > 0 {
        lemma_find_password_characterization(s.drop_first(), domain);
        assert(forall|i: int|
            0 <= i < s.drop_first().len() ==> #[trigger] s.drop_first()[i] == s[i + 1]);
        if s[0].domain@ != domain {
            match spec_find_password(s.drop_first(), domain) {
                Option::None => {
                    assert forall|i: int| 0 <= i < s.len() implies (#[trigger] s[i]).domain@
                        != domain by {
                        if i > 0 {
                            assert(s.drop_first()[i - 1] == s[i]);
                        }
                    }
                },
                Option::Some(rec) => {
                    let i = choose|i: int|
                        0 <= i < s.drop_first().len() && #[trigger] s.drop_first()[i] == rec;
                    assert(s[i + 1] == rec);
                },
            }
            if forall|i: int| 0 <= i < s.len() ==> (#[trigger] s[i]).domain@ != domain {
                assert forall|i: int| 0 <= i < s.drop_first().len() implies (#[trigger] s.drop_first()[i]).domain@ != domain by {
                    assert(s.drop_first()[i] == s[i + 1]);
                }
            }
        }
    }
}

/// What the signing lookup returns, as for the admin lookup.
pub proof fn lemma_find_signing_characterization(s: Seq<SigningRecord>, domain: Seq<char>)
    ensures
        (spec_find_signing(s, domain) is None) <==> (forall|i: int|
            0 <= i < s.len() ==> (#[trigger] s[i]).domain@ != domain),
        spec_find_signing(s, domain) matches Some(rec) ==> rec.domain@ == domain && (exists|
            i: int,
        |
            0 <= i < s.len() && #[trigger] s[i] == rec),
    decreases s.len(),
{
    if s.len() > 0 {
        lemma_find_signing_characterization(s.drop_first(), domain);
        assert(forall|i: int|
            0 <= i < s.drop_first().len() ==> #[trigger] s.drop_first()[i] == s[i + 1]);
        if s[0].domain@ != domain {
            match spec_find_signing(s.drop_first(), domain) {
                Option::None => {
                    assert forall|i: int| 0 <= i < s.len() implies (#[trigger] s[i]).domain@
                        != domain by {
                        if i > 0 {
                            assert(s.drop_first()[i - 1] == s[i]);
                        }
                    }
                },
                Option::Some(rec) => {
                    let i = choose|i: int|
                        0 <= i < s.drop_first().len() && #[trigger] s.drop_first()[i] == rec;
                    assert(s[i + 1] == rec);
                },
            }
            if forall|i: int| 0 <= i < s.len() ==> (#[trigger] s[i]).domain@ != domain {
                assert forall|i: int| 0 <= i < s.drop_first().len() implies (#[trigger] s.drop_first()[i]).domain@ != domain by {
                    assert(s.drop_first()[i] == s[i + 1]);
                }
            }
        }
    }
}

/// The in-memory account store: three tables with unique primary keys,
/// domain uniqueness across the two domain-owning tables, well-formed
/// stored password hashes and parseable stored public keys.
pub struct AccountStore {
    admins: Vec<AdminRecord>,
    passwords: Vec<PasswordRecord>,
    signings: Vec<SigningRecord>,
}

impl View for AccountStore {
    type V = StoreView;

    closed spec fn view(&self) -> StoreView {
        StoreView { admins: self.admins@, passwords: self.passwords@, signings: self.signings@ }
    }
}

impl AccountStore {
    #[verifier::type_invariant]
    spec fn wf(&self) -> bool {
        &&& forall|i: int, j: int|
            0 <= i < j < self.admins@.len() ==> (#[trigger] self.admins@[i]).user@ != (
            #[trigger] self.admins@[j]).user@
        &&& forall|i: int, j: int|
            0 <= i < j < self.passwords@.len() ==> (#[trigger] self.passwords@[i]).domain@ != (
            #[trigger] self.passwords@[j]).domain@
        &&& forall|i: int, j: int|
            0 <= i < j < self.signings@.len() ==> (#[trigger] self.signings@[i]).domain@ != (
            #[trigger] self.signings@[j]).domain@
        &&& forall|i: int, j: int|
            0 <= i < self.passwords@.len() && 0 <= j < self.signings@.len() ==> (
            #[trigger] self.passwords@[i]).domain@ != (#[trigger] self.signings@[j]).domain@
        &&& forall|i: int|
            0 <= i < self.admins@.len() ==> hash_wf((#[trigger] self.admins@[i]).password_hash@)
        &&& forall|i: int|
            0 <= i < self.passwords@.len() ==> hash_wf(
                (#[trigger] self.passwords@[i]).password_hash@,
            )
        &&& forall|i: int|
            0 <= i < self.signings@.len() ==> pem_key_valid(
                (#[trigger] self.signings@[i]).public_key@,
            )
    }

    /// An empty store.
    pub fn new() -> (s: AccountStore)
        ensures
            s@.admins == Seq::<AdminRecord>::empty(),
            s@.passwords == Seq::<PasswordRecord>::empty(),
            s@.signings == Seq::<SigningRecord>::empty(),
    {
        let s = AccountStore { admins: Vec::new(), passwords: Vec::new(), signings: Vec::new() };
        proof {
            assert(s@.admins =~= Seq::<AdminRecord>::empty());
            assert(s@.passwords =~= Seq::<PasswordRecord>::empty());
            assert(s@.signings =~= Seq::<SigningRecord>::empty());
        }
        s
    }

    /// Looks an admin account up by user name.
    pub fn find_admin(&self, user: &str) -> (r: Option<&AdminRecord>)
        ensures
            match r {
                None => spec_find_admin(self@.admins, user@) is None,
                Some(rec) => spec_find_admin(self@.admins, user@) == Some(*rec) && hash_wf(
                    rec.password_hash@,
                ),
            },
    {
        let n = self.admins.len();
        proof {
            use_type_invariant(&*self);
            assert(self.admins@.skip(0) =~= self.admins@);
        }
        let mut i: usize = 0;
        while i < n
            invariant
                0 <= i <= n,
                n == self.admins@.len(),
                spec_find_admin(self.admins@, user@) == spec_find_admin(
                    self.admins@.skip(i as int),
                    user@,
                ),
            decreases n - i,
        {
            proof {
                use_type_invariant(&*self);
                assert(self.admins@.skip(i as int)[0] == self.admins@[i as int]);
                assert(self.admins@.skip(i as int).drop_first() =~= self.admins@.skip(i + 1));
            }
            if str_eq(self.admins[i].user.as_str(), user) {
                return Some(&self.admins[i]);
            }
            i = i + 1;
        }
        None
    }

    /// Looks a password account up by domain.
    pub fn find_password_account(&self, domain: &str) -> (r: Option<&PasswordRecord>)
        ensures
            match r {
                None => spec_find_password(self@.passwords, domain@) is None,
                Some(rec) => spec_find_password(self@.passwords, domain@) == Some(*rec)
                    && hash_wf(rec.password_hash@),
            },
    {
        let n = self.passwords.len();
        proof {
            use_type_invariant(&*self);
            assert(self.passwords@.skip(0) =~= self.passwords@);
        }
        let mut i: usize = 0;
        while i < n
            invariant
                0 <= i <= n,
                n == self.passwords@.len(),
                spec_find_password(self.passwords@, domain@) == spec_find_password(
                    self.passwords@.skip(i as int),
                    domain@,
                ),
            decreases n - i,
        {
            proof {
                use_type_invariant(&*self);
                assert(self.passwords@.skip(i as int)[0] == self.passwords@[i as int]);
                assert(self.passwords@.skip(i as int).drop_first() =~= self.passwords@.skip(i + 1));
            }
            if str_eq(self.passwords[i].domain.as_str(), domain) {
                return Some(&self.passwords[i]);
            }
            i = i + 1;
        }
        None
    }

    /// Looks a signing account up by domain.
    pub fn find_signing_account(&self, domain: &str) -> (r: Option<&SigningRecord>)
        ensures
            match r {
                None => spec_find_signing(self@.signings, domain@) is None,
                Some(rec) => spec_find_signing(self@.signings, domain@) == Some(*rec)
                    && pem_key_valid(rec.public_key@),
            },
    {
        let n = self.signings.len();
        proof {
            use_type_invariant(&*self);
            assert(self.signings@.skip(0) =~= self.signings@);
        }
        let mut i: usize = 0;
        while i < n
            invariant
                0 <= i <= n,
                n == self.signings@.len(),
                spec_find_signing(self.signings@, domain@) == spec_find_signing(
                    self.signings@.skip(i as int),
                    domain@,
                ),
            decreases n - i,
        {
            proof {
                use_type_invariant(&*self);
                assert(self.signings@.skip(i as int)[0] == self.signings@[i as int]);
                assert(self.signings@.skip(i as int).drop_first() =~= self.signings@.skip(i + 1));
            }
            if str_eq(self.signings[i].domain.as_str(), domain) {
                return Some(&self.signings[i]);
            }
            i = i + 1;
        }
        None
    }
}

/// Whether `domain` is present in either domain-owning table.
pub fn domain_exists(domain: &str, store: &AccountStore) -> (r: bool)
    ensures
        r == (spec_find_password(store@.passwords, domain@) is Some || spec_find_signing(
            store@.signings,
            domain@,
        ) is Some),
{
    if store.find_password_account(domain).is_some() {
        true
    } else {
        store.find_signing_account(domain).is_some()
    }
}

/// Errors of account creation.
#[derive(Debug, PartialEq, Eq)]
pub enum StoreError {
    /// The domain is already present in a domain-owning table.
    DuplicateDomain,
    /// The admin user name is already taken.
    DuplicateUser,
    /// The submitted public key is not parseable PEM.
    InvalidKey,
}

/// Errors of authentication.
#[derive(Debug, PartialEq, Eq)]
pub enum AuthError {
    /// No account with the given identifier.
    UnknownAccount,
    /// The account exists but is disabled.
    AccountDisabled,
    /// The password does not match the stored hash.
    BadPassword,
}

/// An authenticated admin principal, obtainable only through
/// `authenticate_admin`.
pub struct AdminAccount {
    user: String,
}

impl View for AdminAccount {
    type V = Seq<char>;

    closed spec fn view(&self) -> Seq<char> {
        self.user@
    }
}

impl AdminAccount {
    /// The admin user name.
    pub fn get_user(&self) -> (r: &str)
        ensures
            r@ == self@,
    {
        self.user.as_str()
    }
}

/// A principal that owns one domain.
pub trait Account {
    /// The domain the principal owns.
    spec fn domain_view(&self) -> Seq<char>;

    /// The domain the principal owns.
    fn get_domain(&self) -> (r: &str)
        ensures
            r@ == self.domain_view(),
    ;
}

/// An authenticated password-account principal, obtainable only through
/// `authenticate_password_account`.
pub struct PasswordAccount {
    domain: String,
}

impl View for PasswordAccount {
    type V = Seq<char>;

    closed spec fn view(&self) -> Seq<char> {
        self.domain@
    }
}

impl Account for PasswordAccount {
    open spec fn domain_view(&self) -> Seq<char> {
        self@
    }

    fn get_domain(&self) -> (r: &str) {
        self.domain.as_str()
    }
}

/// An authenticated signing-account principal, obtainable only through
/// signature authentication.
pub struct SigningAccount {
    domain: String,
}

impl View for SigningAccount {
    type V = Seq<char>;

    closed spec fn view(&self) -> Seq<char> {
        self.domain@
    }
}

impl Account for SigningAccount {
    open spec fn domain_view(&self) -> Seq<char> {
        self@
    }

    fn get_domain(&self) -> (r: &str) {
        self.domain.as_str()
    }
}

impl SigningAccount {
    /// Wraps a domain that signature authentication has accepted.
    pub(crate) fn from_domain(domain: String) -> (r: SigningAccount)
        ensures
            r@ == domain@,
    {
        SigningAccount { domain }
    }
}

/// The record that a password-account creation appends.
pub open spec fn new_password_record(
    rec: PasswordRecord,
    domain: Seq<char>,
    hash: Seq<char>,
    created_by: Seq<char>,
) -> bool {
    rec.domain@ == domain && rec.password_hash@ == hash && rec.created_by@ == created_by
        && rec.disabled == Some(false)
}

/// The record that a signing-account creation appends.
pub open spec fn new_signing_record(
    rec: SigningRecord,
    domain: Seq<char>,
    public_key: Seq<char>,
    created_by: Seq<char>,
) -> bool {
    rec.domain@ == domain && rec.public_key@ == public_key && rec.created_by@ == created_by
        && rec.disabled == Some(false)
}

impl AccountStore {
    /// Creates an admin account; fails when the user name is taken.
    ///
    /// The hash must come from the credential hasher, whose results are
    /// well formed; `bootstrap_admin_user` and `new_admin` call it so.
    pub fn create_admin(&mut self, user: &str, password_hash: &str) -> (r: Result<(), StoreError>)
        requires
            hash_wf(password_hash@),
        ensures
            match r {
                Ok(_) => spec_find_admin(old(self)@.admins, user@) is None && final(self)@.admins.drop_last() == old(self)@.admins && final(self)@.admins.len() == old(self)@.admins.len() + 1 && final(self)@.admins.last().user@ == user@ && final(self)@.admins.last().password_hash@ == password_hash@ && final(self)@.passwords == old(self)@.passwords && final(self)@.signings == old(self)@.signings,
                Err(e) => e == StoreError::DuplicateUser && spec_find_admin(
                    old(self)@.admins,
                    user@,
                ) is Some && final(self)@ == old(self)@,
            },
    {
        proof {
            use_type_invariant(&*self);
        }
        if self.find_admin(user).is_some() {
            return Err(StoreError::DuplicateUser);
        }
        let rec = AdminRecord {
            user: String::from_str(user),
            password_hash: String::from_str(password_hash),
        };
        proof {
            lemma_find_admin_characterization(self.admins@, user@);
        }
        let mut v: Vec<AdminRecord> = Vec::new();
        swap(&mut v, &mut self.admins);
        v.push(rec);
        swap(&mut v, &mut self.admins);
        proof {
            assert(self.admins@.drop_last() =~= old(self).admins@);
        }
        Ok(())
    }
}

impl PasswordAccount {
    /// Whether a password account for `domain` exists.
    pub fn exists_in(domain: &str, store: &AccountStore) -> (r: bool)
        ensures
            r == (spec_find_password(store@.passwords, domain@) is Some),
    {
        store.find_password_account(domain).is_some()
    }

    /// Creates a password account; fails when the domain is already
    /// owned by either a password or a signing account, so that each
    /// domain has at most one owning account.
    ///
    /// The hash must come from the credential hasher, whose results are
    /// well formed; `add_password_domain` calls it so.
    pub fn create_account(
        domain: &str,
        password_hash: &str,
        created_by: &AdminAccount,
        store: &mut AccountStore,
    ) -> (r: Result<(), StoreError>)
        requires
            hash_wf(password_hash@),
        ensures
            match r {
                Ok(_) => spec_find_password(old(store)@.passwords, domain@) is None
                    && spec_find_signing(old(store)@.signings, domain@) is None && final(store)@.passwords.drop_last() == old(store)@.passwords && final(store)@.passwords.len()
                    == old(store)@.passwords.len() + 1 && new_password_record(
                    final(store)@.passwords.last(),
                    domain@,
                    password_hash@,
                    created_by@,
                ) && final(store)@.admins == old(store)@.admins && final(store)@.signings == old(store)@.signings,
                Err(e) => e == StoreError::DuplicateDomain && (spec_find_password(
                    old(store)@.passwords,
                    domain@,
                ) is Some || spec_find_signing(old(store)@.signings, domain@) is Some) && final(store)@ == old(store)@,
            },
    {
        proof {
            use_type_invariant(&*store);
        }
        if domain_exists(domain, store) {
            return Err(StoreError::DuplicateDomain);
        }
        let rec = PasswordRecord {
            domain: String::from_str(domain),
            password_hash: String::from_str(password_hash),
            created_by: String::from_str(created_by.get_user()),
            disabled: Some(false),
        };
        proof {
            lemma_find_password_characterization(store.passwords@, domain@);
            lemma_find_signing_characterization(store.signings@, domain@);
        }
        let mut v: Vec<PasswordRecord> = Vec::new();
        swap(&mut v, &mut store.passwords);
        v.push(rec);
        swap(&mut v, &mut store.passwords);
        proof {
            assert(store.passwords@.drop_last() =~= old(store).passwords@);
        }
        Ok(())
    }
}

impl SigningAccount {
    /// Whether a signing account for `domain` exists.
    pub fn exists_in(domain: &str, store: &AccountStore) -> (r: bool)
        ensures
            r == (spec_find_signing(store@.signings, domain@) is Some),
    {
        store.find_signing_account(domain).is_some()
    }

    /// Creates a signing account, storing the PEM text of the public
    /// key. Fails when the domain is already owned by either kind of
    /// account, or when the key does not parse: an invalid key is a
    /// creation-time failure, never a deferred one.
    pub fn create_account(
        domain: &str,
        public_key: &str,
        created_by: &AdminAccount,
        store: &mut AccountStore,
    ) -> (r: Result<(), StoreError>)
        ensures
            match r {
                Ok(_) => pem_key_valid(public_key@) && spec_find_password(
                    old(store)@.passwords,
                    domain@,
                ) is None && spec_find_signing(old(store)@.signings, domain@) is None && final(store)@.signings.drop_last() == old(store)@.signings && final(store)@.signings.len()
                    == old(store)@.signings.len() + 1 && new_signing_record(
                    final(store)@.signings.last(),
                    domain@,
                    public_key@,
                    created_by@,
                ) && final(store)@.admins == old(store)@.admins && final(store)@.passwords == old(store)@.passwords,
                Err(StoreError::DuplicateDomain) => (spec_find_password(
                    old(store)@.passwords,
                    domain@,
                ) is Some || spec_find_signing(old(store)@.signings, domain@) is Some) && final(store)@ == old(store)@,
                Err(StoreError::InvalidKey) => !pem_key_valid(public_key@) && spec_find_password(
                    old(store)@.passwords,
                    domain@,
                ) is None && spec_find_signing(old(store)@.signings, domain@) is None && final(store)@ == old(store)@,
                Err(StoreError::DuplicateUser) => false,
            },
    {
        proof {
            use_type_invariant(&*store);
        }
        if domain_exists(domain, store) {
            return Err(StoreError::DuplicateDomain);
        }
        if !check_public_key_pem(public_key) {
            return Err(StoreError::InvalidKey);
        }
        let rec = SigningRecord {
            domain: String::from_str(domain),
            public_key: String::from_str(public_key),
            created_by: String::from_str(created_by.get_user()),
            disabled: Some(false),
        };
        proof {
            lemma_find_password_characterization(store.passwords@, domain@);
            lemma_find_signing_characterization(store.signings@, domain@);
        }
        let mut v: Vec<SigningRecord> = Vec::new();
        swap(&mut v, &mut store.signings);
        v.push(rec);
        swap(&mut v, &mut store.signings);
        proof {
            assert(store.signings@.drop_last() =~= old(store).signings@);
        }
        Ok(())
    }

    /// The stored PEM public key of the signing account for `domain`, if
    /// one exists. The text is guaranteed to parse: creation validated
    /// it.
    pub fn find_key_by_domain(domain: &str, store: &AccountStore) -> (r: Option<String>)
        ensures
            match r {
                None => spec_find_signing(store@.signings, domain@) is None,
                Some(k) => spec_find_signing(store@.signings, domain@) matches Some(rec) && k@
                    == rec.public_key@ && pem_key_valid(k@),
            },
    {
        match store.find_signing_account(domain) {
            None => None,
            Some(rec) => Some(rec.public_key.clone()),
        }
    }
}

/// Authenticates an admin by user name and password.
pub fn authenticate_admin(store: &AccountStore, user: &str, password: &str) -> (r: Result<
    AdminAccount,
    AuthError,
>)
    ensures
        match spec_find_admin(store@.admins, user@) {
            Option::None => r == Err::<AdminAccount, AuthError>(AuthError::UnknownAccount),
            Option::Some(rec) => (r is Ok) == hash_matches(password@, rec.password_hash@) && (
            r matches Ok(a) ==> a@ == rec.user@) && (r matches Err(e) ==> e
                == AuthError::BadPassword),
        },
{
    match store.find_admin(user) {
        None => Err(AuthError::UnknownAccount),
        Some(rec) => match compare_with_hash(password, rec.password_hash.as_str()) {
            Ok(true) => Ok(AdminAccount { user: rec.user.clone() }),
            Ok(false) => Err(AuthError::BadPassword),
            Err(_) => {
                proof {
                    assert(false);
                }
                Err(AuthError::BadPassword)
            },
        },
    }
}

/// Authenticates a password account by domain and password. Disabled
/// accounts are rejected before the password is examined.
pub fn authenticate_password_account(store: &AccountStore, domain: &str, password: &str) -> (r:
    Result<PasswordAccount, AuthError>)
    ensures
        match spec_find_password(store@.passwords, domain@) {
            Option::None => r == Err::<PasswordAccount, AuthError>(AuthError::UnknownAccount),
            Option::Some(rec) => if rec.disabled == Some(true) {
                r == Err::<PasswordAccount, AuthError>(AuthError::AccountDisabled)
            } else {
                (r is Ok) == hash_matches(password@, rec.password_hash@) && (r matches Ok(a)
                    ==> a@ == rec.domain@) && (r matches Err(e) ==> e == AuthError::BadPassword)
            },
        },
{
    match store.find_password_account(domain) {
        None => Err(AuthError::UnknownAccount),
        Some(rec) => {
            match rec.disabled {
                Some(true) => Err(AuthError::AccountDisabled),
                _ => match compare_with_hash(password, rec.password_hash.as_str()) {
                    Ok(true) => Ok(PasswordAccount { domain: rec.domain.clone() }),
                    Ok(false) => Err(AuthError::BadPassword),
                    Err(_) => {
                        proof {
                            assert(false);
                        }
                        Err(AuthError::BadPassword)
                    },
                },
            }
        },
    }
}


} // verus!
