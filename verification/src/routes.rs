//! Request-handling decisions: the management operations that provision
//! accounts, the record-update operation shared by both authentication
//! schemes, and the credential bundles handed back to clients. The
//! routing layer parses requests, authenticates principals and performs
//! provider calls; everything it decides with is here.

use vstd::prelude::*;

use rand::rngs::StdRng;

use crate::account::{
    domain_exists, spec_find_admin, spec_find_password, spec_find_signing, Account, AccountStore,
    AdminAccount, PasswordAccount, SigningAccount, StoreError,
};
use crate::client_response::ClientResponse;
use crate::ip::IP;
use crate::route53::{upsert_plan, ChangeRequest, Route53};
use crate::text::{spec_trim, str_eq, trim};
use crate::utils::{
    generate_random_password, hash_matches, hash_wf, is_alnum_char, Credentials, PASSWORD_LENGTH,
};
use crate::zone::{spec_resolve, strip_root_dot, Fqdn};
use crate::crypto::pem_key_valid;

verus! {

/// The largest accepted public-key upload, in characters.
pub const KEY_SIZE_LIMIT: usize = 10240;

/// The credentials bundle handed back after a password account is
/// created; the routing layer renders it into the downloadable client
/// script.
pub struct CommandDownload {
    pub username: String,
    pub password: String,
}

impl CommandDownload {
    /// Bundles a user name and password.
    pub fn new(username: String, password: String) -> (r: Self)
        ensures
            r.username@ == username@,
            r.password@ == password@,
    {
        Self { username, password }
    }
}

/// The credentials carried by the client update program; the routing
/// layer renders it into the downloadable shell program.
pub struct FtDdnsProgram {
    pub username: String,
    pub password: String,
}

impl FtDdnsProgram {
    /// A program bundle with no credentials filled in.
    pub fn empty() -> (r: Self)
        ensures
            r.username@ == Seq::<char>::empty(),
            r.password@ == Seq::<char>::empty(),
    {
        Self { username: String::new(), password: String::new() }
    }
}

impl From<Credentials> for FtDdnsProgram {
    fn from(value: Credentials) -> (r: Self) {
        Self { username: value.username, password: value.password }
    }
}

impl vstd::std_specs::convert::FromSpecImpl<Credentials> for FtDdnsProgram {
    open spec fn obeys_from_spec() -> bool {
        true
    }

    open spec fn from_spec(value: Credentials) -> Self {
        FtDdnsProgram { username: value.username, password: value.password }
    }
}

/// The program bundle with no credentials, as served on a plain
/// download.
pub fn shell_program_empty() -> (r: FtDdnsProgram)
    ensures
        r.username@ == Seq::<char>::empty(),
        r.password@ == Seq::<char>::empty(),
{
    FtDdnsProgram::empty()
}

/// The program bundle carrying the submitted credentials.
pub fn shell_program(credentials: Credentials) -> (r: FtDdnsProgram)
    ensures
        r.username@ == credentials.username@,
        r.password@ == credentials.password@,
{
    FtDdnsProgram::from(credentials)
}

/// Creates a password account for `domain`: the domain must lie in a
/// zone enabled for dynamic DNS and must not be owned yet; a fresh
/// random secret is issued and only its hash is stored. On success the
/// credentials bundle is returned for the client to download.
pub fn add_password_domain(
    domain: &str,
    admin: &AdminAccount,
    route53: &Route53,
    store: &mut AccountStore,
    rng: &mut StdRng,
) -> (r: Result<CommandDownload, ClientResponse>)
    ensures
        ({
            let t = spec_trim(domain@);
            let f = strip_root_dot(t);
            if spec_resolve(route53@, f) is None {
                r matches Err(e) && e matches ClientResponse::NotAcceptable(_) && final(store)@
                    == old(store)@
            } else if spec_find_password(old(store)@.passwords, t) is Some || spec_find_signing(
                old(store)@.signings,
                t,
            ) is Some {
                r matches Err(e) && e matches ClientResponse::Conflict(_) && final(store)@ == old(store)@
            } else {
                r matches Ok(cd) && cd.username@ == t && cd.password@.len() == PASSWORD_LENGTH && (
                forall|i: int| 0 <= i < cd.password@.len() ==> is_alnum_char(#[trigger] cd.password@[i]))
                    && final(store)@.passwords.drop_last() == old(store)@.passwords && final(store)@.passwords.len() == old(store)@.passwords.len() + 1 && ({
                    let rec = final(store)@.passwords.last();
                    rec.domain@ == t && rec.created_by@ == admin@ && rec.disabled == Some(false)
                        && hash_wf(rec.password_hash@) && hash_matches(
                        cd.password@,
                        rec.password_hash@,
                    )
                }) && final(store)@.admins == old(store)@.admins && final(store)@.signings == old(store)@.signings
            }
        }),
{
    let trimmed = trim(domain);
    if !route53.domain_included(&Fqdn::new(trimmed)) {
        return Err(
            ClientResponse::NotAcceptable(
                String::from_str("The domain name provided is not available for dynamic DNS."),
            ),
        );
    }
    if domain_exists(trimmed, store) {
        return Err(
            ClientResponse::Conflict(String::from_str("The domain name provided is already in use.")),
        );
    }
    let (password, password_hash) = generate_random_password(rng);
    match PasswordAccount::create_account(trimmed, password_hash.as_str(), admin, store) {
        Ok(_) => {},
        Err(_) => {
            proof {
                assert(false);
            }
        },
    }
    Ok(CommandDownload::new(String::from_str(trimmed), password))
}

/// Creates a signing account for `domain` from an uploaded PEM public
/// key: the domain must lie in an enabled zone and be unowned, and the
/// key must be non-empty, within the size limit and parseable; an
/// invalid key is rejected at creation time.
pub fn add_signing_domain(
    domain: &str,
    public_key: &str,
    admin: &AdminAccount,
    route53: &Route53,
    store: &mut AccountStore,
) -> (r: ClientResponse)
    ensures
        ({
            let t = spec_trim(domain@);
            let f = strip_root_dot(t);
            if spec_resolve(route53@, f) is None {
                r matches ClientResponse::NotAcceptable(_) && final(store)@ == old(store)@
            } else if spec_find_password(old(store)@.passwords, t) is Some || spec_find_signing(
                old(store)@.signings,
                t,
            ) is Some {
                r matches ClientResponse::Conflict(_) && final(store)@ == old(store)@
            } else if public_key@.len() > KEY_SIZE_LIMIT {
                r matches ClientResponse::NotAcceptable(_) && final(store)@ == old(store)@
            } else if public_key@.len() == 0 {
                r matches ClientResponse::NotAcceptable(_) && final(store)@ == old(store)@
            } else if !pem_key_valid(public_key@) {
                r matches ClientResponse::BadRequest(_) && final(store)@ == old(store)@
            } else {
                r matches ClientResponse::Success(_) && final(store)@.signings.drop_last() == old(store)@.signings && final(store)@.signings.len() == old(store)@.signings.len() + 1 && ({
                    let rec = final(store)@.signings.last();
                    rec.domain@ == t && rec.public_key@ == public_key@ && rec.created_by@ == admin@
                        && rec.disabled == Some(false)
                }) && final(store)@.admins == old(store)@.admins && final(store)@.passwords == old(store)@.passwords
            }
        }),
{
    let trimmed = trim(domain);
    if !route53.domain_included(&Fqdn::new(trimmed)) {
        return ClientResponse::NotAcceptable(
            String::from_str("The domain name provided is not available for dynamic DNS."),
        );
    }
    if domain_exists(trimmed, store) {
        return ClientResponse::Conflict(
            String::from_str("The domain name provided is already in use."),
        );
    }
    if public_key.unicode_len() > KEY_SIZE_LIMIT {
        return ClientResponse::NotAcceptable(
            String::from_str("The public key uploaded can't be over 10KB in size."),
        );
    }
    if public_key.is_empty() {
        return ClientResponse::NotAcceptable(
            String::from_str("The public key uploaded can't be empty."),
        );
    }
    match SigningAccount::create_account(trimmed, public_key, admin, store) {
        Ok(_) => ClientResponse::Success(String::new()),
        Err(StoreError::InvalidKey) => ClientResponse::BadRequest(
            String::from_str("The public key provided is not a valid PEM public key."),
        ),
        Err(_) => {
            proof {
                assert(false);
            }
            ClientResponse::InternalServerError(String::new())
        },
    }
}

/// Creates a further admin account from submitted credentials. Only the
/// bootstrap `admin` user may do this; a taken user name is rejected.
pub fn new_admin(
    credentials: Credentials,
    admin: &AdminAccount,
    store: &mut AccountStore,
    rng: &mut StdRng,
) -> (r: ClientResponse)
    ensures
        ({
            if admin@ != "admin"@ {
                r matches ClientResponse::Unauthorized(_) && final(store)@ == old(store)@
            } else if spec_find_admin(old(store)@.admins, credentials.username@) is Some {
                r matches ClientResponse::Conflict(_) && final(store)@ == old(store)@
            } else {
                r matches ClientResponse::Success(_) && r.spec_message() == "Account "@
                    + credentials.username@ + " created."@ && final(store)@.admins.drop_last()
                    == old(store)@.admins && final(store)@.admins.len() == old(store)@.admins.len()
                    + 1 && ({
                    let rec = final(store)@.admins.last();
                    rec.user@ == credentials.username@ && hash_wf(rec.password_hash@)
                        && hash_matches(credentials.password@, rec.password_hash@)
                }) && final(store)@.passwords == old(store)@.passwords && final(store)@.signings
                    == old(store)@.signings
            }
        }),
{
    if !str_eq(admin.get_user(), "admin") {
        return ClientResponse::Unauthorized(
            String::from_str("Your user is not allowed to execute this operation."),
        );
    }
    let password_hash = crate::utils::hash_secret(credentials.password.as_str(), rng);
    match store.create_admin(credentials.username.as_str(), password_hash.as_str()) {
        Ok(_) => {
            let mut message = String::from_str("Account ");
            message.append(credentials.username.as_str());
            message.append(" created.");
            ClientResponse::Success(message)
        },
        Err(_) => ClientResponse::Conflict(
            String::from_str("This username already has an account."),
        ),
    }
}

/// Creates the bootstrap `admin` account if it is absent, hashing the
/// externally supplied secret; creating it twice is harmless. Returns
/// whether the account was created now.
pub fn bootstrap_admin_user(store: &mut AccountStore, password: &str, rng: &mut StdRng) -> (r: bool)
    ensures
        spec_find_admin(old(store)@.admins, "admin"@) is Some ==> !r && final(store)@ == old(store)@,
        spec_find_admin(old(store)@.admins, "admin"@) is None ==> r && final(store)@.admins.drop_last() == old(store)@.admins && final(store)@.admins.len() == old(store)@.admins.len() + 1 && ({
            let rec = final(store)@.admins.last();
            rec.user@ == "admin"@ && hash_wf(rec.password_hash@) && hash_matches(
                password@,
                rec.password_hash@,
            )
        }) && final(store)@.passwords == old(store)@.passwords && final(store)@.signings == old(store)@.signings,
{
    let password_hash = crate::utils::hash_secret(password, rng);
    match store.create_admin("admin", password_hash.as_str()) {
        Ok(_) => true,
        Err(_) => false,
    }
}

/// Plans the record update requested by an authenticated domain-owning
/// principal: the principal's domain, normalized, is pointed at the
/// client-observed address. The caller submits the returned change to
/// the provider.
pub fn set_record<A: Account>(account: &A, ip: &IP, route53: &Route53) -> (r: Result<
    ChangeRequest,
    ClientResponse,
>)
    ensures
        match r {
            Ok(c) => upsert_plan(route53@, strip_root_dot(account.domain_view()), ip@, c),
            Err(e) => spec_resolve(route53@, strip_root_dot(account.domain_view())) is None
                && e matches ClientResponse::NotAcceptable(_),
        },
{
    route53.upsert_a_resource_record(&Fqdn::new(account.get_domain()), ip.get())
}

} // verus!
