//! Signature authentication: one pass over an inbound signed request,
//! terminal on the first failure. The three header values are checked
//! for presence, the timestamp for RFC 3339 form and freshness within a
//! replay window, the domain for a stored public key, the signature for
//! base64 form, and finally the signature bytes are verified over the
//! exact message `"{date};{domain}"`.

use vstd::prelude::*;

use base64::prelude::{Engine, BASE64_STANDARD};

use crate::account::{spec_find_signing, AccountStore, SigningAccount};
use crate::crypto::{sig_ok, verify_signature};

verus! {

/// The freshness margin around the server's clock, in seconds: a
/// timestamp within `now` plus or minus this many seconds is accepted,
/// boundary included.
pub const SIGNATURE_TIME_MARGIN: i64 = 60;

/// The epoch seconds that `chrono::DateTime::parse_from_rfc3339` reads
/// from `s`, or `None` when `s` is not an RFC 3339 date-time.
/// Deterministic in the text alone.
pub uninterp spec fn rfc3339_epoch(s: Seq<char>) -> Option<i64>;

/// The bytes that standard base64 decoding reads from `s`, or `None`
/// when `s` is not valid base64. Deterministic in the text alone.
pub uninterp spec fn b64_decoded(s: Seq<char>) -> Option<Seq<u8>>;

/// Relies on `chrono::DateTime::parse_from_rfc3339` and
/// `DateTime::timestamp`: parsing succeeds or fails, and yields the same
/// epoch seconds, as a function of the text alone.
#[verifier::external_body]
fn parse_rfc3339_epoch(s: &str) -> (r: Option<i64>)
    ensures
        r == rfc3339_epoch(s@),
{
    chrono::DateTime::parse_from_rfc3339(s).ok().map(|d| d.timestamp())
}

/// Relies on `base64::prelude::BASE64_STANDARD` decoding: it succeeds or
/// fails, and yields the same bytes, as a function of the text alone.
#[verifier::external_body]
fn base64_decode(s: &str) -> (r: Option<Vec<u8>>)
    ensures
        (r is Some) == (b64_decoded(s@) is Some),
        r matches Some(v) ==> b64_decoded(s@) == Some(v@),
{
    BASE64_STANDARD.decode(s.as_bytes()).ok()
}

/// The exact byte-for-byte message a client signs: the date header as
/// received, a semicolon, and the domain header as received.
pub open spec fn signed_message(date: Seq<char>, domain: Seq<char>) -> Seq<char> {
    date + seq![';'] + domain
}

/// The failure kinds of signature authentication, one per terminal
/// state; every rejected request is attributable to exactly one.
#[derive(Debug, PartialEq, Eq)]
pub enum SignatureAuthError {
    /// Not all of the date, domain and signature headers were present.
    MissingHeaders,
    /// The date header is not an RFC 3339 date-time.
    MalformedTimestamp,
    /// The timestamp lies more than the margin after the server's clock.
    TimestampInFuture,
    /// The timestamp lies more than the margin before the server's clock.
    TimestampExpired,
    /// No enabled signing account owns the claimed domain.
    DomainNotFound,
    /// The signature header is not valid base64.
    MalformedSignature,
    /// The signature bytes do not verify under the stored public key.
    SignatureInvalid,
}

/// Authenticates a signed update request from its three header values,
/// the server's clock reading `now` (epoch seconds) and the stored
/// signing accounts. On success yields the authenticated domain.
///
/// A disabled signing account is treated as absent. The clock bounds
/// keep the margin arithmetic inside the machine's integer range.
pub fn authenticate_signed(
    store: &AccountStore,
    date: Option<&str>,
    domain: Option<&str>,
    signature: Option<&str>,
    now: i64,
) -> (r: Result<SigningAccount, SignatureAuthError>)
    requires
        i64::MIN + SIGNATURE_TIME_MARGIN <= now <= i64::MAX - SIGNATURE_TIME_MARGIN,
    ensures
        match (date, domain, signature) {
            (Some(ds), Some(dom), Some(sg)) => match rfc3339_epoch(ds@) {
            Option::None => r == Err::<SigningAccount, SignatureAuthError>(
                SignatureAuthError::MalformedTimestamp,
            ),
            Option::Some(t) => if t > now + SIGNATURE_TIME_MARGIN {
                r == Err::<SigningAccount, SignatureAuthError>(
                    SignatureAuthError::TimestampInFuture,
                )
            } else if t < now - SIGNATURE_TIME_MARGIN {
                r == Err::<SigningAccount, SignatureAuthError>(SignatureAuthError::TimestampExpired)
            } else {
                match spec_find_signing(store@.signings, dom@) {
                    Option::None => r == Err::<SigningAccount, SignatureAuthError>(
                        SignatureAuthError::DomainNotFound,
                    ),
                    Option::Some(rec) => if rec.disabled == Some(true) {
                        r == Err::<SigningAccount, SignatureAuthError>(
                            SignatureAuthError::DomainNotFound,
                        )
                    } else {
                        match b64_decoded(sg@) {
                            Option::None => r == Err::<SigningAccount, SignatureAuthError>(
                                SignatureAuthError::MalformedSignature,
                            ),
                            Option::Some(bits) => (r is Ok) == sig_ok(
                                rec.public_key@,
                                bits,
                                signed_message(ds@, dom@),
                            ) && (r matches Ok(a) ==> a@ == dom@) && (r matches Err(e) ==> e
                                == SignatureAuthError::SignatureInvalid),
                        }
                    },
                }
            },
            },
            _ => r == Err::<SigningAccount, SignatureAuthError>(
                SignatureAuthError::MissingHeaders,
            ),
        },
{
    let ds = match date {
        None => { return Err(SignatureAuthError::MissingHeaders) },
        Some(x) => x,
    };
    let dom = match domain {
        None => { return Err(SignatureAuthError::MissingHeaders) },
        Some(x) => x,
    };
    let sg = match signature {
        None => { return Err(SignatureAuthError::MissingHeaders) },
        Some(x) => x,
    };
    let t = match parse_rfc3339_epoch(ds) {
        None => { return Err(SignatureAuthError::MalformedTimestamp) },
        Some(t) => t,
    };
    if t > now + SIGNATURE_TIME_MARGIN {
        return Err(SignatureAuthError::TimestampInFuture);
    }
    if t < now - SIGNATURE_TIME_MARGIN {
        return Err(SignatureAuthError::TimestampExpired);
    }
    let rec = match store.find_signing_account(dom) {
        None => { return Err(SignatureAuthError::DomainNotFound) },
        Some(rec) => rec,
    };
    if let Some(true) = rec.disabled {
        return Err(SignatureAuthError::DomainNotFound);
    }
    let bits = match base64_decode(sg) {
        None => { return Err(SignatureAuthError::MalformedSignature) },
        Some(v) => v,
    };
    let mut msg = String::from_str(ds);
    msg.append(";");
    msg.append(dom);
    proof {
        reveal_strlit(";");
        assert(";"@ =~= seq![';']);
        assert(msg@ == signed_message(ds@, dom@));
    }
    if verify_signature(rec.public_key.as_str(), &bits, msg.as_str()) {
        Ok(SigningAccount::from_domain(String::from_str(dom)))
    } else {
        Err(SignatureAuthError::SignatureInvalid)
    }
}

} // verus!
