//! Planning of idempotent A-record upserts against the authoritative
//! DNS provider. The library resolves the zone and fixes the exact
//! change to submit; the caller performs the provider call and maps its
//! outcome back through `send_outcome`.

use vstd::prelude::*;

use crate::client_response::ClientResponse;
use crate::ip::Ipv4;
use crate::zone::{spec_resolve, Fqdn, ZoneResolver};

verus! {

/// The time-to-live, in seconds, of every record this service writes.
pub const RECORD_TTL: u32 = 180;

/// One idempotent A-record upsert, fully determined by the zone, the
/// record name and the address: submitting it twice leaves the same
/// record as submitting it once.
pub struct ChangeRequest {
    /// The provider-side identifier of the hosted zone changed.
    pub zone_id: String,
    /// The fully-qualified name of the A record.
    pub record_name: String,
    /// The address the record points at.
    pub ip: Ipv4,
    /// The record's time-to-live in seconds; always `RECORD_TTL`.
    pub ttl: u32,
}

/// What a planned change holds: the identifier of the zone that
/// `domain` resolves to, the domain itself as record name, the given
/// address and the fixed time-to-live.
pub open spec fn upsert_plan(
    zones: Seq<(Seq<char>, Seq<char>)>,
    domain: Seq<char>,
    ip: Ipv4,
    c: ChangeRequest,
) -> bool {
    &&& spec_resolve(zones, domain) matches Some(b) && c.zone_id@ == b.1
    &&& c.record_name@ == domain
    &&& c.ip == ip
    &&& c.ttl == RECORD_TTL
}

/// The provider connection's verified side: the zone mapping and the
/// planning of record changes.
pub struct Route53 {
    resolver: ZoneResolver,
}

impl View for Route53 {
    type V = Seq<(Seq<char>, Seq<char>)>;

    closed spec fn view(&self) -> Seq<(Seq<char>, Seq<char>)> {
        self.resolver@
    }
}

impl Route53 {
    /// Wraps the zone resolver built at startup.
    pub fn new(resolver: ZoneResolver) -> (r: Route53)
        ensures
            r@ == resolver@,
    {
        Route53 { resolver }
    }

    /// Whether `domain` lies inside some hosted zone that is enabled
    /// for dynamic DNS.
    pub fn domain_included(&self, domain: &Fqdn) -> (r: bool)
        ensures
            r == (spec_resolve(self@, domain@) is Some),
    {
        self.resolver.domain_included(domain)
    }

    /// Plans the idempotent upsert of an A record for `domain`. When the
    /// domain resolves to no enabled zone the request is rejected as not
    /// acceptable without any provider contact; otherwise the exact
    /// change to submit is returned.
    pub fn upsert_a_resource_record(&self, domain: &Fqdn, ip: Ipv4) -> (r: Result<
        ChangeRequest,
        ClientResponse,
    >)
        ensures
            match r {
                Ok(c) => upsert_plan(self@, domain@, ip, c),
                Err(e) => spec_resolve(self@, domain@) is None && e matches
                    ClientResponse::NotAcceptable(_),
            },
    {
        match self.resolver.resolve(domain) {
            None => Err(
                ClientResponse::NotAcceptable(
                    String::from_str(
                        "The domain requested is not in any hosted zone that is enabled for dynamic DNS.",
                    ),
                ),
            ),
            Some(zone_id) => Ok(
                ChangeRequest {
                    zone_id,
                    record_name: String::from_str(domain.as_str()),
                    ip,
                    ttl: RECORD_TTL,
                },
            ),
        }
    }
}

/// Maps the outcome of the provider call that submitted a planned
/// change: success becomes the confirmation, and any transport or
/// service failure becomes `ServiceUnavailable`, with detail left to the
/// caller's log.
pub fn send_outcome(sent: bool) -> (r: ClientResponse)
    ensures
        sent <==> r is Success,
        sent ==> r.spec_message() == "Record updated on AWS Route 53."@,
        !sent ==> r matches ClientResponse::ServiceUnavailable(_),
{
    if sent {
        ClientResponse::Success(String::from_str("Record updated on AWS Route 53."))
    } else {
        ClientResponse::ServiceUnavailable(
            String::from_str("Failed to submit domain change to Route53."),
        )
    }
}

/// Idempotence of the upsert plan: two changes planned from the same
/// zones, domain and address are the same change.
pub proof fn lemma_upsert_idempotent(
    zones: Seq<(Seq<char>, Seq<char>)>,
    domain: Seq<char>,
    ip: Ipv4,
    c1: ChangeRequest,
    c2: ChangeRequest,
)
    requires
        upsert_plan(zones, domain, ip, c1),
        upsert_plan(zones, domain, ip, c2),
    ensures
        c1.zone_id@ == c2.zone_id@,
        c1.record_name@ == c2.record_name@,
        c1.ip == c2.ip,
        c1.ttl == c2.ttl,
{
}

} // verus!
