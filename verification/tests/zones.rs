//! Tests of the zone resolver: allow-list binding and longest-suffix
//! resolution.

use ft_ddns::zone::{Fqdn, ZoneEntry, ZoneResolver};

fn entry(name: &str, id: &str) -> ZoneEntry {
    ZoneEntry { name: name.to_string(), id: id.to_string() }
}

#[test]
fn binds_zones_whose_id_contains_an_allow_entry() {
    let fetched = vec![
        entry("example.com.", "/hostedzone/Z0EXAMPLE"),
        entry("other.org.", "/hostedzone/Z0OTHER"),
    ];
    let allow = vec!["Z0EXAMPLE".to_string()];
    let (resolver, leftover) = ZoneResolver::build(&fetched, allow);
    assert!(leftover.is_empty());
    assert_eq!(
        resolver.resolve(&Fqdn::new("example.com")),
        Some("/hostedzone/Z0EXAMPLE".to_string())
    );
    assert_eq!(resolver.resolve(&Fqdn::new("other.org")), None);
}

#[test]
fn unmatched_allow_entries_are_reported() {
    let fetched = vec![entry("example.com.", "/hostedzone/Z0EXAMPLE")];
    let allow = vec!["Z0EXAMPLE".to_string(), "Z0MISSING".to_string()];
    let (_, leftover) = ZoneResolver::build(&fetched, allow);
    assert_eq!(leftover, vec!["Z0MISSING".to_string()]);
}

#[test]
fn subdomain_resolves_to_the_same_zone_as_the_zone_itself() {
    let fetched = vec![entry("example.com.", "/hostedzone/Z0EXAMPLE")];
    let (resolver, _) = ZoneResolver::build(&fetched, vec!["Z0EXAMPLE".to_string()]);
    let at_zone = resolver.resolve(&Fqdn::new("example.com"));
    let below = resolver.resolve(&Fqdn::new("a.b.example.com"));
    assert_eq!(at_zone, Some("/hostedzone/Z0EXAMPLE".to_string()));
    assert_eq!(below, at_zone);
}

#[test]
fn name_that_merely_ends_with_the_zone_text_does_not_resolve() {
    let fetched = vec![entry("example.com.", "/hostedzone/Z0EXAMPLE")];
    let (resolver, _) = ZoneResolver::build(&fetched, vec!["Z0EXAMPLE".to_string()]);
    assert_eq!(resolver.resolve(&Fqdn::new("notexample.com")), None);
    assert!(!resolver.domain_included(&Fqdn::new("notexample.com")));
    assert!(resolver.domain_included(&Fqdn::new("host.example.com")));
}

#[test]
fn longest_suffix_wins() {
    let fetched = vec![
        entry("example.com.", "/hostedzone/Z0BROAD"),
        entry("sub.example.com.", "/hostedzone/Z0NARROW"),
    ];
    let allow = vec!["Z0BROAD".to_string(), "Z0NARROW".to_string()];
    let (resolver, leftover) = ZoneResolver::build(&fetched, allow);
    assert!(leftover.is_empty());
    assert_eq!(
        resolver.resolve(&Fqdn::new("host.sub.example.com")),
        Some("/hostedzone/Z0NARROW".to_string())
    );
    assert_eq!(
        resolver.resolve(&Fqdn::new("host.example.com")),
        Some("/hostedzone/Z0BROAD".to_string())
    );
}

#[test]
fn first_allow_match_wins_and_is_consumed() {
    // Both allow entries occur in the first zone's identifier; the first
    // one is consumed, leaving the second for the next zone.
    let fetched = vec![
        entry("a.net.", "/hostedzone/AABB"),
        entry("b.net.", "/hostedzone/BBCC"),
    ];
    let allow = vec!["AA".to_string(), "BB".to_string()];
    let (resolver, leftover) = ZoneResolver::build(&fetched, allow);
    assert!(leftover.is_empty());
    assert_eq!(resolver.resolve(&Fqdn::new("a.net")), Some("/hostedzone/AABB".to_string()));
    assert_eq!(resolver.resolve(&Fqdn::new("b.net")), Some("/hostedzone/BBCC".to_string()));
}

#[test]
fn matching_ignores_ascii_case() {
    let fetched = vec![entry("Example.COM.", "/hostedzone/Z0EXAMPLE")];
    let (resolver, leftover) = ZoneResolver::build(&fetched, vec!["Z0EXAMPLE".to_string()]);
    assert!(leftover.is_empty());
    assert_eq!(
        resolver.resolve(&Fqdn::new("Host.EXAMPLE.com")),
        Some("/hostedzone/Z0EXAMPLE".to_string())
    );
    assert!(resolver.domain_included(&Fqdn::new("host.example.com")));
    assert_eq!(resolver.resolve(&Fqdn::new("notexample.COM")), None);
}

#[test]
fn trailing_root_dot_is_normalized_away() {
    let fetched = vec![entry("example.com.", "/hostedzone/Z0EXAMPLE")];
    let (resolver, _) = ZoneResolver::build(&fetched, vec!["Z0EXAMPLE".to_string()]);
    assert_eq!(
        resolver.resolve(&Fqdn::new("host.example.com.")),
        Some("/hostedzone/Z0EXAMPLE".to_string())
    );
}
