//! Zone resolution: an immutable mapping from fully-qualified domain
//! names to provider-side zone identifiers, queried by longest-suffix
//! match over domain labels.

use vstd::prelude::*;

use crate::text::{is_substring_of, str_contains};

verus! {

/// `s` with one trailing root dot removed, as provider zone listings
/// render absolute names.
pub open spec fn strip_root_dot(s: Seq<char>) -> Seq<char> {
    if s.len() > 0 && s[s.len() - 1] == '.' {
        s.drop_last()
    } else {
        s
    }
}

/// A fully-qualified domain name in its relative rendering: no trailing
/// root dot.
pub struct Fqdn {
    name: String,
}

impl View for Fqdn {
    type V = Seq<char>;

    closed spec fn view(&self) -> Seq<char> {
        self.name@
    }
}

impl Fqdn {
    /// Normalizes a domain name: one trailing root dot, if present, is
    /// removed.
    pub fn new(s: &str) -> (r: Fqdn)
        ensures
            r@ == strip_root_dot(s@),
    {
        let len = s.unicode_len();
        if len > 0 && s.get_char(len - 1) == '.' {
            let stripped = s.substring_char(0, len - 1);
            proof {
                assert(stripped@ =~= s@.drop_last());
            }
            Fqdn { name: String::from_str(stripped) }
        } else {
            Fqdn { name: String::from_str(s) }
        }
    }

    /// The domain name as a string slice.
    pub fn as_str(&self) -> (r: &str)
        ensures
            r@ == self@,
    {
        self.name.as_str()
    }
}

impl Clone for Fqdn {
    fn clone(&self) -> (r: Self)
        ensures
            r@ == self@,
    {
        Fqdn { name: self.name.clone() }
    }
}

/// Whether `domain` is exactly `zone` or ends with `"." + zone`:
/// `zone` is a suffix of `domain` on a label boundary, compared
/// character for character.
pub open spec fn label_suffix(domain: Seq<char>, zone: Seq<char>) -> bool {
    domain == zone || (domain.len() > zone.len() && domain[domain.len() - zone.len() - 1] == '.'
        && domain.subrange(domain.len() - zone.len(), domain.len() as int) == zone)
}

/// An ASCII upper-case letter folded to lower case; every other
/// character unchanged. Domain names compare case-insensitively.
pub open spec fn lower_char(c: char) -> char {
    if 'A' <= c && c <= 'Z' {
        (((c as u8) + 32) as u8) as char
    } else {
        c
    }
}

/// `s` with every ASCII upper-case letter folded to lower case.
pub open spec fn to_lower(s: Seq<char>) -> Seq<char> {
    Seq::new(s.len(), |i: int| lower_char(s[i]))
}

/// Whether `domain` is `zone` itself or a subdomain of it: `zone` is a
/// label-boundary suffix of `domain`, compared case-insensitively over
/// ASCII, as domain names compare.
pub open spec fn suffix_matches(domain: Seq<char>, zone: Seq<char>) -> bool {
    label_suffix(to_lower(domain), to_lower(zone))
}

/// Folds one character to lower case.
fn fold_char(c: char) -> (r: char)
    ensures
        r == lower_char(c),
{
    if 'A' <= c && c <= 'Z' {
        ((c as u8) + 32) as char
    } else {
        c
    }
}

/// Compares two string slices case-insensitively over ASCII.
fn str_eq_fold(a: &str, b: &str) -> (r: bool)
    ensures
        r == (to_lower(a@) == to_lower(b@)),
{
    let al = a.unicode_len();
    let bl = b.unicode_len();
    if al != bl {
        assert(to_lower(a@).len() != to_lower(b@).len());
        return false;
    }
    let mut i: usize = 0;
    while i < al
        invariant
            0 <= i <= al,
            al == a@.len(),
            al == b@.len(),
            forall|j: int| 0 <= j < i ==> lower_char(a@[j]) == lower_char(b@[j]),
        decreases al - i,
    {
        if fold_char(a.get_char(i)) != fold_char(b.get_char(i)) {
            assert(to_lower(a@)[i as int] != to_lower(b@)[i as int]);
            return false;
        }
        i = i + 1;
    }
    proof {
        assert(to_lower(a@) =~= to_lower(b@));
    }
    true
}

/// Whether the folded characters of `needle` occur in the folded
/// characters of `hay` starting at position `at`.
fn matches_at_fold(hay: &str, needle: &str, at: usize) -> (r: bool)
    requires
        at + needle@.len() <= hay@.len(),
    ensures
        r == (to_lower(hay@).subrange(at as int, at + needle@.len() as int) == to_lower(needle@)),
{
    let hl = hay.unicode_len();
    let nl = needle.unicode_len();
    let mut j: usize = 0;
    while j < nl
        invariant
            0 <= j <= nl,
            nl == needle@.len(),
            hl == hay@.len(),
            at + nl <= hl,
            forall|k: int| 0 <= k < j ==> lower_char(hay@[at + k]) == lower_char(needle@[k]),
        decreases nl - j,
    {
        if fold_char(hay.get_char(at + j)) != fold_char(needle.get_char(j)) {
            assert(to_lower(hay@).subrange(at as int, at + needle@.len() as int)[j as int]
                != to_lower(needle@)[j as int]);
            return false;
        }
        j = j + 1;
    }
    proof {
        assert(to_lower(hay@).subrange(at as int, at + needle@.len() as int) =~= to_lower(
            needle@,
        ));
    }
    true
}

/// Decides whether `domain` equals `zone` or is a subdomain of it,
/// comparing case-insensitively.
pub fn is_suffix_match(domain: &str, zone: &str) -> (r: bool)
    ensures
        r == suffix_matches(domain@, zone@),
{
    let dl = domain.unicode_len();
    let zl = zone.unicode_len();
    proof {
        assert(to_lower(domain@).len() == dl);
        assert(to_lower(zone@).len() == zl);
    }
    if dl == zl {
        str_eq_fold(domain, zone)
    } else if dl > zl {
        if fold_char(domain.get_char(dl - zl - 1)) == '.' {
            matches_at_fold(domain, zone, dl - zl)
        } else {
            assert(to_lower(domain@)[dl - zl - 1] != '.');
            false
        }
    } else {
        false
    }
}

/// One zone bound by the resolver: the zone's domain name and the
/// provider-side identifier of the hosted zone.
pub struct BoundZone {
    pub name: Fqdn,
    pub id: String,
}

/// An immutable mapping from domain names to provider zone identifiers,
/// built once at startup and read-only afterwards.
pub struct ZoneResolver {
    zones: Vec<BoundZone>,
}

impl View for ZoneResolver {
    type V = Seq<(Seq<char>, Seq<char>)>;

    closed spec fn view(&self) -> Seq<(Seq<char>, Seq<char>)> {
        Seq::new(self.zones@.len(), |i: int| (self.zones@[i].name@, self.zones@[i].id@))
    }
}

/// The bound zone that `domain` resolves to: the entry whose name is the
/// longest suffix match for `domain`; among entries of equal name the one
/// bound last wins, as a later binding of the same name replaces an
/// earlier one.
pub open spec fn spec_resolve(zones: Seq<(Seq<char>, Seq<char>)>, domain: Seq<char>) -> Option<
    (Seq<char>, Seq<char>),
>
    decreases zones.len(),
{
    if zones.len() == 0 {
        None
    } else {
        let rest = spec_resolve(zones.drop_last(), domain);
        if suffix_matches(domain, zones.last().0) {
            match rest {
                Option::None => Some(zones.last()),
                Option::Some(best) => if zones.last().0.len() >= best.0.len() {
                    Some(zones.last())
                } else {
                    Some(best)
                },
            }
        } else {
            rest
        }
    }
}

impl ZoneResolver {
    /// Resolves `domain` to the identifier of the zone whose name is the
    /// longest suffix match, or `None` when no bound zone contains it.
    pub fn resolve(&self, domain: &Fqdn) -> (r: Option<String>)
        ensures
            match r {
                None => spec_resolve(self@, domain@) is None,
                Some(id) => spec_resolve(self@, domain@) matches Some(b) && id@ == b.1,
            },
    {
        let n = self.zones.len();
        let mut best: Option<usize> = None;
        let mut best_len: usize = 0;
        proof {
            assert(self@.take(0) =~= Seq::<(Seq<char>, Seq<char>)>::empty());
        }
        let mut i: usize = 0;
        while i < n
            invariant
                0 <= i <= n,
                n == self.zones@.len(),
                self@.len() == n,
                forall|j: int|
                    0 <= j < n ==> #[trigger] self@[j] == (self.zones@[j].name@, self.zones@[j].id@),
                match best {
                    None => spec_resolve(self@.take(i as int), domain@) is None,
                    Some(b) => b < i && spec_resolve(self@.take(i as int), domain@) == Some(
                        self@[b as int],
                    ) && best_len == self@[b as int].0.len(),
                },
            decreases n - i,
        {
            proof {
                assert(self@.take(i + 1).drop_last() =~= self@.take(i as int));
                assert(self@.take(i + 1).last() == self@[i as int]);
            }
            let name_str = self.zones[i].name.as_str();
            if is_suffix_match(domain.as_str(), name_str) {
                let nlen = name_str.unicode_len();
                match best {
                    None => {
                        best = Some(i);
                        best_len = nlen;
                    },
                    Some(_) => {
                        if nlen >= best_len {
                            best = Some(i);
                            best_len = nlen;
                        }
                    },
                }
            }
            i = i + 1;
        }
        proof {
            assert(self@.take(n as int) =~= self@);
        }
        match best {
            None => None,
            Some(b) => Some(self.zones[b].id.clone()),
        }
    }

    /// Whether `domain` is equal to or a subdomain of some bound zone.
    pub fn domain_included(&self, domain: &Fqdn) -> (r: bool)
        ensures
            r == (spec_resolve(self@, domain@) is Some),
    {
        self.resolve(domain).is_some()
    }
}

/// One entry of the provider's zone listing: the zone's domain name, as
/// rendered by the provider, and its opaque zone identifier.
pub struct ZoneEntry {
    pub name: String,
    pub id: String,
}

/// The character sequences of a sequence of strings.
pub open spec fn strings_view(s: Seq<String>) -> Seq<Seq<char>> {
    Seq::new(s.len(), |i: int| s[i]@)
}

/// The (name, identifier) character sequences of a zone listing.
pub open spec fn zone_entries_view(s: Seq<ZoneEntry>) -> Seq<(Seq<char>, Seq<char>)> {
    Seq::new(s.len(), |i: int| (s[i].name@, s[i].id@))
}

/// The first index in `allow` whose entry occurs inside `id`, scanning
/// from the front.
pub open spec fn spec_first_match(allow: Seq<Seq<char>>, id: Seq<char>) -> Option<int>
    decreases allow.len(),
{
    if allow.len() == 0 {
        None
    } else if is_substring_of(allow[0], id) {
        Some(0)
    } else {
        match spec_first_match(allow.drop_first(), id) {
            Option::None => None,
            Option::Some(j) => Some(j + 1),
        }
    }
}

/// What the first-match scan returns: `None` exactly when no allow-list
/// entry occurs in `id`, and otherwise the least index of one that does.
pub proof fn lemma_first_match_characterization(allow: Seq<Seq<char>>, id: Seq<char>)
    ensures
        (spec_first_match(allow, id) is None) <==> (forall|k: int|
            0 <= k < allow.len() ==> !is_substring_of(#[trigger] allow[k], id)),
        spec_first_match(allow, id) matches Some(j) ==> 0 <= j < allow.len()
            && is_substring_of(allow[j], id) && (forall|k: int|
            0 <= k < j ==> !is_substring_of(#[trigger] allow[k], id)),
    decreases allow.len(),
{
    if allow.len() > 0 {
        let rest = allow.drop_first();
        lemma_first_match_characterization(rest, id);
        assert(forall|k: int| 0 <= k < rest.len() ==> #[trigger] rest[k] == allow[k + 1]);
        if !is_substring_of(allow[0], id) {
            assert forall|k: int| 0 <= k < rest.len() && !is_substring_of(
                #[trigger] allow[k + 1],
                id,
            ) implies !is_substring_of(rest[k], id) by {}
            match spec_first_match(rest, id) {
                Option::None => {
                    assert forall|k: int| 0 <= k < allow.len() implies !is_substring_of(
                        #[trigger] allow[k],
                        id,
                    ) by {
                        if k > 0 {
                            assert(rest[k - 1] == allow[k]);
                        }
                    }
                },
                Option::Some(j) => {
                    assert(spec_first_match(allow, id) == Some(j + 1));
                    assert(allow[j + 1] == rest[j]);
                    assert forall|k: int| 0 <= k < j + 1 implies !is_substring_of(
                        #[trigger] allow[k],
                        id,
                    ) by {
                        if k > 0 {
                            assert(rest[k - 1] == allow[k]);
                            assert(!is_substring_of(rest[k - 1], id));
                        }
                    }
                },
            }
            if forall|k: int| 0 <= k < allow.len() ==> !is_substring_of(#[trigger] allow[k], id) {
                assert forall|k: int| 0 <= k < rest.len() implies !is_substring_of(
                    #[trigger] rest[k],
                    id,
                ) by {
                    assert(rest[k] == allow[k + 1]);
                    assert(!is_substring_of(allow[k + 1], id));
                }
                assert(spec_first_match(rest, id) is None);
            }
        }
    }
}

/// Finds the first allow-list entry that occurs inside `id`.
fn find_first_match(allow: &Vec<String>, id: &str) -> (r: Option<usize>)
    ensures
        match r {
            None => spec_first_match(strings_view(allow@), id@) is None,
            Some(j) => j < allow@.len() && spec_first_match(strings_view(allow@), id@) == Some(
                j as int,
            ),
        },
{
    let n = allow.len();
    let mut i: usize = 0;
    while i < n
        invariant
            0 <= i <= n,
            n == allow@.len(),
            forall|k: int|
                0 <= k < i ==> !is_substring_of(#[trigger] strings_view(allow@)[k], id@),
        decreases n - i,
    {
        if str_contains(id, allow[i].as_str()) {
            proof {
                lemma_first_match_characterization(strings_view(allow@), id@);
                assert(is_substring_of(strings_view(allow@)[i as int], id@));
            }
            return Some(i);
        }
        i = i + 1;
    }
    proof {
        lemma_first_match_characterization(strings_view(allow@), id@);
    }
    None
}

/// The zones bound and the allow-list entries left over when the fetched
/// listing is folded, in order, over the allow list: a fetched zone whose
/// identifier contains some remaining allow-list entry is bound under its
/// normalized name, and the first such entry is consumed; first match
/// wins.
pub open spec fn spec_build(
    fetched: Seq<(Seq<char>, Seq<char>)>,
    allow: Seq<Seq<char>>,
) -> (Seq<(Seq<char>, Seq<char>)>, Seq<Seq<char>>)
    decreases fetched.len(),
{
    if fetched.len() == 0 {
        (Seq::<(Seq<char>, Seq<char>)>::empty(), allow)
    } else {
        let f = fetched[0];
        match spec_first_match(allow, f.1) {
            Option::Some(j) => {
                let rest = spec_build(fetched.drop_first(), allow.remove(j));
                (seq![(strip_root_dot(f.0), f.1)] + rest.0, rest.1)
            },
            Option::None => spec_build(fetched.drop_first(), allow),
        }
    }
}

impl ZoneResolver {
    /// Builds the resolver from the provider's zone listing and the
    /// configured allow list of zone identifiers. Each fetched zone whose
    /// identifier contains a remaining allow-list entry is bound, and
    /// that entry is consumed; entries left over are returned so the
    /// caller can report them as configuration errors.
    pub fn build(fetched: &Vec<ZoneEntry>, allow: Vec<String>) -> (r: (ZoneResolver, Vec<String>))
        ensures
            ({
                let sb = spec_build(zone_entries_view(fetched@), strings_view(allow@));
                r.0@ == sb.0 && strings_view(r.1@) == sb.1
            }),
    {
        let ghost fv = zone_entries_view(fetched@);
        let ghost av0 = strings_view(allow@);
        let mut zones: Vec<BoundZone> = Vec::new();
        let mut remaining = allow;
        let n = fetched.len();
        proof {
            assert(fv.skip(0) =~= fv);
        }
        let mut k: usize = 0;
        while k < n
            invariant
                0 <= k <= n,
                n == fetched@.len(),
                fv == zone_entries_view(fetched@),
                spec_build(fv, av0).0 == Seq::new(
                    zones@.len(),
                    |i: int| (zones@[i].name@, zones@[i].id@),
                ) + spec_build(fv.skip(k as int), strings_view(remaining@)).0,
                spec_build(fv, av0).1 == spec_build(fv.skip(k as int), strings_view(remaining@)).1,
            decreases n - k,
        {
            proof {
                assert(fv.skip(k as int).drop_first() =~= fv.skip(k + 1));
                assert(fv.skip(k as int)[0] == fv[k as int]);
            }
            let ghost zv_old = Seq::new(zones@.len(), |i: int| (zones@[i].name@, zones@[i].id@));
            let ghost rem_old = strings_view(remaining@);
            match find_first_match(&remaining, fetched[k].id.as_str()) {
                Some(j) => {
                    let bound = BoundZone {
                        name: Fqdn::new(fetched[k].name.as_str()),
                        id: fetched[k].id.clone(),
                    };
                    zones.push(bound);
                    remaining.remove(j);
                    proof {
                        assert(strings_view(remaining@) =~= rem_old.remove(j as int));
                        assert(Seq::new(
                            zones@.len(),
                            |i: int| (zones@[i].name@, zones@[i].id@),
                        ) =~= zv_old + seq![(strip_root_dot(fv[k as int].0), fv[k as int].1)]);
                        assert(zv_old + seq![(strip_root_dot(fv[k as int].0), fv[k as int].1)]
                            + spec_build(fv.skip(k + 1), strings_view(remaining@)).0 =~= zv_old + (
                        seq![(strip_root_dot(fv[k as int].0), fv[k as int].1)] + spec_build(
                            fv.skip(k + 1),
                            strings_view(remaining@),
                        ).0));
                    }
                },
                None => {},
            }
            k = k + 1;
        }
        proof {
            assert(fv.skip(n as int) =~= Seq::<(Seq<char>, Seq<char>)>::empty());
            assert(spec_build(fv, av0).0 =~= Seq::new(
                zones@.len(),
                |i: int| (zones@[i].name@, zones@[i].id@),
            ));
        }
        let resolver = ZoneResolver { zones };
        proof {
            assert(resolver@ =~= spec_build(fv, av0).0);
        }
        (resolver, remaining)
    }
}

/// What resolution returns, stated over the bound zones: it fails exactly
/// when no zone name is a suffix match for `domain`, and otherwise yields
/// a bound zone whose name is a match of maximal length.
pub proof fn lemma_resolve_characterization(
    zones: Seq<(Seq<char>, Seq<char>)>,
    domain: Seq<char>,
)
    ensures
        (spec_resolve(zones, domain) is None) <==> (forall|i: int|
            0 <= i < zones.len() ==> !suffix_matches(domain, #[trigger] zones[i].0)),
        spec_resolve(zones, domain) matches Some(b) ==> (exists|i: int|
            0 <= i < zones.len() && zones[i] == b) && suffix_matches(domain, b.0) && (forall|
            i: int,
        |
            0 <= i < zones.len() && suffix_matches(domain, #[trigger] zones[i].0)
                ==> zones[i].0.len() <= b.0.len()),
    decreases zones.len(),
{
    if zones.len() > 0 {
        lemma_resolve_characterization(zones.drop_last(), domain);
        let rest = zones.drop_last();
        assert(forall|i: int| 0 <= i < rest.len() ==> rest[i] == zones[i]);
        assert(zones.last() == zones[zones.len() - 1]);
        match spec_resolve(zones, domain) {
            Option::Some(b) => {
                if !suffix_matches(domain, zones.last().0) {
                    assert(spec_resolve(rest, domain) == Some(b));
                }
            },
            Option::None => {},
        }
    }
}

/// A label-boundary suffix is the tail subrange of the domain.
proof fn lemma_label_suffix_is_subrange(d: Seq<char>, x: Seq<char>)
    requires
        label_suffix(d, x),
    ensures
        x.len() <= d.len(),
        x == d.subrange(d.len() - x.len(), d.len() as int),
{
    if d == x {
        assert(d.subrange(d.len() - x.len(), d.len() as int) =~= x);
    }
}

/// A label-boundary suffix of a label-boundary suffix is itself one.
proof fn lemma_label_suffix_transitive(d: Seq<char>, z: Seq<char>, w: Seq<char>)
    requires
        label_suffix(d, z),
        label_suffix(z, w),
    ensures
        label_suffix(d, w),
{
    if d == z || z == w {
    } else {
        let dl = d.len() as int;
        let zl = z.len() as int;
        let wl = w.len() as int;
        lemma_label_suffix_is_subrange(d, z);
        lemma_label_suffix_is_subrange(z, w);
        assert(d[dl - wl - 1] == '.') by {
            assert(z[zl - wl - 1] == d.subrange(dl - zl, dl)[zl - wl - 1]);
        }
        assert(d.subrange(dl - wl, dl) =~= w) by {
            assert forall|t: int| 0 <= t < wl implies d.subrange(dl - wl, dl)[t] == w[t] by {
                assert(z[zl - wl + t] == d.subrange(dl - zl, dl)[zl - wl + t]);
                assert(w[t] == z.subrange(zl - wl, zl)[t]);
            }
        }
    }
}

/// Of two label-boundary suffixes of the same domain, the shorter is a
/// label-boundary suffix of the longer.
proof fn lemma_label_suffix_nesting(d: Seq<char>, z: Seq<char>, w: Seq<char>)
    requires
        label_suffix(d, z),
        label_suffix(d, w),
        w.len() <= z.len(),
    ensures
        label_suffix(z, w),
{
    let dl = d.len() as int;
    let zl = z.len() as int;
    let wl = w.len() as int;
    lemma_label_suffix_is_subrange(d, z);
    lemma_label_suffix_is_subrange(d, w);
    if wl == zl {
        assert(z =~= w);
    } else if zl == dl {
        assert(z =~= d);
    } else {
        assert(z[zl - wl - 1] == '.') by {
            assert(z[zl - wl - 1] == d.subrange(dl - zl, dl)[zl - wl - 1]);
            assert(d[dl - wl - 1] == '.');
        }
        assert(z.subrange(zl - wl, zl) =~= w) by {
            assert forall|t: int| 0 <= t < wl implies z.subrange(zl - wl, zl)[t] == w[t] by {
                assert(z[zl - wl + t] == d.subrange(dl - zl, dl)[zl - wl + t]);
                assert(w[t] == d.subrange(dl - wl, dl)[t]);
            }
        }
    }
}

/// A subdomain of a subdomain is a subdomain: transitivity of the
/// case-insensitive subdomain relation.
pub proof fn lemma_suffix_transitive(d: Seq<char>, z: Seq<char>, w: Seq<char>)
    requires
        suffix_matches(d, z),
        suffix_matches(z, w),
    ensures
        suffix_matches(d, w),
{
    lemma_label_suffix_transitive(to_lower(d), to_lower(z), to_lower(w));
}

/// Of two zones that both contain the same domain, the shorter zone
/// contains the longer one.
pub proof fn lemma_suffix_nesting(d: Seq<char>, z: Seq<char>, w: Seq<char>)
    requires
        suffix_matches(d, z),
        suffix_matches(d, w),
        w.len() <= z.len(),
    ensures
        suffix_matches(z, w),
{
    assert(to_lower(w).len() <= to_lower(z).len());
    lemma_label_suffix_nesting(to_lower(d), to_lower(z), to_lower(w));
}

/// When `zone` is a longest suffix match for `domain` among the bound
/// zones, `domain` and `zone` match exactly the same bound zones, so they
/// resolve alike.
pub proof fn lemma_resolve_by_longest(
    zones: Seq<(Seq<char>, Seq<char>)>,
    domain: Seq<char>,
    zone: Seq<char>,
)
    requires
        suffix_matches(domain, zone),
        forall|i: int|
            0 <= i < zones.len() && suffix_matches(domain, #[trigger] zones[i].0)
                ==> zones[i].0.len() <= zone.len(),
    ensures
        spec_resolve(zones, domain) == spec_resolve(zones, zone),
    decreases zones.len(),
{
    if zones.len() > 0 {
        let rest = zones.drop_last();
        assert(forall|i: int| 0 <= i < rest.len() ==> #[trigger] rest[i] == zones[i]);
        lemma_resolve_by_longest(rest, domain, zone);
        let last = zones.last();
        assert(last == zones[zones.len() - 1]);
        if suffix_matches(domain, last.0) {
            lemma_suffix_nesting(domain, zone, last.0);
            assert(suffix_matches(zone, last.0));
        }
        if suffix_matches(zone, last.0) {
            lemma_suffix_transitive(domain, zone, last.0);
            assert(suffix_matches(domain, last.0));
        }
    }
}

/// The longest-suffix law: when a zone named `zone` is bound and no bound
/// zone that contains `domain` has a longer name, `domain` resolves, and
/// to the same identifier as `zone` itself.
pub proof fn lemma_longest_suffix_resolution(
    zones: Seq<(Seq<char>, Seq<char>)>,
    domain: Seq<char>,
    zone: Seq<char>,
)
    requires
        exists|i: int| 0 <= i < zones.len() && #[trigger] zones[i].0 == zone,
        suffix_matches(domain, zone),
        forall|i: int|
            0 <= i < zones.len() && suffix_matches(domain, #[trigger] zones[i].0)
                ==> zones[i].0.len() <= zone.len(),
    ensures
        spec_resolve(zones, domain) is Some,
        spec_resolve(zones, domain) == spec_resolve(zones, zone),
{
    lemma_resolve_by_longest(zones, domain, zone);
    lemma_resolve_characterization(zones, zone);
    let i = choose|i: int| 0 <= i < zones.len() && #[trigger] zones[i].0 == zone;
    assert(suffix_matches(zone, zones[i].0));
}

} // verus!
