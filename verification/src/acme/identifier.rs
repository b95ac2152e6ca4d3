//! The identifiers that an ACME order names.
use crate::ip;
use crate::ip::IpAddress;
use crate::text;
use vstd::prelude::*;

verus! {

/// What a certificate can be issued for: a DNS name or an IP address.
#[derive(Clone, Debug, PartialEq, Eq)]
pub enum Identifier {
    Dns(String),
    Ip(IpAddress),
}

/// The value of an [`Identifier`].
pub enum IdentifierView {
    Dns(Seq<char>),
    Ip(IpAddress),
}

impl View for Identifier {
    type V = IdentifierView;

    open spec fn view(&self) -> IdentifierView {
        match self {
            Identifier::Dns(name) => IdentifierView::Dns(name@),
            Identifier::Ip(addr) => IdentifierView::Ip(*addr),
        }
    }
}

/// The values of a list of identifiers.
pub open spec fn views(ids: Seq<Identifier>) -> Seq<IdentifierView> {
    ids.map_values(|id: Identifier| id@)
}

/// The identifier for a host: an IP address literal becomes an IP identifier,
/// anything else a DNS identifier in lower case.
pub open spec fn identifier_of(host: Seq<char>) -> IdentifierView {
    match ip::ip_literal(host) {
        Some(addr) => IdentifierView::Ip(addr),
        None => IdentifierView::Dns(text::lowercase(host)),
    }
}

/// `s` without the elements that already occurred further to the left.
pub open spec fn distinct(s: Seq<IdentifierView>) -> Seq<IdentifierView>
    decreases s.len(),
{
    if s.len() == 0 {
        s
    } else {
        with_unique(distinct(s.drop_last()), s.last())
    }
}

/// `ids` with `id` appended unless it is already there.
pub open spec fn with_unique(ids: Seq<IdentifierView>, id: IdentifierView) -> Seq<IdentifierView> {
    if ids.contains(id) {
        ids
    } else {
        ids.push(id)
    }
}

/// Whether two identifiers are the same.
pub fn same_identifier(a: &Identifier, b: &Identifier) -> (r: bool)
    ensures
        r == (a@ == b@),
{
    match (a, b) {
        (Identifier::Dns(x), Identifier::Dns(y)) => *x == *y,
        (Identifier::Ip(x), Identifier::Ip(y)) => *x == *y,
        _ => false,
    }
}

/// Whether `ids` holds `id`.
pub fn holds(ids: &Vec<Identifier>, id: &Identifier) -> (r: bool)
    ensures
        r == views(ids@).contains(id@),
{
    let mut i: usize = 0;
    while i < ids.len()
        invariant
            i <= ids@.len(),
            forall|k: int| 0 <= k < i ==> views(ids@)[k] != id@,
        decreases ids@.len() - i,
    {
        if same_identifier(&ids[i], id) {
            assert(views(ids@)[i as int] == id@);
            return true;
        }
        i += 1;
    }
    false
}

/// The same identifiers once more.
pub fn duplicates(ids: &Vec<Identifier>) -> (r: Vec<Identifier>)
    ensures
        r@ == ids@,
{
    let mut r: Vec<Identifier> = Vec::new();
    let mut i: usize = 0;
    while i < ids.len()
        invariant
            i <= ids@.len(),
            r@ == ids@.take(i as int),
        decreases ids@.len() - i,
    {
        let id = match &ids[i] {
            Identifier::Dns(name) => Identifier::Dns(name.clone()),
            Identifier::Ip(addr) => Identifier::Ip(*addr),
        };
        r.push(id);
        proof {
            assert(ids@.take(i + 1) =~= ids@.take(i as int).push(ids@[i as int]));
        }
        i += 1;
    }
    proof {
        assert(ids@.take(ids@.len() as int) =~= ids@);
    }
    r
}

/// Append `identifier` unless the list already has it.
///
/// An ACME server rejects an order that names the same identifier twice. DNS names
/// are in lower case and IP addresses are numbers by the time they get here, so
/// equality is enough.
pub fn push_unique(identifiers: &mut Vec<Identifier>, identifier: Identifier)
    ensures
        views(final(identifiers)@) == with_unique(views(old(identifiers)@), identifier@),
{
    if !holds(identifiers, &identifier) {
        identifiers.push(identifier);
        proof {
            assert(views(identifiers@) =~= views(old(identifiers)@).push(identifier@));
        }
    }
}

/// The ACME identifier for a host.
pub fn identifier(host: &str) -> (r: Identifier)
    ensures
        r@ == identifier_of(host@),
{
    match ip::parse_ip(host) {
        Some(addr) => Identifier::Ip(addr),
        // DNS names are matched case-insensitively by the CA, so two spellings
        // must not become two names.
        None => Identifier::Dns(text::ascii_lowercase(host)),
    }
}

/// The identifiers of a list of hosts, one for each.
pub open spec fn host_identifiers(hosts: Seq<String>) -> Seq<IdentifierView> {
    hosts.map_values(|host: String| identifier_of(host@))
}

/// The identifiers for the configured hosts, without repetitions.
pub fn identifiers_from_hosts(hosts: &[String]) -> (r: Vec<Identifier>)
    ensures
        views(r@) == distinct(host_identifiers(hosts@)),
{
    let mut identifiers: Vec<Identifier> = Vec::new();
    let mut i: usize = 0;
    while i < hosts.len()
        invariant
            i <= hosts@.len(),
            views(identifiers@) == distinct(host_identifiers(hosts@.take(i as int))),
        decreases hosts@.len() - i,
    {
        push_unique(&mut identifiers, identifier(hosts[i].as_str()));
        proof {
            let next = host_identifiers(hosts@.take(i + 1));
            assert(next.drop_last() =~= host_identifiers(hosts@.take(i as int)));
            assert(next.last() == identifier_of(hosts@[i as int]@));
        }
        i += 1;
    }
    proof {
        assert(hosts@.take(hosts@.len() as int) =~= hosts@);
    }
    identifiers
}

/// Each host as a DNS identifier, as it is written.
pub open spec fn verbatim_dns(hosts: Seq<String>) -> Seq<IdentifierView> {
    hosts.map_values(|host: String| IdentifierView::Dns(host@))
}

/// A DNS identifier for each host, as it is written and in the same order.
pub fn dns_identifiers(hosts: &[String]) -> (r: Vec<Identifier>)
    ensures
        views(r@) == verbatim_dns(hosts@),
{
    let mut identifiers: Vec<Identifier> = Vec::new();
    let mut i: usize = 0;
    while i < hosts.len()
        invariant
            i <= hosts@.len(),
            views(identifiers@) == verbatim_dns(hosts@.take(i as int)),
        decreases hosts@.len() - i,
    {
        let ghost before = views(identifiers@);
        identifiers.push(Identifier::Dns(hosts[i].clone()));
        proof {
            assert(views(identifiers@) =~= before.push(IdentifierView::Dns(hosts@[i as int]@)));
            assert(verbatim_dns(hosts@.take(i + 1)) =~= before.push(
                IdentifierView::Dns(hosts@[i as int]@),
            ));
        }
        i += 1;
    }
    proof {
        assert(hosts@.take(hosts@.len() as int) =~= hosts@);
    }
    identifiers
}

/// The identifier that an order names where it is authorized for `id`, which stands
/// for all names below it if `wildcard` says so. Case does not count in DNS names.
pub open spec fn ordered(id: IdentifierView, wildcard: bool) -> IdentifierView {
    match id {
        IdentifierView::Dns(name) => IdentifierView::Dns(
            text::lowercase(
                if wildcard {
                    "*."@ + name
                } else {
                    name
                },
            ),
        ),
        IdentifierView::Ip(addr) => IdentifierView::Ip(addr),
    }
}

/// The identifier that an order names where it is authorized for `id`.
pub fn ordered_identifier(id: &Identifier, wildcard: bool) -> (r: Identifier)
    ensures
        r@ == ordered(id@, wildcard),
{
    match id {
        Identifier::Dns(name) => if wildcard {
            let full = text::concat2("*.", name.as_str());
            Identifier::Dns(text::ascii_lowercase(full.as_str()))
        } else {
            Identifier::Dns(text::ascii_lowercase(name.as_str()))
        },
        Identifier::Ip(addr) => Identifier::Ip(*addr),
    }
}

/// No identifier occurs twice in a list without repetitions, and no identifier is
/// lost or added by leaving the repetitions out.
pub proof fn distinct_keeps_each_once(s: Seq<IdentifierView>)
    ensures
        distinct(s).no_duplicates(),
        forall|id: IdentifierView| distinct(s).contains(id) <==> #[trigger] s.contains(id),
        s.len() > 0 ==> distinct(s).len() > 0,
    decreases s.len(),
{
    if s.len() > 0 {
        let front = s.drop_last();
        let d = distinct(front);
        distinct_keeps_each_once(front);
        assert(front.push(s.last()) =~= s);
        assert forall|id: IdentifierView| distinct(s).contains(id) <==> #[trigger] s.contains(
            id,
        ) by {
            if s.contains(id) {
                let k = choose|k: int| 0 <= k < s.len() && s[k] == id;
                if k < front.len() {
                    assert(front[k] == id);
                    assert(front.contains(id));
                    let j = choose|j: int| 0 <= j < d.len() && d[j] == id;
                    assert(distinct(s)[j] == id);
                } else if !d.contains(s.last()) {
                    assert(distinct(s).last() == id);
                }
            }
            if distinct(s).contains(id) {
                let j = choose|j: int| 0 <= j < distinct(s).len() && distinct(s)[j] == id;
                if j < d.len() {
                    assert(d[j] == id);
                    assert(d.contains(id));
                    assert(front.contains(id));
                    let k = choose|k: int| 0 <= k < front.len() && front[k] == id;
                    assert(s[k] == id);
                } else {
                    assert(s[s.len() - 1] == id);
                }
            }
        }
        assert(s.contains(s[0])) by {
            assert(s[0] == s[0]);
        }
    }
}

/// A list that repeats nothing is left as it is.
pub proof fn distinct_of_distinct(s: Seq<IdentifierView>)
    requires
        s.no_duplicates(),
    ensures
        distinct(s) == s,
    decreases s.len(),
{
    if s.len() > 0 {
        let front = s.drop_last();
        assert forall|i: int, j: int| 0 <= i < front.len() && 0 <= j < front.len() && i != j implies
            front[i] != front[j] by {
            assert(s[i] != s[j]);
        }
        distinct_of_distinct(front);
        if front.contains(s.last()) {
            let k = choose|k: int| 0 <= k < front.len() && front[k] == s.last();
            assert(s[k] == s[s.len() - 1]);
        }
        assert(front.push(s.last()) =~= s);
    }
}

/// What was kept of a list stays at the front when the list grows: the first
/// occurrence of each identifier decides its place.
pub proof fn distinct_keeps_first_occurrences(s: Seq<IdentifierView>, n: int)
    requires
        0 <= n <= s.len(),
    ensures
        distinct(s.take(n)).is_prefix_of(distinct(s)),
    decreases s.len(),
{
    if n == s.len() {
        assert(s.take(n) =~= s);
    } else {
        let front = s.drop_last();
        distinct_keeps_first_occurrences(front, n);
        assert(front.take(n) =~= s.take(n));
    }
}

/// Two spellings of one host that differ in the case of ASCII letters are one
/// identifier.
pub proof fn identifier_ignores_case(a: Seq<char>, b: Seq<char>)
    requires
        text::lowercase(a) == text::lowercase(b),
    ensures
        identifier_of(a) == identifier_of(b),
{
    ip::lemma_ip_literal_ignores_case(a);
    ip::lemma_ip_literal_ignores_case(b);
}

/// A DNS identifier is in its normal form: its name is in lower case and stands for the
/// same identifier as the host that it comes from.
pub proof fn identifier_is_normal(host: Seq<char>)
    ensures
        identifier_of(host) matches IdentifierView::Dns(name) ==> text::lowercase(name) == name
            && identifier_of(name) == identifier_of(host),
{
    text::lemma_lowercase_idempotent(host);
    if identifier_of(host) is Dns {
        identifier_ignores_case(text::lowercase(host), host);
    }
}

/// Two literals of one address are one identifier, in whatever way they are written.
pub proof fn address_has_one_identifier(a: Seq<char>, b: Seq<char>)
    requires
        ip::ip_literal(a) is Some,
    ensures
        identifier_of(a) == identifier_of(b) <==> ip::ip_literal(a) == ip::ip_literal(b),
{
}

} // verus!
