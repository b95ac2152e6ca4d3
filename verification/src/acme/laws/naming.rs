//! Which identifiers hosts and CSRs stand for.
use crate::acme::csr;
use crate::acme::csr::{
    CertificationRequest, CertificationRequestView, CsrError, CsrName, CsrNameView, CsrSource,
    RequestedExtension,
};
use crate::acme::identifier;
use crate::acme::identifier::{Identifier, IdentifierView};
use crate::ip;
use crate::text;
use vstd::prelude::*;
use vstd::string::*;

verus! {

/// Whether `b` is `a` with its upper-case ASCII letters in lower case, and nothing else
/// changed.
pub open spec fn is_lowered(a: Seq<char>, b: Seq<char>) -> bool {
    &&& a.len() == b.len()
    &&& forall|i: int|
        0 <= i < a.len() ==> if 'A' <= #[trigger] a[i] && a[i] <= 'Z' {
            b[i] as int == a[i] as int + 32
        } else {
            b[i] == a[i]
        }
}

/// There is one way to put a text into lower case.
proof fn lemma_lowered(a: Seq<char>, b: Seq<char>)
    ensures
        is_lowered(a, b) <==> b == text::lowercase(a),
{
    text::lowercase_changes_letters_only(a);
    let low = text::lowercase(a);
    if is_lowered(a, b) {
        assert forall|i: int| 0 <= i < a.len() implies b[i] == low[i] by {
            let c = a[i];
        }
        assert(b =~= low);
    }
}

/// Whether `id` is what an order names for `host`: the address that the host writes, or where
/// it writes none its name in lower case.
pub open spec fn stands_for(id: Identifier, host: Seq<char>) -> bool {
    match id {
        Identifier::Ip(addr) => ip::ip_literal(host) == Some(addr),
        Identifier::Dns(name) => ip::ip_literal(host) is None && is_lowered(host, name@),
    }
}

/// The identifier of a host stands for it, and nothing else does.
pub proof fn host_has_one_identifier(id: Identifier, host: Seq<char>)
    ensures
        id@ == identifier::identifier_of(host) <==> stands_for(id, host),
{
    if let Identifier::Dns(name) = id {
        lemma_lowered(host, name@);
    }
}

/// Leaving out repetitions keeps the order: of two identifiers that are kept, the one that
/// comes first is the one that occurred first.
pub proof fn distinct_is_in_order(s: Seq<IdentifierView>, i: int, j: int)
    requires
        0 <= i < j < identifier::distinct(s).len(),
    ensures
        exists|a: int|
            0 <= a < s.len() && #[trigger] s[a] == identifier::distinct(s)[i] && !s.take(
                a + 1,
            ).contains(identifier::distinct(s)[j]),
    decreases s.len(),
{
    let front = s.drop_last();
    let d = identifier::distinct(front);
    identifier::distinct_keeps_each_once(front);
    if j < d.len() {
        distinct_is_in_order(front, i, j);
        let a = choose|a: int|
            0 <= a < front.len() && #[trigger] front[a] == d[i] && !front.take(a + 1).contains(d[j]);
        assert(s[a] == front[a]);
        assert(s.take(a + 1) =~= front.take(a + 1));
    } else {
        assert(d.contains(d[i]));
        assert(front.contains(d[i]));
        let a = choose|a: int| 0 <= a < front.len() && front[a] == d[i];
        assert(s[a] == front[a]);
        let last = s.last();
        assert(!d.contains(last));
        assert(!front.contains(last));
        let until = s.take(a + 1);
        if until.contains(last) {
            let b = choose|b: int| 0 <= b < until.len() && until[b] == last;
            assert(front[b] == last);
        }
    }
}

/// Whether `id` stands for one of `hosts`.
pub open spec fn stands_for_one(id: Identifier, hosts: Seq<String>) -> bool {
    exists|h: int| 0 <= h < hosts.len() && stands_for(id, #[trigger] hosts[h]@)
}

/// Whether one of `ids` stands for `host`.
pub open spec fn one_stands_for(ids: Seq<Identifier>, host: Seq<char>) -> bool {
    exists|i: int| 0 <= i < ids.len() && stands_for(#[trigger] ids[i], host)
}

/// Whether `first` stands for one of `hosts` before `second` does.
pub open spec fn comes_first(first: Identifier, second: Identifier, hosts: Seq<String>) -> bool {
    exists|h: int|
        0 <= h < hosts.len() && stands_for(first, #[trigger] hosts[h]@) && !stands_for_one(
            second,
            hosts.take(h + 1),
        )
}

/// Whether `ids` are the identifiers of `hosts`: each stands for some host, each host has one,
/// none occurs twice, and they are in the order of the hosts.
pub open spec fn are_for_hosts(ids: Seq<Identifier>, hosts: Seq<String>) -> bool {
    &&& forall|i: int| 0 <= i < ids.len() ==> stands_for_one(#[trigger] ids[i], hosts)
    &&& forall|h: int| 0 <= h < hosts.len() ==> one_stands_for(ids, #[trigger] hosts[h]@)
    &&& forall|i: int, j: int| 0 <= i < j < ids.len() ==> (#[trigger] ids[i])@ != (#[trigger] ids[j])@
    &&& forall|i: int, j: int|
        0 <= i < j < ids.len() ==> comes_first(#[trigger] ids[i], #[trigger] ids[j], hosts)
}

proof fn lemma_stands_for_one(id: Identifier, hosts: Seq<String>)
    ensures
        stands_for_one(id, hosts) <==> identifier::host_identifiers(hosts).contains(id@),
{
    let s = identifier::host_identifiers(hosts);
    if stands_for_one(id, hosts) {
        let h = choose|h: int| 0 <= h < hosts.len() && stands_for(id, #[trigger] hosts[h]@);
        host_has_one_identifier(id, hosts[h]@);
        assert(s[h] == id@);
    }
    if s.contains(id@) {
        let h = choose|h: int| 0 <= h < s.len() && s[h] == id@;
        host_has_one_identifier(id, hosts[h]@);
        assert(stands_for(id, hosts[h]@));
    }
}

proof fn lemma_comes_first(ids: Seq<Identifier>, hosts: Seq<String>, i: int, j: int)
    requires
        identifier::views(ids) == identifier::distinct(identifier::host_identifiers(hosts)),
        0 <= i < j < ids.len(),
    ensures
        comes_first(ids[i], ids[j], hosts),
{
    let s = identifier::host_identifiers(hosts);
    let v = identifier::views(ids);
    assert(v[i] == ids[i]@ && v[j] == ids[j]@);
    distinct_is_in_order(s, i, j);
    let h = choose|a: int|
        0 <= a < s.len() && #[trigger] s[a] == v[i] && !s.take(a + 1).contains(v[j]);
    host_has_one_identifier(ids[i], hosts[h]@);
    let until = hosts.take(h + 1);
    lemma_stands_for_one(ids[j], until);
    assert(identifier::host_identifiers(until) =~= s.take(h + 1));
    assert(stands_for(ids[i], hosts[h]@));
}

proof fn lemma_one_stands_for(ids: Seq<Identifier>, hosts: Seq<String>, h: int)
    requires
        identifier::views(ids) == identifier::distinct(identifier::host_identifiers(hosts)),
        0 <= h < hosts.len(),
    ensures
        one_stands_for(ids, hosts[h]@),
{
    let s = identifier::host_identifiers(hosts);
    let v = identifier::views(ids);
    identifier::distinct_keeps_each_once(s);
    assert(s[h] == identifier::identifier_of(hosts[h]@));
    assert(s.contains(s[h]));
    assert(v.contains(s[h]));
    let i = choose|i: int| 0 <= i < v.len() && v[i] == s[h];
    assert(ids[i]@ == s[h]);
    host_has_one_identifier(ids[i], hosts[h]@);
    assert(stands_for(ids[i], hosts[h]@));
}

/// The identifiers of a list of hosts name every host, once, in order, and nothing else.
pub proof fn hosts_are_named(ids: Seq<Identifier>, hosts: Seq<String>)
    requires
        identifier::views(ids) == identifier::distinct(identifier::host_identifiers(hosts)),
    ensures
        are_for_hosts(ids, hosts),
{
    let s = identifier::host_identifiers(hosts);
    let v = identifier::views(ids);
    identifier::distinct_keeps_each_once(s);
    assert forall|i: int| 0 <= i < ids.len() implies stands_for_one(#[trigger] ids[i], hosts) by {
        assert(v[i] == ids[i]@);
        assert(v.contains(v[i]));
        assert(s.contains(v[i]));
        lemma_stands_for_one(ids[i], hosts);
    }
    assert forall|h: int| 0 <= h < hosts.len() implies one_stands_for(ids, #[trigger] hosts[h]@) by {
        lemma_one_stands_for(ids, hosts, h);
    }
    assert forall|i: int, j: int| 0 <= i < j < ids.len() implies (#[trigger] ids[i])@ != (
    #[trigger] ids[j])@ by {
        assert(v[i] == ids[i]@ && v[j] == ids[j]@);
    }
    assert forall|i: int, j: int| 0 <= i < j < ids.len() implies comes_first(
        #[trigger] ids[i],
        #[trigger] ids[j],
        hosts,
    ) by {
        lemma_comes_first(ids, hosts, i, j);
    }
}

/// The identifier that an order names for an authorization is its name in lower case, with
/// `*.` before it where it is a wildcard, or its address.
pub proof fn wildcards_are_named_with_a_star(id: IdentifierView, wildcard: bool)
    ensures
        id matches IdentifierView::Ip(addr) ==> identifier::ordered(id, wildcard) == id,
        id matches IdentifierView::Dns(name) ==> (identifier::ordered(
            id,
            wildcard,
        ) matches IdentifierView::Dns(named) && is_lowered(
            if wildcard {
                seq!['*', '.'] + name
            } else {
                name
            },
            named,
        )),
{
    reveal_strlit("*.");
    assert("*."@ =~= seq!['*', '.']);
    if let IdentifierView::Dns(name) = id {
        let full = if wildcard {
            "*."@ + name
        } else {
            name
        };
        lemma_lowered(full, text::lowercase(full));
    }
}

/// The names of a CSR are those of its subjectAltName extensions, in order, with their texts
/// and octets as they are.
pub proof fn names_are_those_of_the_extensions(
    front: Seq<RequestedExtension>,
    back: Seq<RequestedExtension>,
    list: Vec<CsrName>,
)
    ensures
        csr::requested_names(front + back) == csr::requested_names(front) + csr::requested_names(
            back,
        ),
        csr::requested_names(seq![RequestedExtension::Other]) == Seq::<CsrNameView>::empty(),
        ({
            let names = csr::requested_names(seq![RequestedExtension::SubjectAltName(list)]);
            &&& names.len() == list@.len()
            &&& forall|i: int|
                0 <= i < list@.len() ==> match #[trigger] list@[i] {
                    CsrName::Dns(name) => names[i] == CsrNameView::Dns(name@),
                    CsrName::Ip(octets) => names[i] == CsrNameView::Ip(octets@),
                    CsrName::Other => names[i] is Other,
                }
        }),
    decreases back.len(),
{
    let none = Seq::<RequestedExtension>::empty();
    assert(seq![RequestedExtension::Other].drop_last() =~= none);
    assert(csr::requested_names(none) == Seq::<CsrNameView>::empty());
    assert(csr::requested_names(seq![RequestedExtension::Other]) =~= Seq::<CsrNameView>::empty());
    let one = seq![RequestedExtension::SubjectAltName(list)];
    assert(one.drop_last() =~= none);
    assert(csr::requested_names(one) =~= csr::name_views(list@));
    if back.len() == 0 {
        assert(front + back =~= front);
        assert(csr::requested_names(front + back) =~= csr::requested_names(front)
            + csr::requested_names(back));
    } else {
        names_are_those_of_the_extensions(front, back.drop_last(), list);
        assert((front + back).drop_last() =~= front + back.drop_last());
        assert(csr::requested_names(front + back) =~= csr::requested_names(front)
            + csr::requested_names(back));
    }
}

/// The identifiers that names ask for come one after the other: a DNS name asks for itself in
/// lower case, four or sixteen octets ask for the address that they make, and other names ask
/// for nothing.
pub proof fn names_ask_in_order(
    front: Seq<CsrNameView>,
    back: Seq<CsrNameView>,
    name: CsrNameView,
)
    ensures
        csr::asked_identifiers(front + back) == csr::asked_identifiers(front)
            + csr::asked_identifiers(back),
        ({
            let asked = csr::asked_identifiers(seq![name]);
            match name {
                CsrNameView::Dns(dns) => asked.len() == 1 && (
                asked[0] matches IdentifierView::Dns(text) && is_lowered(dns, text)),
                CsrNameView::Ip(octets) => if octets.len() == 4 || octets.len() == 16 {
                    asked.len() == 1 && (asked[0] matches IdentifierView::Ip(addr)
                        && ip::ip_of_octets(octets) == Some(addr))
                } else {
                    asked.len() == 0
                },
                CsrNameView::Other => asked.len() == 0,
            }
        }),
    decreases back.len(),
{
    let none = Seq::<CsrNameView>::empty();
    assert(seq![name].drop_last() =~= none);
    assert(csr::asked_identifiers(none).len() == 0);
    match name {
        CsrNameView::Dns(dns) => {
            lemma_lowered(dns, text::lowercase(dns));
        },
        CsrNameView::Ip(octets) => {
            ip::laws::octets_are_kept(octets);
        },
        CsrNameView::Other => {},
    }
    if back.len() == 0 {
        assert(front + back =~= front);
        assert(csr::asked_identifiers(front + back) =~= csr::asked_identifiers(front)
            + csr::asked_identifiers(back));
    } else {
        names_ask_in_order(front, back.drop_last(), name);
        assert((front + back).drop_last() =~= front + back.drop_last());
        assert(csr::asked_identifiers(front + back) =~= csr::asked_identifiers(front)
            + csr::asked_identifiers(back));
    }
}

/// Whether `id` is what `name` asks for.
pub open spec fn asks_for(name: CsrNameView, id: IdentifierView) -> bool {
    match (name, id) {
        (CsrNameView::Dns(dns), IdentifierView::Dns(text)) => is_lowered(dns, text),
        (CsrNameView::Ip(octets), IdentifierView::Ip(addr)) => ip::ip_of_octets(octets) == Some(
            addr,
        ),
        _ => false,
    }
}

/// Every name but one of another kind asks for something, unless it is an address with a wrong
/// number of octets.
pub proof fn lemma_name_asks(name: CsrNameView) -> (id: IdentifierView)
    ensures
        name is Dns || (name matches CsrNameView::Ip(octets) && (octets.len() == 4 || octets.len()
            == 16)) ==> asks_for(name, id),
{
    match name {
        CsrNameView::Dns(dns) => {
            lemma_lowered(dns, text::lowercase(dns));
            IdentifierView::Dns(text::lowercase(dns))
        },
        CsrNameView::Ip(octets) => {
            ip::laws::octets_are_kept(octets);
            IdentifierView::Ip(ip::ip_of_octets(octets)->0)
        },
        CsrNameView::Other => IdentifierView::Dns(Seq::empty()),
    }
}

proof fn lemma_asked(names: Seq<CsrNameView>, id: IdentifierView)
    ensures
        csr::asked_identifiers(names).contains(id) <==> exists|i: int|
            0 <= i < names.len() && asks_for(#[trigger] names[i], id),
        csr::asked_identifiers(names).len() == 0 <==> forall|i: int|
            0 <= i < names.len() ==> csr::name_identifier(#[trigger] names[i]) is None,
    decreases names.len(),
{
    if names.len() > 0 {
        let front = names.drop_last();
        let last = names.last();
        let asked = csr::asked_identifiers(names);
        let before = csr::asked_identifiers(front);
        lemma_asked(front, id);
        if let (CsrNameView::Dns(dns), IdentifierView::Dns(text)) = (last, id) {
            lemma_lowered(dns, text);
        }
        assert(asks_for(last, id) <==> csr::name_identifier(last) == Some(id));
        assert(names[names.len() - 1] == last);
        if csr::name_identifier(last) is Some {
            let new = csr::name_identifier(last)->0;
            assert(asked == before.push(new));
            if asked.contains(id) {
                let k = choose|k: int| 0 <= k < asked.len() && asked[k] == id;
                if k < before.len() {
                    assert(before[k] == id);
                    assert(before.contains(id));
                    let i = choose|i: int| 0 <= i < front.len() && asks_for(#[trigger] front[i], id);
                    assert(asks_for(names[i], id));
                } else {
                    assert(asks_for(names[names.len() - 1], id));
                }
            }
            if exists|i: int| 0 <= i < names.len() && asks_for(#[trigger] names[i], id) {
                let i = choose|i: int| 0 <= i < names.len() && asks_for(#[trigger] names[i], id);
                if i < front.len() {
                    assert(asks_for(front[i], id));
                    assert(before.contains(id));
                    let k = choose|k: int| 0 <= k < before.len() && before[k] == id;
                    assert(asked[k] == id);
                } else {
                    assert(asked.last() == id);
                }
            }
            assert(asked.len() > 0);
            assert(csr::name_identifier(names[names.len() - 1]) is Some);
        } else {
            assert(asked == before);
            if exists|i: int| 0 <= i < names.len() && asks_for(#[trigger] names[i], id) {
                let i = choose|i: int| 0 <= i < names.len() && asks_for(#[trigger] names[i], id);
                assert(i < front.len());
                assert(asks_for(front[i], id));
            }
            if before.contains(id) {
                let i = choose|i: int| 0 <= i < front.len() && asks_for(#[trigger] front[i], id);
                assert(asks_for(names[i], id));
            }
            if asked.len() == 0 {
                assert forall|i: int| 0 <= i < names.len() implies csr::name_identifier(
                    #[trigger] names[i],
                ) is None by {
                    if i < front.len() {
                        assert(csr::name_identifier(front[i]) is None);
                    }
                }
            } else {
                let i = choose|i: int|
                    0 <= i < front.len() && csr::name_identifier(#[trigger] front[i]) is Some;
                assert(csr::name_identifier(names[i]) is Some);
            }
        }
    }
}

/// A CSR is refused exactly where bytes are left over behind it, where an address in it has
/// neither four nor sixteen octets, or where it asks for no DNS name and no address. Otherwise
/// it asks for exactly what its names ask for, each once.
pub proof fn csr_asks_for_its_names(request: CertificationRequestView, id: IdentifierView)
    ensures
        request.rest.len() > 0 ==> csr::request_identifiers(request) == Err::<
            Seq<IdentifierView>,
            CsrError,
        >(CsrError::TrailingData),
        request.rest.len() == 0 && (exists|i: int|
            0 <= i < request.names.len() && (#[trigger] request.names[i] matches CsrNameView::Ip(
                octets,
            ) && octets.len() != 4 && octets.len() != 16)) ==> csr::request_identifiers(request)
            == Err::<Seq<IdentifierView>, CsrError>(CsrError::InvalidIpAddress),
        request.rest.len() == 0 && (forall|i: int|
            0 <= i < request.names.len() ==> (#[trigger] request.names[i]) is Other)
            ==> csr::request_identifiers(request) == Err::<Seq<IdentifierView>, CsrError>(
            CsrError::NoIdentifiers,
        ),
        csr::request_identifiers(request) is Ok <==> request.rest.len() == 0 && (forall|i: int|
            0 <= i < request.names.len() ==> (#[trigger] request.names[i] matches CsrNameView::Ip(
                octets,
            ) ==> octets.len() == 4 || octets.len() == 16)) && (exists|i: int|
            0 <= i < request.names.len() && !((#[trigger] request.names[i]) is Other)),
        csr::request_identifiers(request) matches Ok(ids) ==> ids.no_duplicates() && (ids.contains(
            id,
        ) <==> exists|i: int|
            0 <= i < request.names.len() && asks_for(#[trigger] request.names[i], id)),
{
    let names = request.names;
    lemma_asked(names, id);
    identifier::distinct_keeps_each_once(csr::asked_identifiers(names));
    assert forall|i: int| 0 <= i < names.len() implies (csr::is_invalid_ip(#[trigger] names[i])
        <==> (names[i] matches CsrNameView::Ip(octets) && octets.len() != 4 && octets.len() != 16)) by {
        if let CsrNameView::Ip(octets) = names[i] {
            ip::laws::octets_are_kept(octets);
        }
    }
    assert forall|i: int| 0 <= i < names.len() && !csr::is_invalid_ip(names[i]) implies (
    csr::name_identifier(#[trigger] names[i]) is None <==> names[i] is Other) by {}
    if exists|i: int|
        0 <= i < names.len() && (#[trigger] names[i] matches CsrNameView::Ip(octets) && octets.len()
            != 4 && octets.len() != 16) {
        let i = choose|i: int|
            0 <= i < names.len() && (#[trigger] names[i] matches CsrNameView::Ip(octets)
                && octets.len() != 4 && octets.len() != 16);
        assert(csr::is_invalid_ip(names[i]));
    }
}

/// The identifiers that a CSR asks for are in the order in which its names ask for them.
pub proof fn csr_identifiers_are_in_order(request: CertificationRequestView, i: int, j: int)
    requires
        csr::request_identifiers(request) is Ok,
        0 <= i < j < (csr::request_identifiers(request)->Ok_0).len(),
    ensures
        ({
            let ids = csr::request_identifiers(request)->Ok_0;
            let asked = csr::asked_identifiers(request.names);
            exists|a: int|
                0 <= a < asked.len() && #[trigger] asked[a] == ids[i] && !asked.take(a + 1).contains(
                    ids[j],
                )
        }),
{
    distinct_is_in_order(csr::asked_identifiers(request.names), i, j);
}

/// A CSR that asks for DNS names and addresses only passes the check against an order exactly
/// where it asks for all that the order names and for nothing else. One that asks for anything
/// of another kind never passes.
pub proof fn order_and_csr_name_the_same(
    request: CertificationRequestView,
    order: Seq<IdentifierView>,
    id: IdentifierView,
)
    requires
        csr::order_check(request, order) == Ok::<(), CsrError>(()),
    ensures
        csr::request_identifiers(request) is Ok,
        forall|i: int| 0 <= i < request.names.len() ==> !((#[trigger] request.names[i]) is Other),
        order.contains(id) <==> exists|i: int|
            0 <= i < request.names.len() && asks_for(#[trigger] request.names[i], id),
{
    csr_asks_for_its_names(request, id);
    let ids = csr::request_identifiers(request)->Ok_0;
    if order.contains(id) {
        let k = choose|k: int| 0 <= k < order.len() && order[k] == id;
        assert(ids.contains(order[k]));
    }
    if ids.contains(id) {
        let k = choose|k: int| 0 <= k < ids.len() && ids[k] == id;
        assert(order.contains(ids[k]));
    }
}

/// A CSR passes the check wherever it asks for DNS names and addresses only, and for the same
/// identifiers as the order names. Why it does not pass is told otherwise.
pub proof fn same_names_pass_the_check(
    request: CertificationRequestView,
    order: Seq<IdentifierView>,
    ids: Seq<IdentifierView>,
)
    requires
        csr::request_identifiers(request) == Ok::<Seq<IdentifierView>, CsrError>(ids),
    ensures
        ({
            let other = exists|i: int|
                0 <= i < request.names.len() && (#[trigger] request.names[i]) is Other;
            let asked_in_vain = exists|id: IdentifierView| #[trigger]
                ids.contains(id) && !order.contains(id);
            let left_out = exists|id: IdentifierView| #[trigger]
                order.contains(id) && !ids.contains(id);
            let check = csr::order_check(request, order);
            &&& other ==> check == Err::<(), CsrError>(CsrError::UnsupportedName)
            &&& !other && asked_in_vain ==> check == Err::<(), CsrError>(CsrError::NotInOrder)
            &&& !other && !asked_in_vain && left_out ==> check == Err::<(), CsrError>(
                CsrError::NotInCsr,
            )
            &&& !other && !asked_in_vain && !left_out ==> check == Ok::<(), CsrError>(())
        }),
{
    if exists|id: IdentifierView| #[trigger] ids.contains(id) && !order.contains(id) {
        let id = choose|id: IdentifierView| #[trigger] ids.contains(id) && !order.contains(id);
        let k = choose|k: int| 0 <= k < ids.len() && ids[k] == id;
        assert(!order.contains(ids[k]));
    } else {
        assert forall|k: int| 0 <= k < ids.len() implies order.contains(#[trigger] ids[k]) by {
            assert(ids.contains(ids[k]));
        }
    }
    if exists|id: IdentifierView| #[trigger] order.contains(id) && !ids.contains(id) {
        let id = choose|id: IdentifierView| #[trigger] order.contains(id) && !ids.contains(id);
        let k = choose|k: int| 0 <= k < order.len() && order[k] == id;
        assert(!ids.contains(order[k]));
    } else {
        assert forall|k: int| 0 <= k < order.len() implies ids.contains(#[trigger] order[k]) by {
            assert(order.contains(order[k]));
        }
    }
}

/// What a parsed CSR asks for, seen from the names that stand in it: every DNS name and every
/// address is ordered, and everything that is ordered stands in it. One that cannot be parsed
/// is refused with the reason.
pub proof fn csr_identifiers_are_its_names(
    parsed: Result<CertificationRequest, String>,
    r: Result<Vec<Identifier>, CsrError>,
)
    requires
        csr::asked_for(csr::parse_view(parsed), r),
    ensures
        parsed matches Err(why) ==> (r matches Err(CsrError::Malformed(reason)) && reason@ == why@),
        parsed is Ok && r is Ok ==> {
            let names = csr::requested_names((parsed->Ok_0).extensions@);
            &&& (parsed->Ok_0).rest@.len() == 0
            &&& forall|k: int|
                0 <= k < (r->Ok_0)@.len() ==> exists|i: int|
                    0 <= i < names.len() && asks_for(
                        #[trigger] names[i],
                        (#[trigger] (r->Ok_0)@[k])@,
                    )
            &&& forall|i: int|
                0 <= i < names.len() && !((#[trigger] names[i]) is Other) ==> exists|k: int|
                    0 <= k < (r->Ok_0)@.len() && asks_for(names[i], (#[trigger] (r->Ok_0)@[k])@)
        },
{
    if parsed is Ok && r is Ok {
        let request = parsed->Ok_0;
        let names = csr::requested_names(request.extensions@);
        let v = (r->Ok_0)@;
        let ids = identifier::views(v);
        assert(request@.names == names);
        assert forall|k: int| 0 <= k < v.len() implies exists|i: int|
            0 <= i < names.len() && asks_for(#[trigger] names[i], (#[trigger] v[k])@) by {
            assert(ids[k] == v[k]@);
            assert(ids.contains(v[k]@));
            csr_asks_for_its_names(request@, v[k]@);
        }
        assert forall|i: int| 0 <= i < names.len() && !((#[trigger] names[i]) is Other) implies exists|
            k: int,
        |
            0 <= k < v.len() && asks_for(names[i], (#[trigger] v[k])@) by {
            csr_asks_for_its_names(request@, IdentifierView::Dns(Seq::empty()));
            let id = lemma_name_asks(names[i]);
            assert(asks_for(names[i], id));
            csr_asks_for_its_names(request@, id);
            assert(ids.contains(id));
            let k = choose|k: int| 0 <= k < ids.len() && ids[k] == id;
            assert(v[k]@ == id);
        }
    }
}

/// The three kinds of sources of one CSR stand for the same bytes: DER bytes for themselves,
/// PEM text for what it decodes to, and a file for what its text decodes to. What a file is
/// said to hold counts for a file only.
pub proof fn sources_of_one_csr_agree(
    der: Vec<u8>,
    pem: Vec<u8>,
    path: String,
    file: Option<Vec<u8>>,
)
    ensures
        csr::source_der(CsrSource::Der(der), file) == Some(der@),
        csr::source_der(CsrSource::Pem(pem), file) == csr::pem_csr(pem@),
        csr::source_der(CsrSource::PemFile(path), Some(pem)) == csr::pem_csr(pem@),
        csr::source_der(CsrSource::PemFile(path), None) is None,
        csr::pem_csr(pem@) == Some(der@) ==> csr::source_der(CsrSource::Pem(pem), file)
            == csr::source_der(CsrSource::Der(der), file) && csr::source_der(
            CsrSource::PemFile(path),
            Some(pem),
        ) == csr::source_der(CsrSource::Der(der), file),
        csr::source_error(CsrSource::PemFile(path)) == CsrError::UndecodableFile(path),
        csr::source_error(CsrSource::Pem(pem)) == CsrError::Undecodable,
{
}

/// Loading a CSR gives the bytes of a DER source as they are, and of the others what the PEM
/// text decodes to, or the error of the kind of source. Only a file has to be read before.
pub proof fn loaded_csr_is_the_given_one(
    source: CsrSource,
    file: Option<Vec<u8>>,
    r: Result<Vec<u8>, CsrError>,
)
    requires
        csr::loads(source, file, r),
    ensures
        match source {
            CsrSource::Der(der) => (r matches Ok(bytes) && bytes@ == der@) && csr::source_file(
                source,
            ) is None,
            CsrSource::Pem(pem) => csr::source_file(source) is None && match csr::pem_csr(pem@) {
                Some(der) => r matches Ok(bytes) && bytes@ == der,
                None => r matches Err(CsrError::Undecodable),
            },
            CsrSource::PemFile(path) => csr::source_file(source) == Some(path) && match file {
                None => r == Err::<Vec<u8>, CsrError>(CsrError::UndecodableFile(path)),
                Some(pem) => match csr::pem_csr(pem@) {
                    Some(der) => r matches Ok(bytes) && bytes@ == der,
                    None => r == Err::<Vec<u8>, CsrError>(CsrError::UndecodableFile(path)),
                },
            },
        },
{
}

/// A CSR that cannot be parsed never passes the check against an order, and one that can is
/// checked by what it holds.
pub proof fn unparsed_csr_never_passes(
    parsed: Result<CertificationRequest, String>,
    order: Seq<IdentifierView>,
)
    ensures
        parsed matches Err(reason) ==> csr::parsed_check(parsed, order) == Err::<(), CsrError>(
            CsrError::Malformed(reason),
        ),
        parsed matches Ok(request) ==> csr::parsed_check(parsed, order) == csr::order_check(
            request@,
            order,
        ),
{
}

/// Identifiers are compared by their texts and addresses, as they are, and lists of them one by
/// one.
pub proof fn identifiers_are_seen_as_they_are(ids: Seq<Identifier>, a: Identifier, b: Identifier)
    ensures
        a@ == b@ <==> match (a, b) {
            (Identifier::Dns(x), Identifier::Dns(y)) => x@ == y@,
            (Identifier::Ip(x), Identifier::Ip(y)) => x == y,
            _ => false,
        },
        a matches Identifier::Dns(name) ==> a@ == IdentifierView::Dns(name@),
        a matches Identifier::Ip(addr) ==> a@ == IdentifierView::Ip(addr),
        identifier::views(ids).len() == ids.len(),
        forall|i: int| 0 <= i < ids.len() ==> identifier::views(ids)[i] == (#[trigger] ids[i])@,
{
}

/// A CSR is seen with the bytes behind it and the names in it, as they are.
pub proof fn csr_is_seen_as_it_is(request: CertificationRequest)
    ensures
        request@.rest == request.rest@,
        request@.names == csr::requested_names(request.extensions@),
        csr::parse_view(Ok(request)) == Ok::<CertificationRequestView, Seq<char>>(request@),
{
}

} // verus!
