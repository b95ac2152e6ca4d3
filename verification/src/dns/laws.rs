//! What the name server search and the host record promise, in terms of the host, the address
//! and what comes back.
use crate::dns;
use crate::dns::{
    DnsRecord, HostRecord, HostRecordAction, HostRecordEvent, HostRecordFailure, HostRecordPhase,
    NameServersAction, NameServersEvent, NameServersState, RecordType,
};
use crate::ip::IpAddress;
use crate::text;
use vstd::prelude::*;
use vstd::string::*;

verus! {

/// How many dots there are in `s`.
pub open spec fn dots(s: Seq<char>) -> nat
    decreases s.len(),
{
    if s.len() == 0 {
        0
    } else {
        dots(s.drop_first()) + if s[0] == '.' {
            1nat
        } else {
            0nat
        }
    }
}

proof fn lemma_no_dots(s: Seq<char>)
    requires
        forall|k: int| 0 <= k < s.len() ==> #[trigger] s[k] != '.',
    ensures
        dots(s) == 0,
    decreases s.len(),
{
    if s.len() > 0 {
        let rest = s.drop_first();
        assert forall|k: int| 0 <= k < rest.len() implies #[trigger] rest[k] != '.' by {
            assert(rest[k] == s[k + 1]);
        }
        lemma_no_dots(rest);
        assert(s[0] != '.');
    }
}

proof fn lemma_dots_add(a: Seq<char>, b: Seq<char>)
    ensures
        dots(a + b) == dots(a) + dots(b),
    decreases a.len(),
{
    if a.len() == 0 {
        assert(a + b =~= b);
    } else {
        lemma_dots_add(a.drop_first(), b);
        assert((a + b).drop_first() =~= a.drop_first() + b);
    }
}

/// One zone is tried for each dot in the host's name. The zone with number `i` is what is left
/// of the name without its first `i` labels and the dots behind them.
pub proof fn zones_leave_out_labels(host: Seq<char>)
    ensures
        dns::zone_candidates(host).len() == dots(host),
        forall|i: int|
            0 <= i < dns::zone_candidates(host).len() ==> {
                let zone = #[trigger] dns::zone_candidates(host)[i];
                let cut = host.take(host.len() - zone.len());
                &&& zone.len() <= host.len()
                &&& host == cut + zone
                &&& dots(cut) == i
                &&& i > 0 ==> cut.len() > 0 && cut.last() == '.'
                &&& i == 0 ==> cut.len() == 0
            },
    decreases host.len(),
{
    text::lemma_first_index(host, '.');
    let dot = text::first_index(host, '.');
    let all = dns::zone_candidates(host);
    if dot >= host.len() {
        assert forall|k: int| 0 <= k < host.len() implies #[trigger] host[k] != '.' by {}
        lemma_no_dots(host);
    } else {
        let rest = dns::parent_zone(host);
        let label = host.take(dot + 1);
        assert(host =~= label + rest);
        zones_leave_out_labels(rest);
        let name = host.take(dot);
        assert forall|k: int| 0 <= k < name.len() implies #[trigger] name[k] != '.' by {
            assert(host[k] != '.');
        }
        lemma_no_dots(name);
        lemma_dots_add(name, seq!['.']);
        assert(seq!['.'].drop_first() =~= Seq::<char>::empty());
        assert(dots(seq!['.'].drop_first()) == 0);
        assert(dots(seq!['.']) == 1);
        assert(label =~= name + seq!['.']);
        lemma_dots_add(label, rest);
        assert(all.len() == 1 + dns::zone_candidates(rest).len());
        assert forall|i: int| 0 <= i < all.len() implies {
            let zone = #[trigger] all[i];
            let cut = host.take(host.len() - zone.len());
            &&& zone.len() <= host.len()
            &&& host == cut + zone
            &&& dots(cut) == i
            &&& i > 0 ==> cut.len() > 0 && cut.last() == '.'
            &&& i == 0 ==> cut.len() == 0
        } by {
            if i == 0 {
                assert(all[0] == host);
                let cut = host.take(0);
                assert(host =~= cut + host);
            } else {
                let inner = dns::zone_candidates(rest)[i - 1];
                assert(all[i] == inner);
                let rest_cut = rest.take(rest.len() - inner.len());
                let cut = host.take(host.len() - inner.len());
                assert(cut =~= label + rest_cut);
                lemma_dots_add(label, rest_cut);
                assert(host =~= cut + inner);
                if i == 1 {
                    assert(rest_cut.len() == 0);
                    assert(cut.last() == label.last());
                } else {
                    assert(cut.last() == rest_cut.last());
                }
            }
        }
    }
}

/// As long as no zone has name servers, the zones are looked up one after the other, each
/// with a dot behind it; then the search ends without an address.
pub proof fn each_zone_is_looked_up(
    host: Seq<char>,
    events: Seq<NameServersEvent>,
    action: NameServersAction,
)
    requires
        events.len() <= dots(host),
        forall|i: int|
            0 <= i < events.len() ==> (#[trigger] events[i] matches NameServersEvent::Servers(
                servers,
            ) ==> servers@.len() == 0),
        dns::searched(NameServersState::search_for(host), events).asks(action),
    ensures
        events.len() < dots(host) ==> (action matches NameServersAction::LookUpZone(name) && {
            let zone = name@.take(name@.len() - 1);
            &&& name@.len() >= 1
            &&& name@.last() == '.'
            &&& zone.len() <= host.len()
            &&& host == host.take(host.len() - zone.len()) + zone
            &&& dots(host.take(host.len() - zone.len())) == events.len()
            &&& events.len() > 0 ==> host[host.len() - zone.len() - 1] == '.'
            &&& events.len() == 0 ==> zone == host
        }),
        events.len() == dots(host) ==> (action matches NameServersAction::Finish(addresses)
            && addresses@.len() == 0),
{
    zones_leave_out_labels(host);
    assert forall|i: int| 0 <= i < events.len() implies !dns::brings_servers(#[trigger] events[i]) by {
    }
    dns::zones_are_tried_in_order(host, events);
    reveal_strlit(".");
    let n = events.len() as int;
    let all = dns::zone_candidates(host);
    if n < all.len() {
        let zone = all[n];
        assert(all.skip(n)[0] == zone);
        assert((zone + "."@).take(zone.len() as int) =~= zone);
        let cut = host.take(host.len() - zone.len());
        if n > 0 {
            assert(cut.last() == host[host.len() - zone.len() - 1]);
        } else {
            assert(cut + zone =~= zone);
        }
    }
}

/// Once a zone with name servers is found, the address of each of them is asked for in order,
/// by the very name that was given, and then the search ends with all the addresses.
pub proof fn each_server_is_asked_for(
    zone: NameServersState,
    servers: Vec<String>,
    lists: Seq<Vec<IpAddress>>,
    action: NameServersAction,
)
    requires
        zone.phase is Zone,
        zone.addresses == Seq::<IpAddress>::empty(),
        servers@.len() > 0,
        lists.len() <= servers@.len(),
        dns::searched(
            zone.next(NameServersEvent::Servers(servers)),
            dns::address_events(lists),
        ).asks(action),
    ensures
        lists.len() < servers@.len() ==> (action matches NameServersAction::LookUpAddress(name)
            && name@ == servers@[lists.len() as int]@),
        lists.len() == servers@.len() ==> (action matches NameServersAction::Finish(addresses)
            && addresses@ == dns::all_addresses(lists)),
{
    dns::every_server_is_looked_up(zone, servers, lists);
}

/// The addresses of a list of lists are those of the first lists, followed by those of the
/// last one.
pub proof fn addresses_are_kept_in_order(lists: Seq<Vec<IpAddress>>, last: Vec<IpAddress>)
    ensures
        dns::all_addresses(lists.push(last)) == dns::all_addresses(lists) + last@,
        dns::all_addresses(Seq::empty()) == Seq::<IpAddress>::empty(),
{
    assert(lists.push(last).drop_last() =~= lists);
}

/// A name server whose addresses cannot be looked up fails the search, whatever was found
/// before. A zone that cannot be looked up, or has no name servers, does not.
pub proof fn only_an_address_lookup_can_fail(state: NameServersState, event: NameServersEvent)
    ensures
        state.next(event).phase is Failed <==> state.phase is Failed || (state.phase is Address && !(
        event is Addresses)),
        state.phase is Failed ==> forall|action: NameServersAction| #[trigger]
            state.asks(action) ==> action is Fail,
{
}

/// The state of a host record after `events`.
pub open spec fn ran(start: HostRecord, events: Seq<HostRecordEvent>) -> HostRecord
    decreases events.len(),
{
    if events.len() == 0 {
        start
    } else {
        let before = ran(start, events.drop_last());
        HostRecord { phase: before.next(events.last()), ..before }
    }
}

proof fn lemma_host_is_kept(start: HostRecord, events: Seq<HostRecordEvent>)
    ensures
        ran(start, events).host == start.host,
        ran(start, events).ip == start.ip,
        ran(start, events).ip_text == start.ip_text,
    decreases events.len(),
{
    if events.len() > 0 {
        lemma_host_is_kept(start, events.drop_last());
    }
}

/// For every host and every address, of either family, what is asked for is about that host
/// and that address, whatever has come back so far: its name servers are found, the records
/// of its fully qualified name are looked up, and the record that is created bears its name
/// and holds the address as it was given, for an hour and without a proxy. The type that is
/// looked up and created is `A` for an IPv4 address and `AAAA` for an IPv6 address.
pub proof fn record_is_about_the_host(
    host: Seq<char>,
    ip_text: Seq<char>,
    start: HostRecord,
    events: Seq<HostRecordEvent>,
    action: HostRecordAction,
)
    requires
        dns::starts_with(host, ip_text, Some(start)),
        ran(start, events).asks(action),
    ensures
        action matches HostRecordAction::FindNameServers(name) ==> name@ == host,
        action matches HostRecordAction::LookUp(name, record_type) ==> {
            &&& name@.len() == host.len() + 1
            &&& name@.take(host.len() as int) == host
            &&& name@.last() == '.'
            &&& record_type is A <==> ip_text.contains('.') && !ip_text.contains(':')
            &&& record_type is Aaaa <==> ip_text.contains(':')
        },
        action matches HostRecordAction::Create(record) ==> {
            &&& record.name@ == host
            &&& record.content@ == ip_text
            &&& record.ttl == 3600
            &&& !record.proxied
            &&& record.record_type is A <==> ip_text.contains('.') && !ip_text.contains(':')
            &&& record.record_type is Aaaa <==> ip_text.contains(':')
        },
{
    reveal_strlit(".");
    lemma_host_is_kept(start, events);
    crate::ip::laws::literals_tell_their_family(ip_text);
    assert((host + "."@).take(host.len() as int) =~= host);
}

/// What comes of looking up the existing records: the record is kept where the text of one of
/// them has the address in it, and created where none has, or where they cannot be looked up.
pub proof fn record_is_created_where_it_is_missing(r: HostRecord, answers: Vec<String>)
    requires
        r.phase is LookUp,
    ensures
        r.next(HostRecordEvent::Answers(answers)) is Create <==> forall|i: int, at: int|
            0 <= i < answers@.len() && 0 <= at && at + r.ip_text@.len() <= (
            #[trigger] answers@[i])@.len() ==> #[trigger] answers@[i]@.skip(at).take(
                r.ip_text@.len() as int,
            ) != r.ip_text@,
        !(r.next(HostRecordEvent::Answers(answers)) is Create) ==> r.next(
            HostRecordEvent::Answers(answers),
        ) == HostRecordPhase::Finished(Ok(())),
        r.next(HostRecordEvent::LookupFailed) is Create,
{
    text::some_text_contains(answers@, r.ip_text@);
}

/// It ends well exactly where the record was found or was created, and a refusal names the type
/// of the record.
pub proof fn record_is_there_in_the_end(r: HostRecord, event: HostRecordEvent)
    requires
        !(r.phase is Finished),
    ensures
        r.next(event) == HostRecordPhase::Finished(Ok(())) <==> (r.phase is LookUp && (
        event matches HostRecordEvent::Answers(answers) && text::some_contains(
            answers@,
            r.ip_text@,
        ))) || (r.phase is Create && event == (HostRecordEvent::Created { success: true })),
        r.phase is Create && event == (HostRecordEvent::Created { success: false }) ==> r.next(event)
            == HostRecordPhase::Finished(
            Err(
                HostRecordFailure::Refused(
                    if r.ip is V4 {
                        RecordType::A
                    } else {
                        RecordType::Aaaa
                    },
                ),
            ),
        ),
        r.phase is FindNameServers && !(event is NameServersFound) ==> r.next(event)
            == HostRecordPhase::Finished(Err(HostRecordFailure::Outside)),
        r.phase is FindNameServers && event is NameServersFound ==> r.next(event) is LookUp,
{
}

/// The URLs name the zone and the record, character for character, at their places, so that
/// different zones and records have different URLs.
pub proof fn urls_name_the_zone_and_the_record(zone: Seq<char>, record_id: Seq<char>)
    ensures
        dns::records_url_of(zone).len() == 43 + zone.len() as int + 12,
        dns::records_url_of(zone).take(43) == "https://api.cloudflare.com/client/v4/zones/"@,
        dns::records_url_of(zone).subrange(43, 43 + zone.len() as int) == zone,
        dns::records_url_of(zone).skip(43 + zone.len() as int) == "/dns_records"@,
        dns::record_url_of(zone, record_id).len() == 43 + zone.len() as int + 13 + record_id.len(),
        dns::record_url_of(zone, record_id).take(43)
            == "https://api.cloudflare.com/client/v4/zones/"@,
        dns::record_url_of(zone, record_id).subrange(43, 43 + zone.len() as int) == zone,
        dns::record_url_of(zone, record_id).subrange(43 + zone.len() as int, 43 + zone.len() as int + 13)
            == "/dns_records/"@,
        dns::record_url_of(zone, record_id).skip(43 + zone.len() as int + 13) == record_id,
{
    reveal_strlit("https://api.cloudflare.com/client/v4/zones/");
    reveal_strlit("/dns_records");
    reveal_strlit("/dns_records/");
    reveal_strlit("/");
    let a = dns::records_url_of(zone);
    let b = dns::record_url_of(zone, record_id);
    let n = 43 + zone.len() as int;
    assert(a.take(43) =~= "https://api.cloudflare.com/client/v4/zones/"@);
    assert(a.subrange(43, n) =~= zone);
    assert(a.skip(n) =~= "/dns_records"@);
    assert(b.take(43) =~= "https://api.cloudflare.com/client/v4/zones/"@);
    assert(b.subrange(43, n) =~= zone);
    assert(b.subrange(n, n + 13) =~= "/dns_records/"@);
    assert(b.skip(n + 13) =~= record_id);
}

/// The types are called `A`, `AAAA` and `TXT`, and a refusal names the type.
pub proof fn record_types_have_their_names(record_type: RecordType)
    ensures
        RecordType::A.text() == seq!['A'],
        RecordType::Aaaa.text() == seq!['A', 'A', 'A', 'A'],
        RecordType::Txt.text() == seq!['T', 'X', 'T'],
        HostRecordFailure::Refused(record_type).text().len() == 35 + record_type.text().len(),
        HostRecordFailure::Refused(record_type).text().subrange(
            28,
            28 + record_type.text().len() as int,
        ) == record_type.text(),
{
    reveal_strlit("A");
    reveal_strlit("AAAA");
    reveal_strlit("TXT");
    reveal_strlit("failed to create Cloudflare ");
    reveal_strlit(" record");
    assert("A"@ =~= seq!['A']);
    assert("AAAA"@ =~= seq!['A', 'A', 'A', 'A']);
    assert("TXT"@ =~= seq!['T', 'X', 'T']);
    let name = record_type.text();
    assert(HostRecordFailure::Refused(record_type).text().subrange(28, 28 + name.len() as int)
        =~= name);
}

/// A record is seen as it is, field by field.
pub proof fn records_are_seen_as_they_are(record: DnsRecord)
    ensures
        record@.record_type == record.record_type,
        record@.name == record.name@,
        record@.content == record.content@,
        record@.ttl == record.ttl,
        record@.proxied == record.proxied,
{
}

} // verus!
