//! DNS: finding the name servers of a host, and the records to publish for it.
pub mod laws;

use crate::ip;
use crate::ip::IpAddress;
use crate::text;
use vstd::prelude::*;
use vstd::slice::*;
use vstd::string::*;

verus! {

/// The type of a DNS record that is published.
#[derive(Clone, Copy, Debug, PartialEq, Eq, Structural)]
pub enum RecordType {
    A,
    Aaaa,
    Txt,
}

impl RecordType {
    /// The name of the record type.
    pub open spec fn text(self) -> Seq<char> {
        match self {
            RecordType::A => "A"@,
            RecordType::Aaaa => "AAAA"@,
            RecordType::Txt => "TXT"@,
        }
    }

    /// The name of the record type.
    pub fn name(self) -> (r: String)
        ensures
            r@ == self.text(),
    {
        match self {
            RecordType::A => "A".to_owned(),
            RecordType::Aaaa => "AAAA".to_owned(),
            RecordType::Txt => "TXT".to_owned(),
        }
    }
}

/// A DNS record as the Cloudflare API is asked to create it.
#[derive(Clone, Debug, PartialEq, Eq)]
pub struct DnsRecord {
    pub record_type: RecordType,
    pub name: String,
    pub content: String,
    /// Time to live, in seconds.
    pub ttl: u32,
    pub proxied: bool,
}

/// The value of a [`DnsRecord`].
pub struct DnsRecordView {
    pub record_type: RecordType,
    pub name: Seq<char>,
    pub content: Seq<char>,
    pub ttl: u32,
    pub proxied: bool,
}

impl View for DnsRecord {
    type V = DnsRecordView;

    open spec fn view(&self) -> DnsRecordView {
        DnsRecordView {
            record_type: self.record_type,
            name: self.name@,
            content: self.content@,
            ttl: self.ttl,
            proxied: self.proxied,
        }
    }
}

/// The URL of the DNS records of a Cloudflare zone.
pub open spec fn records_url_of(zone: Seq<char>) -> Seq<char> {
    "https://api.cloudflare.com/client/v4/zones/"@ + zone + "/dns_records"@
}

/// The URL of the DNS records of a Cloudflare zone.
pub fn records_url(zone: &str) -> (r: String)
    ensures
        r@ == records_url_of(zone@),
{
    text::concat3("https://api.cloudflare.com/client/v4/zones/", zone, "/dns_records")
}

/// The URL of one DNS record of a Cloudflare zone.
pub open spec fn record_url_of(zone: Seq<char>, record_id: Seq<char>) -> Seq<char> {
    records_url_of(zone) + "/"@ + record_id
}

/// The URL of one DNS record of a Cloudflare zone.
pub fn record_url(zone: &str, record_id: &str) -> (r: String)
    ensures
        r@ == record_url_of(zone@, record_id@),
{
    let url = records_url(zone);
    text::concat3(url.as_str(), "/", record_id)
}

/// The fully qualified form of a name.
pub fn fqdn(name: &str) -> (r: String)
    ensures
        r@ == name@ + "."@,
{
    text::concat2(name, ".")
}

/// `name` without its first label and the dot behind it.
pub open spec fn parent_zone(name: Seq<char>) -> Seq<char> {
    name.skip(text::first_index(name, '.') + 1)
}

/// The zones in which a host may lie: the host itself and its parents, as long as
/// there are at least two labels, the longest first.
pub open spec fn zone_candidates(host: Seq<char>) -> Seq<Seq<char>>
    decreases host.len(),
    via zone_candidates_decreases
{
    if text::first_index(host, '.') >= host.len() {
        Seq::empty()
    } else {
        seq![host] + zone_candidates(parent_zone(host))
    }
}

#[via_fn]
proof fn zone_candidates_decreases(host: Seq<char>) {
    text::lemma_first_index(host, '.');
}

/// What a search for name servers has come to.
pub enum NameServersPhase {
    /// The NS records of the current candidate are being looked up.
    Zone,
    /// The addresses of the name server with this index are being looked up.
    Address { index: nat },
    /// The search is over.
    Found,
    /// The addresses of a name server could not be looked up.
    Failed,
}

/// The state of a search for name servers.
pub struct NameServersState {
    pub phase: NameServersPhase,
    /// The zone that is tried, and those left to try after it.
    pub candidates: Seq<Seq<char>>,
    /// The name servers of the zone.
    pub servers: Seq<Seq<char>>,
    /// The addresses found so far.
    pub addresses: Seq<IpAddress>,
}

/// What a search for name servers asks for.
#[derive(Debug, PartialEq, Eq)]
pub enum NameServersAction {
    /// Look up the NS records of this fully qualified name.
    LookUpZone(String),
    /// Look up the addresses of this name server.
    LookUpAddress(String),
    /// The search is over: these are the addresses.
    Finish(Vec<IpAddress>),
    /// The search failed: the last lookup's error is the reason.
    Fail,
}

/// What came of the last action of a search for name servers.
#[derive(Debug, PartialEq, Eq)]
pub enum NameServersEvent {
    /// The NS records of the zone.
    Servers(Vec<String>),
    /// The addresses of the name server.
    Addresses(Vec<IpAddress>),
    /// The lookup failed.
    Failed,
}

/// The views of a list of strings.
pub open spec fn strings(v: Seq<String>) -> Seq<Seq<char>> {
    v.map_values(|s: String| s@)
}

impl NameServersState {
    /// The state in which `candidates` are left to try.
    pub open spec fn trying(candidates: Seq<Seq<char>>) -> NameServersState {
        NameServersState {
            phase: if candidates.len() == 0 {
                NameServersPhase::Found
            } else {
                NameServersPhase::Zone
            },
            candidates,
            servers: Seq::empty(),
            addresses: Seq::empty(),
        }
    }

    /// The state in which the name servers of `host` are searched for.
    pub open spec fn search_for(host: Seq<char>) -> NameServersState {
        NameServersState::trying(zone_candidates(host))
    }

    /// The state after `event`.
    ///
    /// A zone that cannot be looked up or has no name servers gives way to the next
    /// candidate. The first one that has some is searched to the end.
    pub open spec fn next(self, event: NameServersEvent) -> NameServersState {
        match self.phase {
            NameServersPhase::Zone => match event {
                NameServersEvent::Servers(servers) if servers@.len() > 0 => NameServersState {
                    phase: NameServersPhase::Address { index: 0 },
                    servers: strings(servers@),
                    ..self
                },
                _ => NameServersState::trying(self.candidates.drop_first()),
            },
            NameServersPhase::Address { index } => match event {
                NameServersEvent::Addresses(addresses) => NameServersState {
                    phase: if index + 1 < self.servers.len() {
                        NameServersPhase::Address { index: index + 1 }
                    } else {
                        NameServersPhase::Found
                    },
                    addresses: self.addresses + addresses@,
                    ..self
                },
                _ => NameServersState { phase: NameServersPhase::Failed, ..self },
            },
            _ => self,
        }
    }

    /// Whether `action` is what this state asks for.
    pub open spec fn asks(self, action: NameServersAction) -> bool {
        match self.phase {
            NameServersPhase::Zone => action matches NameServersAction::LookUpZone(name) && name@
                == self.candidates[0] + "."@,
            NameServersPhase::Address { index } => action matches NameServersAction::LookUpAddress(
                name,
            ) && name@ == self.servers[index as int],
            NameServersPhase::Found => action matches NameServersAction::Finish(addresses)
                && addresses@ == self.addresses,
            NameServersPhase::Failed => action is Fail,
        }
    }
}

/// The phase of a running search.
enum Search {
    Zone,
    Address(usize),
    Found,
    Failed,
}

/// A search for the name servers of a host: the addresses of the servers of the
/// innermost zone around the host that has any.
pub struct NameServers {
    phase: Search,
    /// The characters of the zone that is tried.
    zone: Vec<char>,
    servers: Vec<String>,
    addresses: Vec<IpAddress>,
}

impl View for NameServers {
    type V = NameServersState;

    closed spec fn view(&self) -> NameServersState {
        NameServersState {
            phase: match self.phase {
                Search::Zone => NameServersPhase::Zone,
                Search::Address(index) => NameServersPhase::Address { index: index as nat },
                Search::Found => NameServersPhase::Found,
                Search::Failed => NameServersPhase::Failed,
            },
            candidates: zone_candidates(self.zone@),
            servers: strings(self.servers@),
            addresses: self.addresses@,
        }
    }
}

impl NameServers {
    /// What holds of every search.
    pub closed spec fn wf(&self) -> bool {
        &&& self.phase is Zone ==> zone_candidates(self.zone@).len() > 0
        &&& self.phase matches Search::Address(index) ==> index < self.servers@.len()
    }

    /// The search with `zone` as the next zone to try.
    fn at(zone: Vec<char>) -> (r: NameServers)
        ensures
            r.wf(),
            r@ == NameServersState::trying(zone_candidates(zone@)),
    {
        let dot = text::find_char(&zone, '.');
        let phase = if dot < zone.len() {
            Search::Zone
        } else {
            Search::Found
        };
        let r = NameServers { phase, zone, servers: Vec::new(), addresses: Vec::new() };
        proof {
            assert(strings(r.servers@) =~= Seq::<Seq<char>>::empty());
        }
        r
    }

    /// A search for the name servers of `host`.
    pub fn new(host: &str) -> (r: NameServers)
        ensures
            r.wf(),
            r@ == NameServersState::search_for(host@),
    {
        NameServers::at(text::chars_of(host))
    }

    /// The next thing to do.
    pub fn action(&self) -> (r: NameServersAction)
        requires
            self.wf(),
        ensures
            self@.asks(r),
    {
        match self.phase {
            Search::Zone => {
                let zone = text::string_of(&self.zone);
                NameServersAction::LookUpZone(fqdn(zone.as_str()))
            },
            Search::Address(index) => NameServersAction::LookUpAddress(self.servers[index].clone()),
            Search::Found => NameServersAction::Finish(self.addresses.clone()),
            Search::Failed => NameServersAction::Fail,
        }
    }

    /// Take in what came of the last action.
    pub fn step(&mut self, event: NameServersEvent)
        requires
            old(self).wf(),
        ensures
            final(self).wf(),
            final(self)@ == old(self)@.next(event),
    {
        match self.phase {
            Search::Zone => {
                if let NameServersEvent::Servers(servers) = event {
                    if servers.len() > 0 {
                        self.servers = servers;
                        self.phase = Search::Address(0);
                        return;
                    }
                }
                let total: usize = self.zone.len();
                let dot = text::find_char(&self.zone, '.');
                let parent = slice_to_vec(slice_subrange(self.zone.as_slice(), dot + 1, total));
                proof {
                    assert(parent@ =~= parent_zone(self.zone@));
                    assert(zone_candidates(self.zone@).drop_first() =~= zone_candidates(parent@));
                }
                *self = NameServers::at(parent);
            },
            Search::Address(index) => {
                if let NameServersEvent::Addresses(addresses) = event {
                    let mut more = addresses;
                    self.addresses.append(&mut more);
                    let count: usize = self.servers.len();
                    if index < count - 1 {
                        self.phase = Search::Address(index + 1);
                    } else {
                        self.phase = Search::Found;
                    }
                } else {
                    self.phase = Search::Failed;
                }
            },
            _ => {},
        }
    }
}

/// The state of a search after `events`.
pub open spec fn searched(
    start: NameServersState,
    events: Seq<NameServersEvent>,
) -> NameServersState
    decreases events.len(),
{
    if events.len() == 0 {
        start
    } else {
        searched(start, events.drop_last()).next(events.last())
    }
}

/// Whether `event` brings the name servers of a zone.
pub open spec fn brings_servers(event: NameServersEvent) -> bool {
    event matches NameServersEvent::Servers(servers) && servers@.len() > 0
}

/// The zones are tried one after the other, from the host outwards. Where none of
/// them has name servers, the search ends without an address and without an error.
pub proof fn zones_are_tried_in_order(host: Seq<char>, events: Seq<NameServersEvent>)
    requires
        events.len() <= zone_candidates(host).len(),
        forall|i: int| 0 <= i < events.len() ==> !brings_servers(#[trigger] events[i]),
    ensures
        searched(NameServersState::trying(zone_candidates(host)), events)
            == NameServersState::trying(zone_candidates(host).skip(events.len() as int)),
    decreases events.len(),
{
    let all = zone_candidates(host);
    if events.len() == 0 {
        assert(all.skip(0) =~= all);
    } else {
        let front = events.drop_last();
        assert forall|i: int| 0 <= i < front.len() implies !brings_servers(#[trigger] front[i]) by {
            assert(front[i] == events[i]);
        }
        zones_are_tried_in_order(host, front);
        assert(!brings_servers(events[events.len() - 1]));
        assert(all.skip(front.len() as int).drop_first() =~= all.skip(events.len() as int));
    }
}

/// All the addresses in a list of lists, in order.
pub open spec fn all_addresses(lists: Seq<Vec<IpAddress>>) -> Seq<IpAddress>
    decreases lists.len(),
{
    if lists.len() == 0 {
        Seq::empty()
    } else {
        all_addresses(lists.drop_last()) + lists.last()@
    }
}

/// The events that bring the addresses of one name server after the other.
pub open spec fn address_events(lists: Seq<Vec<IpAddress>>) -> Seq<NameServersEvent> {
    lists.map_values(|list: Vec<IpAddress>| NameServersEvent::Addresses(list))
}

/// Once a zone with name servers is found, every one of them is looked up, and the
/// search ends with all their addresses in order.
pub proof fn every_server_is_looked_up(
    zone: NameServersState,
    servers: Vec<String>,
    lists: Seq<Vec<IpAddress>>,
)
    requires
        zone.phase is Zone,
        zone.addresses == Seq::<IpAddress>::empty(),
        servers@.len() > 0,
        lists.len() <= servers@.len(),
    ensures
        ({
            let end = searched(zone.next(NameServersEvent::Servers(servers)), address_events(lists));
            &&& end.addresses == all_addresses(lists)
            &&& end.servers == strings(servers@)
            &&& if lists.len() < servers@.len() {
                end.phase == (NameServersPhase::Address { index: lists.len() })
            } else {
                end.phase is Found
            }
        }),
    decreases lists.len(),
{
    let events = address_events(lists);
    if lists.len() > 0 {
        every_server_is_looked_up(zone, servers, lists.drop_last());
        assert(events.drop_last() =~= address_events(lists.drop_last()));
    }
}

/// Every zone that is tried ends the host's name and has at least two labels.
pub proof fn zones_end_the_host(host: Seq<char>, i: int)
    requires
        0 <= i < zone_candidates(host).len(),
    ensures
        zone_candidates(host)[i].is_suffix_of(host),
        zone_candidates(host)[i].contains('.'),
        i == 0 ==> zone_candidates(host)[i] == host,
    decreases host.len(),
{
    text::lemma_first_index(host, '.');
    let dot = text::first_index(host, '.');
    if i == 0 {
        assert(host[dot] == '.');
    } else {
        zones_end_the_host(parent_zone(host), i - 1);
    }
}

/// Why the record of a host could not be ensured.
#[derive(Clone, Copy, Debug, PartialEq, Eq, Structural)]
pub enum HostRecordFailure {
    /// Cloudflare did not create the record of this type.
    Refused(RecordType),
    /// The last action failed: its error is the reason.
    Outside,
}

impl HostRecordFailure {
    /// The message for people.
    pub open spec fn text(self) -> Seq<char> {
        match self {
            HostRecordFailure::Refused(record_type) => "failed to create Cloudflare "@
                + record_type.text() + " record"@,
            HostRecordFailure::Outside => "failed to ensure the host record"@,
        }
    }

    /// The message for people.
    pub fn message(self) -> (r: String)
        ensures
            r@ == self.text(),
    {
        match self {
            HostRecordFailure::Refused(record_type) => {
                let name = record_type.name();
                text::concat3("failed to create Cloudflare ", name.as_str(), " record")
            },
            HostRecordFailure::Outside => "failed to ensure the host record".to_owned(),
        }
    }
}

/// How far the ensuring of a host record has come.
#[derive(Clone, Copy, Debug, PartialEq, Eq)]
pub enum HostRecordPhase {
    FindNameServers,
    LookUp,
    Create,
    Finished(Result<(), HostRecordFailure>),
}

/// What came of the last action of a [`HostRecord`].
#[derive(Debug, PartialEq, Eq)]
pub enum HostRecordEvent {
    /// The name servers of the host are known.
    NameServersFound,
    /// The texts of the records that the host already has.
    Answers(Vec<String>),
    /// The existing records could not be looked up.
    LookupFailed,
    /// The answer to the request to create the record says whether it was done.
    Created { success: bool },
    /// The action failed.
    Failed,
}

/// What a [`HostRecord`] asks for.
#[derive(Debug, PartialEq, Eq)]
pub enum HostRecordAction {
    /// Find the name servers of this host, and ask them from here on.
    FindNameServers(String),
    /// Look up the records of this fully qualified name and type.
    LookUp(String, RecordType),
    /// Create this record.
    Create(DnsRecord),
    /// It is over.
    Finish(Result<(), HostRecordFailure>),
}

/// The type of the record that holds an address.
pub open spec fn address_record_type(ip: IpAddress) -> RecordType {
    match ip {
        IpAddress::V4(_) => RecordType::A,
        IpAddress::V6(_) => RecordType::Aaaa,
    }
}

/// Whether `start` is what the ensuring that `host` has a record with the address written as
/// `ip_text` starts with: nothing where that is no address.
pub open spec fn starts_with(
    host: Seq<char>,
    ip_text: Seq<char>,
    start: Option<HostRecord>,
) -> bool {
    match ip::ip_literal(ip_text) {
        Some(ip) => start matches Some(record) && record.host@ == host && record.ip == ip
            && record.ip_text@ == ip_text && record.phase is FindNameServers,
        None => start is None,
    }
}

/// The ensuring that a host has a record with its address.
#[derive(Debug, PartialEq, Eq)]
pub struct HostRecord {
    pub host: String,
    pub ip: IpAddress,
    /// The text form of `ip`.
    pub ip_text: String,
    pub phase: HostRecordPhase,
}

impl HostRecord {
    /// The phase after `event`.
    ///
    /// Where the existing records cannot be looked up, the record is created.
    pub open spec fn next(self, event: HostRecordEvent) -> HostRecordPhase {
        match (self.phase, event) {
            (HostRecordPhase::Finished(_), _) => self.phase,
            (HostRecordPhase::FindNameServers, HostRecordEvent::NameServersFound) => {
                HostRecordPhase::LookUp
            },
            (HostRecordPhase::LookUp, HostRecordEvent::Answers(answers)) => {
                if text::some_contains(answers@, self.ip_text@) {
                    HostRecordPhase::Finished(Ok(()))
                } else {
                    HostRecordPhase::Create
                }
            },
            (HostRecordPhase::LookUp, HostRecordEvent::LookupFailed) => HostRecordPhase::Create,
            (HostRecordPhase::Create, HostRecordEvent::Created { success }) => {
                if success {
                    HostRecordPhase::Finished(Ok(()))
                } else {
                    HostRecordPhase::Finished(
                        Err(HostRecordFailure::Refused(address_record_type(self.ip))),
                    )
                }
            },
            _ => HostRecordPhase::Finished(Err(HostRecordFailure::Outside)),
        }
    }

    /// Whether `action` is what this phase asks for.
    pub open spec fn asks(self, action: HostRecordAction) -> bool {
        match self.phase {
            HostRecordPhase::FindNameServers => action matches HostRecordAction::FindNameServers(
                host,
            ) && host@ == self.host@,
            HostRecordPhase::LookUp => action matches HostRecordAction::LookUp(name, record_type)
                && name@ == self.host@ + "."@ && record_type == address_record_type(self.ip),
            HostRecordPhase::Create => action matches HostRecordAction::Create(record)
                && record@ == self.record(),
            HostRecordPhase::Finished(outcome) => action == HostRecordAction::Finish(outcome),
        }
    }

    /// The record that gives the host its address.
    pub open spec fn record(self) -> DnsRecordView {
        DnsRecordView {
            record_type: address_record_type(self.ip),
            name: self.host@,
            content: self.ip_text@,
            ttl: 3600,
            proxied: false,
        }
    }

    /// Whether the text is a form of the address.
    pub open spec fn valid(self) -> bool {
        ip::ip_literal(self.ip_text@) == Some(self.ip)
    }

    /// Start to ensure that `host` has a record with the address whose text form is
    /// `ip_text`. There is nothing to ensure where that is no text form of an address.
    pub fn new(host: &str, ip_text: &str) -> (r: Option<HostRecord>)
        ensures
            starts_with(host@, ip_text@, r),
            r matches Some(record) ==> record.valid(),
    {
        match ip::parse_ip(ip_text) {
            Some(ip) => Some(
                HostRecord {
                    host: host.to_owned(),
                    ip,
                    ip_text: ip_text.to_owned(),
                    phase: HostRecordPhase::FindNameServers,
                },
            ),
            None => None,
        }
    }

    /// The type of the record.
    pub fn record_type(&self) -> (r: RecordType)
        ensures
            r == address_record_type(self.ip),
    {
        match self.ip {
            IpAddress::V4(_) => RecordType::A,
            IpAddress::V6(_) => RecordType::Aaaa,
        }
    }

    /// The next thing to do.
    pub fn action(&self) -> (r: HostRecordAction)
        ensures
            self.asks(r),
    {
        match self.phase {
            HostRecordPhase::FindNameServers => {
                HostRecordAction::FindNameServers(self.host.clone())
            },
            HostRecordPhase::LookUp => {
                HostRecordAction::LookUp(fqdn(self.host.as_str()), self.record_type())
            },
            HostRecordPhase::Create => HostRecordAction::Create(
                DnsRecord {
                    record_type: self.record_type(),
                    name: self.host.clone(),
                    content: self.ip_text.clone(),
                    ttl: 3600,
                    proxied: false,
                },
            ),
            HostRecordPhase::Finished(outcome) => HostRecordAction::Finish(outcome),
        }
    }

    /// Take in what came of the last action.
    pub fn step(&mut self, event: HostRecordEvent)
        ensures
            *final(self) == (HostRecord { phase: old(self).next(event), ..*old(self) }),
            final(self).valid() == old(self).valid(),
    {
        let phase = match (self.phase, event) {
            (HostRecordPhase::Finished(outcome), _) => HostRecordPhase::Finished(outcome),
            (HostRecordPhase::FindNameServers, HostRecordEvent::NameServersFound) => {
                HostRecordPhase::LookUp
            },
            (HostRecordPhase::LookUp, HostRecordEvent::Answers(answers)) => {
                if text::any_contains(&answers, self.ip_text.as_str()) {
                    // Record already exists, nothing to do.
                    HostRecordPhase::Finished(Ok(()))
                } else {
                    HostRecordPhase::Create
                }
            },
            (HostRecordPhase::LookUp, HostRecordEvent::LookupFailed) => HostRecordPhase::Create,
            (HostRecordPhase::Create, HostRecordEvent::Created { success }) => {
                if success {
                    HostRecordPhase::Finished(Ok(()))
                } else {
                    HostRecordPhase::Finished(Err(HostRecordFailure::Refused(self.record_type())))
                }
            },
            _ => HostRecordPhase::Finished(Err(HostRecordFailure::Outside)),
        };
        self.phase = phase;
    }
}

/// A record is asked for only where the lookup did not show that the host already has
/// one with the address, and no answer leads back to asking again.
pub proof fn record_is_created_at_most_once(r: HostRecord, event: HostRecordEvent)
    ensures
        r.next(event) is Create ==> r.phase is LookUp && (event matches HostRecordEvent::Answers(
            answers,
        ) ==> !text::some_contains(answers@, r.ip_text@)),
        r.phase is Create ==> r.next(event) is Finished,
        r.phase is Finished ==> r.next(event) == r.phase,
{
}

/// The record that is created for an address holds that address: its content is a text form
/// of an address, and its type is the one for addresses of that kind.
pub proof fn record_holds_the_address(r: HostRecord)
    requires
        r.valid(),
    ensures
        ip::ip_literal(r.record().content) == Some(r.ip),
        r.record().record_type is A <==> ip::ipv4(r.record().content) is Some,
        r.record().record_type is Aaaa <==> ip::ipv4(r.record().content) is None && ip::ipv6(
            r.record().content,
        ) is Some,
{
}

} // verus!
