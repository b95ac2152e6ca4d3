use isekai_util::dns::{
    fqdn, record_url, records_url, DnsRecord, HostRecord, HostRecordAction, HostRecordEvent,
    HostRecordFailure, NameServers, NameServersAction, NameServersEvent, RecordType,
};
use isekai_util::ip::IpAddress;

fn zone(name: &str) -> NameServersAction {
    NameServersAction::LookUpZone(name.to_owned())
}

fn servers(names: &[&str]) -> NameServersEvent {
    NameServersEvent::Servers(names.iter().map(|name| name.to_string()).collect())
}

#[test]
fn urls_name_the_zone_and_the_record() {
    assert_eq!(
        records_url("z"),
        "https://api.cloudflare.com/client/v4/zones/z/dns_records"
    );
    assert_eq!(
        record_url("z", "r"),
        "https://api.cloudflare.com/client/v4/zones/z/dns_records/r"
    );
    assert_eq!(fqdn("example.com"), "example.com.");
}

#[test]
fn zones_are_tried_from_the_host_outwards() {
    let mut search = NameServers::new("a.b.example.com");
    for name in ["a.b.example.com.", "b.example.com.", "example.com."] {
        assert_eq!(search.action(), zone(name));
        search.step(if name == "b.example.com." {
            NameServersEvent::Failed
        } else {
            servers(&[])
        });
    }
    assert_eq!(search.action(), NameServersAction::Finish(vec![]));
}

#[test]
fn host_without_a_dot_has_no_zone() {
    assert_eq!(
        NameServers::new("localhost").action(),
        NameServersAction::Finish(vec![])
    );
}

#[test]
fn every_server_of_the_innermost_zone_is_looked_up() {
    let mut search = NameServers::new("www.example.com");
    search.step(servers(&[]));
    search.step(servers(&["ns1.", "ns2."]));
    assert_eq!(
        search.action(),
        NameServersAction::LookUpAddress("ns1.".to_owned())
    );
    search.step(NameServersEvent::Addresses(vec![
        IpAddress::V4(1),
        IpAddress::V6(2),
    ]));
    assert_eq!(
        search.action(),
        NameServersAction::LookUpAddress("ns2.".to_owned())
    );
    search.step(NameServersEvent::Addresses(vec![IpAddress::V4(3)]));
    let all = vec![IpAddress::V4(1), IpAddress::V6(2), IpAddress::V4(3)];
    assert_eq!(search.action(), NameServersAction::Finish(all));
}

#[test]
fn failed_address_lookup_fails_the_search() {
    let mut search = NameServers::new("example.com");
    search.step(servers(&["ns1."]));
    search.step(NameServersEvent::Failed);
    assert_eq!(search.action(), NameServersAction::Fail);
}

fn looked_up(ip: IpAddress, text: &str) -> HostRecord {
    let mut record = HostRecord::new("h.example.com", text).unwrap();
    assert_eq!(record.ip, ip);
    assert_eq!(
        record.action(),
        HostRecordAction::FindNameServers("h.example.com".to_owned())
    );
    record.step(HostRecordEvent::NameServersFound);
    record
}

#[test]
fn existing_record_is_kept() {
    let mut record = looked_up(IpAddress::V4(0xC0000201), "192.0.2.1");
    assert_eq!(
        record.action(),
        HostRecordAction::LookUp("h.example.com.".to_owned(), RecordType::A)
    );
    record.step(HostRecordEvent::Answers(vec![
        "h.example.com. 3600 IN A 192.0.2.1".to_owned(),
    ]));
    assert_eq!(record.action(), HostRecordAction::Finish(Ok(())));
}

#[test]
fn missing_record_is_created() {
    let mut record = looked_up(IpAddress::V6(1), "::1");
    assert_eq!(
        record.action(),
        HostRecordAction::LookUp("h.example.com.".to_owned(), RecordType::Aaaa)
    );
    record.step(HostRecordEvent::LookupFailed);
    assert_eq!(
        record.action(),
        HostRecordAction::Create(DnsRecord {
            record_type: RecordType::Aaaa,
            name: "h.example.com".to_owned(),
            content: "::1".to_owned(),
            ttl: 3600,
            proxied: false,
        })
    );
    record.step(HostRecordEvent::Created { success: true });
    assert_eq!(record.action(), HostRecordAction::Finish(Ok(())));
}

#[test]
fn refused_record_is_an_error() {
    let mut record = looked_up(IpAddress::V4(1), "0.0.0.1");
    record.step(HostRecordEvent::Answers(vec![]));
    record.step(HostRecordEvent::Created { success: false });
    let failure = HostRecordFailure::Refused(RecordType::A);
    assert_eq!(record.action(), HostRecordAction::Finish(Err(failure)));
    assert_eq!(failure.message(), "failed to create Cloudflare A record");
}

#[test]
fn failed_action_fails_the_record() {
    let mut record = HostRecord::new("h.example.com", "0.0.0.1").unwrap();
    record.step(HostRecordEvent::Failed);
    assert_eq!(
        record.action(),
        HostRecordAction::Finish(Err(HostRecordFailure::Outside))
    );
    assert_eq!(RecordType::Txt.name(), "TXT");
}

#[test]
fn record_needs_an_address() {
    assert_eq!(HostRecord::new("h.example.com", "example.com"), None);
    assert_eq!(HostRecord::new("h.example.com", ""), None);
}
