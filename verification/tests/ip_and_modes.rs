use isekai_util::ip::{ip_from_octets, parse_ip, IpAddress};
use isekai_util::secure_fs::{
    secret_file_mode, SecretDir, SecretDirAction, SecretDirEvent, SecretWrite, SecretWriteAction,
    SecretWriteEvent,
};

fn v6(groups: [u16; 8]) -> Option<IpAddress> {
    let value = groups
        .iter()
        .fold(0u128, |value, group| (value << 16) | u128::from(*group));
    Some(IpAddress::V6(value))
}

#[test]
fn ipv4_literals() {
    assert_eq!(parse_ip("0.0.0.0"), Some(IpAddress::V4(0)));
    assert_eq!(parse_ip("255.255.255.255"), Some(IpAddress::V4(u32::MAX)));
    assert_eq!(parse_ip("192.0.2.1"), Some(IpAddress::V4(0xC0000201)));
    for text in [
        "", ".", "1.2.3", "1.2.3.4.5", "1..2.3", "256.1.1.1", "1.2.3.1000", "01.2.3.4", "0.0.0.00",
        "1.2.3.4 ", " 1.2.3.4", "1.2.3.4\n", "+1.2.3.4", "1.2.3.a", "example.com", "1.2.3.4.",
    ] {
        assert_eq!(parse_ip(text), None, "{text}");
    }
}

#[test]
fn ipv6_literals() {
    assert_eq!(parse_ip("::"), v6([0; 8]));
    assert_eq!(parse_ip("::1"), v6([0, 0, 0, 0, 0, 0, 0, 1]));
    assert_eq!(parse_ip("1::"), v6([1, 0, 0, 0, 0, 0, 0, 0]));
    assert_eq!(parse_ip("1::2"), v6([1, 0, 0, 0, 0, 0, 0, 2]));
    assert_eq!(parse_ip("1:2:3:4:5:6:7:8"), v6([1, 2, 3, 4, 5, 6, 7, 8]));
    assert_eq!(parse_ip("1:2:3:4:5:6:7::"), v6([1, 2, 3, 4, 5, 6, 7, 0]));
    assert_eq!(parse_ip("::2:3:4:5:6:7:8"), v6([0, 2, 3, 4, 5, 6, 7, 8]));
    assert_eq!(parse_ip("1:2:3::5:6:7:8"), v6([1, 2, 3, 0, 5, 6, 7, 8]));
    assert_eq!(parse_ip("fFfF::abCD"), v6([0xffff, 0, 0, 0, 0, 0, 0, 0xabcd]));
    assert_eq!(
        parse_ip("2001:0db8:0000::0001"),
        v6([0x2001, 0xdb8, 0, 0, 0, 0, 0, 1])
    );
    for text in [
        ":", ":::", "1:::2", "::1::", "1:2:3:4:5:6:7", "1:2:3:4:5:6:7:8:9", "12345::", "00001::",
        "g::", "fe80::1%eth0", "[::1]", "1:2:3:4:5:6:7:8::", "1:2:3:4::5:6:7:8", ":1:2:3:4:5:6:7:8",
        "1:2:3:4:5:6:7:", "::1 ",
    ] {
        assert_eq!(parse_ip(text), None, "{text}");
    }
}

#[test]
fn ipv6_literals_with_dotted_end() {
    assert_eq!(parse_ip("::1.2.3.4"), v6([0, 0, 0, 0, 0, 0, 0x102, 0x304]));
    assert_eq!(
        parse_ip("1:2:3:4:5:6:1.2.3.4"),
        v6([1, 2, 3, 4, 5, 6, 0x102, 0x304])
    );
    assert_eq!(
        parse_ip("::ffff:192.0.2.128"),
        v6([0, 0, 0, 0, 0, 0xffff, 0xc000, 0x280])
    );
    for text in [
        "1:2:3:4:5:6:7:1.2.3.4", "::1.2.3.4:5", "1.2.3.4::", "::1.2.3.256", "1:2:3:4:5:6::1.2.3.4",
        "1.2.3.4:5:6:7:8:9:a:b",
    ] {
        assert_eq!(parse_ip(text), None, "{text}");
    }
}

#[test]
fn case_of_a_literal_does_not_count() {
    assert_eq!(parse_ip("2001:DB8::aF"), parse_ip("2001:db8::Af"));
}

#[test]
fn octets_are_four_or_sixteen() {
    assert_eq!(
        ip_from_octets(&[192, 0, 2, 1]),
        Some(IpAddress::V4(0xC0000201))
    );
    let mut octets = [0u8; 16];
    octets[0] = 0x20;
    octets[15] = 1;
    assert_eq!(
        ip_from_octets(&octets),
        Some(IpAddress::V6((0x20 << 120) | 1))
    );
    assert_eq!(ip_from_octets(&octets[..15]), None);
    assert_eq!(ip_from_octets(&[]), None);
}

#[test]
fn secret_file_is_tightened_and_never_widened() {
    assert_eq!(secret_file_mode(None), 0o600);
    assert_eq!(secret_file_mode(Some(0o644)), 0o600);
    assert_eq!(secret_file_mode(Some(0o777)), 0o600);
    assert_eq!(secret_file_mode(Some(0o400)), 0o400);
    assert_eq!(secret_file_mode(Some(0o044)), 0);
}

#[test]
fn secret_is_written_after_its_mode_is_set() {
    let opening = SecretWrite::new();
    assert_eq!(opening.action(), SecretWriteAction::Open(0o600));
    let tightening = opening.step(SecretWriteEvent::Opened {
        existing: Some(0o644),
    });
    assert_eq!(tightening.action(), SecretWriteAction::SetMode(0o600));
    let writing = tightening.step(SecretWriteEvent::Done);
    assert_eq!(writing.action(), SecretWriteAction::Write);
    let end = writing.step(SecretWriteEvent::Done);
    assert_eq!(end.action(), SecretWriteAction::Finish(true));
    assert_eq!(end.step(SecretWriteEvent::Failed), end);
    assert_eq!(
        tightening.step(SecretWriteEvent::Failed).action(),
        SecretWriteAction::Finish(false)
    );
}

#[test]
fn secret_directory_is_given_its_mode() {
    let creating = SecretDir::new();
    assert_eq!(creating.action(), SecretDirAction::Create(0o700));
    let tightening = creating.step(SecretDirEvent::Done);
    assert_eq!(tightening.action(), SecretDirAction::SetMode(0o700));
    let end = tightening.step(SecretDirEvent::Done);
    assert_eq!(end.action(), SecretDirAction::Finish(true));
    assert_eq!(end.step(SecretDirEvent::Failed), end);
    for state in [creating, tightening] {
        let failed = state.step(SecretDirEvent::Failed);
        assert_eq!(failed.action(), SecretDirAction::Finish(false));
    }
}
