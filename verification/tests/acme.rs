use isekai_util::acme::bundle::pkcs12_bundle;
use isekai_util::acme::csr::{
    check_parsed_csr, check_request_against_order, identifiers_from_csr, identifiers_of_parsed_csr,
    identifiers_of_request, CertificationRequest, CsrError, CsrName, CsrSource, RequestedExtension,
};
use isekai_util::acme::expiry::{check_cert_expiry, remaining_seconds, ExpiryError};
use isekai_util::acme::identifier::{
    dns_identifiers, identifier, identifiers_from_hosts, ordered_identifier, Identifier,
};
use isekai_util::acme::{
    check_challenge_config, AcmeChallengeType, AcmeError, AuthorizationStatus,
    OrderStatus,
};
use isekai_util::acme::target::{named_directory, parent, Target};
use isekai_util::ip::IpAddress;
use openssl::asn1::Asn1Time;
use openssl::ec::{EcGroup, EcKey};
use openssl::hash::MessageDigest;
use openssl::nid::Nid;
use openssl::pkcs12::Pkcs12;
use openssl::pkey::{PKey, Private};
use openssl::stack::Stack;
use openssl::x509::extension::SubjectAlternativeName;
use openssl::x509::{X509Builder, X509ReqBuilder, X509};

const V4_EXAMPLE: IpAddress = IpAddress::V4(0xC0000201);
const V6_EXAMPLE: IpAddress = IpAddress::V6(0x20010db8_00000000_00000000_00000001);

fn signing_key() -> PKey<Private> {
    let group = EcGroup::from_curve_name(Nid::X9_62_PRIME256V1).unwrap();
    PKey::from_ec_key(EcKey::generate(&group).unwrap()).unwrap()
}

/// A CSR asking for `dns`, `ips` and `emails`, signed by a throwaway key. No
/// subjectAltName extension is added when all are empty.
fn csr_der_with(dns: &[&str], ips: &[&str], emails: &[&str]) -> Vec<u8> {
    let key = signing_key();
    let mut builder = X509ReqBuilder::new().unwrap();
    builder.set_pubkey(&key).unwrap();

    if !dns.is_empty() || !ips.is_empty() || !emails.is_empty() {
        let mut san = SubjectAlternativeName::new();
        for name in dns {
            san.dns(name);
        }
        for ip in ips {
            san.ip(ip);
        }
        for email in emails {
            san.email(email);
        }
        let extension = san.build(&builder.x509v3_context(None)).unwrap();
        let mut extensions = Stack::new().unwrap();
        extensions.push(extension).unwrap();
        builder.add_extensions(&extensions).unwrap();
    }

    builder.sign(&key, MessageDigest::sha256()).unwrap();
    builder.build().to_der().unwrap()
}

fn csr_der(dns: &[&str], ips: &[&str]) -> Vec<u8> {
    csr_der_with(dns, ips, &[])
}

fn identifiers(dns: &[&str], ips: &[&str]) -> Result<Vec<Identifier>, CsrError> {
    identifiers_from_csr(&csr_der(dns, ips))
}

fn dns(name: &str) -> Identifier {
    Identifier::Dns(name.to_owned())
}

/// A self-signed certificate in PEM form that is valid from the epoch to `end`, and its
/// key.
fn certificate(end: i64) -> (String, String) {
    let key = signing_key();
    let mut builder = X509Builder::new().unwrap();
    builder.set_version(2).unwrap();
    builder.set_pubkey(&key).unwrap();
    builder.set_not_before(&Asn1Time::from_unix(0).unwrap()).unwrap();
    builder.set_not_after(&Asn1Time::from_unix(end).unwrap()).unwrap();
    builder.sign(&key, MessageDigest::sha256()).unwrap();
    let text = |pem: Vec<u8>| String::from_utf8(pem).unwrap();
    let pem = builder.build().to_pem().unwrap();
    (text(pem), text(key.private_key_to_pem_pkcs8().unwrap()))
}

#[test]
fn csr_identifiers_cover_dns_and_ip() {
    let found = identifiers(
        &["example.com", "www.example.com"],
        &["192.0.2.1", "2001:db8::1"],
    )
    .unwrap();
    assert_eq!(
        found,
        vec![
            dns("example.com"),
            dns("www.example.com"),
            Identifier::Ip(V4_EXAMPLE),
            Identifier::Ip(V6_EXAMPLE),
        ]
    );
}

#[test]
fn csr_identifiers_keep_the_wildcard() {
    // An ACME order asks for a wildcard by naming `*.example.com`; the
    // authorization comes back as `example.com` with the wildcard bit set.
    assert_eq!(
        identifiers(&["*.example.com"], &[]).unwrap(),
        vec![dns("*.example.com")]
    );
}

#[test]
fn csr_identifiers_are_deduplicated() {
    // Repeating an identifier in an order gets it rejected by the server,
    // and a DNS name repeated in another case is the same identifier.
    assert_eq!(
        identifiers(
            &["example.com", "example.com", "Example.COM"],
            &["192.0.2.1", "192.0.2.1", "2001:db8::1", "2001:0db8:0000::0001"],
        )
        .unwrap(),
        vec![
            dns("example.com"),
            Identifier::Ip(V4_EXAMPLE),
            Identifier::Ip(V6_EXAMPLE),
        ]
    );
}

#[test]
fn host_identifiers_are_normalized_and_deduplicated() {
    let hosts = [
        "Example.COM",
        "example.com",
        "2001:db8::1",
        "2001:0db8:0000::0001",
    ]
    .map(str::to_owned);
    assert_eq!(
        identifiers_from_hosts(&hosts),
        vec![dns("example.com"), Identifier::Ip(V6_EXAMPLE)]
    );
}

#[test]
fn dns01_without_cloudflare_credentials_is_rejected() {
    let missing = AcmeChallengeType::Dns01 {
        cloudflare_api_token: String::new(),
        cloudflare_zone_id: "zone".to_owned(),
    };
    let err = check_challenge_config(&missing).unwrap_err().message();
    assert!(err.contains("Cloudflare token/zone id"), "{err}");

    let configured = AcmeChallengeType::Dns01 {
        cloudflare_api_token: "token".to_owned(),
        cloudflare_zone_id: "zone".to_owned(),
    };
    assert!(check_challenge_config(&configured).is_ok());
    assert!(
        check_challenge_config(&AcmeChallengeType::Http01 {
            bind_addr: "0.0.0.0:80".to_owned(),
        })
        .is_ok()
    );
}

#[test]
fn dns01_without_a_zone_is_rejected() {
    let missing = AcmeChallengeType::Dns01 {
        cloudflare_api_token: "token".to_owned(),
        cloudflare_zone_id: String::new(),
    };
    assert_eq!(
        check_challenge_config(&missing),
        Err(AcmeError::CloudflareNotConfigured)
    );
}

#[test]
fn csr_without_subject_alt_name_is_rejected() {
    let err = identifiers(&[], &[]).unwrap_err().message();
    assert!(err.contains("nothing to order a certificate for"), "{err}");
}

#[test]
fn trailing_data_after_the_csr_is_rejected() {
    let mut der = csr_der(&["example.com"], &[]);
    der.push(0);
    let err = identifiers_from_csr(&der).unwrap_err().message();
    assert!(err.contains("trailing data"), "{err}");
}

#[test]
fn csr_sources_decode_to_the_same_der() {
    let der = csr_der(&["example.com"], &[]);
    let pem = openssl::x509::X509Req::from_der(&der)
        .unwrap()
        .to_pem()
        .unwrap();
    let path = "test.csr".to_owned();
    let file = Some(pem.clone());

    for source in [
        CsrSource::Der(der.clone()),
        CsrSource::Pem(pem.clone()),
        CsrSource::PemFile(path),
    ] {
        assert_eq!(source.load(&file).unwrap(), der, "{source:?}");
    }
}

#[test]
fn hosts_map_to_dns_or_ip_identifiers() {
    assert_eq!(identifier("example.com"), dns("example.com"));
    assert_eq!(identifier("192.0.2.1"), Identifier::Ip(V4_EXAMPLE));
    assert_eq!(identifier("2001:db8::1"), Identifier::Ip(V6_EXAMPLE));
}

#[test]
fn only_a_file_source_names_a_file() {
    assert_eq!(CsrSource::Pem(vec![]).file(), None);
    assert_eq!(CsrSource::Der(vec![]).file(), None);
    assert_eq!(
        CsrSource::PemFile("a.csr".to_owned()).file(),
        Some("a.csr".to_owned())
    );
}

#[test]
fn undecodable_sources_are_rejected() {
    let source = CsrSource::Pem(b"no PEM here".to_vec());
    assert_eq!(source.load(&None), Err(CsrError::Undecodable));
    assert_eq!(
        CsrError::Undecodable.message(),
        "failed to decode the PEM-encoded CSR"
    );

    let source = CsrSource::PemFile("a.csr".to_owned());
    let expected = CsrError::UndecodableFile("a.csr".to_owned());
    assert_eq!(
        expected.message(),
        "failed to read the PEM-encoded CSR at a.csr"
    );
    assert_eq!(source.load(&None), Err(expected.duplicate()));
    assert_eq!(source.load(&Some(b"no PEM here".to_vec())), Err(expected));
}

#[test]
fn only_the_first_csr_section_is_used() {
    let first = csr_der(&["first.example.com"], &[]);
    let second = csr_der(&["second.example.com"], &[]);
    let mut pem = vec![];
    for der in [&first, &second] {
        pem.extend(openssl::x509::X509Req::from_der(der).unwrap().to_pem().unwrap());
    }
    assert_eq!(CsrSource::Pem(pem).load(&None).unwrap(), first);
}

#[test]
fn malformed_csr_is_rejected() {
    let err = identifiers_from_csr(b"no DER here").unwrap_err();
    assert!(matches!(err, CsrError::Malformed(_)));
    assert!(err.message().starts_with("failed to parse the CSR: "));
    assert_eq!(
        identifiers_of_parsed_csr(&Err("why".to_owned())),
        Err(CsrError::Malformed("why".to_owned()))
    );
    assert_eq!(
        check_parsed_csr(&Err("why".to_owned()), &vec![]),
        Err(CsrError::Malformed("why".to_owned()))
    );
}

fn request(names: Vec<CsrName>) -> CertificationRequest {
    CertificationRequest {
        rest: vec![],
        extensions: vec![
            RequestedExtension::Other,
            RequestedExtension::SubjectAltName(names),
        ],
    }
}

#[test]
fn ip_address_of_odd_length_is_rejected() {
    let found = identifiers_of_request(&request(vec![
        CsrName::Dns("example.com".to_owned()),
        CsrName::Ip(vec![1, 2, 3]),
    ]));
    assert_eq!(found, Err(CsrError::InvalidIpAddress));
    assert_eq!(
        CsrError::InvalidIpAddress.message(),
        "invalid IP address in the CSR's subjectAltName"
    );
}

#[test]
fn other_names_are_passed_over_but_do_not_pass_the_check() {
    let asked = request(vec![CsrName::Other, CsrName::Dns("Example.com".to_owned())]);
    let order = identifiers_of_request(&asked).unwrap();
    assert_eq!(order, vec![dns("example.com")]);
    assert_eq!(
        check_request_against_order(&asked, &order),
        Err(CsrError::UnsupportedName)
    );

    let der = csr_der_with(&["example.com"], &[], &["someone@example.com"]);
    assert_eq!(identifiers_from_csr(&der).unwrap(), vec![dns("example.com")]);
}

#[test]
fn order_and_csr_must_name_the_same_identifiers() {
    let asked = request(vec![
        CsrName::Dns("a.example.com".to_owned()),
        CsrName::Ip(vec![192, 0, 2, 1]),
    ]);
    let both = vec![Identifier::Ip(V4_EXAMPLE), dns("a.example.com")];
    assert_eq!(check_request_against_order(&asked, &both), Ok(()));
    // Naming fewer identifiers does not narrow what is issued.
    assert_eq!(
        check_request_against_order(&asked, &vec![dns("a.example.com")]),
        Err(CsrError::NotInOrder)
    );
    let more = vec![
        Identifier::Ip(V4_EXAMPLE),
        dns("a.example.com"),
        dns("b.example.com"),
    ];
    assert_eq!(
        check_request_against_order(&asked, &more),
        Err(CsrError::NotInCsr)
    );
}

#[test]
fn order_derived_from_a_csr_matches_it() {
    let asked = request(vec![
        CsrName::Dns("B.example.com".to_owned()),
        CsrName::Dns("a.example.com".to_owned()),
        CsrName::Dns("b.example.com".to_owned()),
    ]);
    let order = identifiers_of_request(&asked).unwrap();
    assert_eq!(order, vec![dns("b.example.com"), dns("a.example.com")]);
    assert_eq!(check_request_against_order(&asked, &order), Ok(()));
}

#[test]
fn configured_hosts_are_ordered_as_written() {
    let hosts = ["Example.COM", "192.0.2.1", "Example.COM"].map(str::to_owned);
    assert_eq!(
        dns_identifiers(&hosts),
        vec![dns("Example.COM"), dns("192.0.2.1"), dns("Example.COM")]
    );
}

#[test]
fn authorized_wildcard_is_ordered_with_its_star() {
    assert_eq!(
        ordered_identifier(&dns("Example.com"), true),
        dns("*.example.com")
    );
    assert_eq!(
        ordered_identifier(&dns("Example.com"), false),
        dns("example.com")
    );
    assert_eq!(
        ordered_identifier(&Identifier::Ip(V4_EXAMPLE), false),
        Identifier::Ip(V4_EXAMPLE)
    );
}

#[test]
fn target_knows_its_directory() {
    let target = |path: &str| Target::new(path.to_owned());
    assert_eq!(target("out/certs/a.pem").path, "out/certs/a.pem");
    assert_eq!(
        target("out/certs/a.pem").directory,
        Some("out/certs".to_owned())
    );
    assert_eq!(target("/a.pem").directory, Some("/".to_owned()));
    // The current directory is always there.
    assert_eq!(target("a.pem").directory, None);
    assert_eq!(target("/").directory, None);
    assert_eq!(target("").directory, None);
}

#[test]
fn parent_is_the_path_without_its_final_component() {
    assert_eq!(parent("a/b"), Some("a".to_owned()));
    assert_eq!(parent("a"), Some(String::new()));
    assert_eq!(parent(""), None);
    assert_eq!(parent("/"), None);
    assert_eq!(named_directory(Some(String::new())), None);
    assert_eq!(named_directory(Some("a".to_owned())), Some("a".to_owned()));
    assert_eq!(named_directory(None), None);
}

#[test]
fn statuses_have_names() {
    assert_eq!(OrderStatus::Processing.name(), "Processing");
    assert_eq!(AuthorizationStatus::Deactivated.name(), "Deactivated");
}

#[test]
fn errors_have_messages() {
    assert_eq!(
        AcmeError::Csr(CsrError::TrailingData).message(),
        "trailing data after the CSR"
    );
}

#[test]
fn certificate_expires_at_the_end_of_its_validity() {
    let end = 1_900_000_000;
    let (pem, _) = certificate(end);
    let left = |now: u64| check_cert_expiry(pem.as_bytes(), "cert.pem", now).unwrap();
    assert_eq!(left(1_899_999_000), 1_000);
    assert_eq!(left(1_899_999_999), 1);
    assert_eq!(left(1_900_000_000), 0);
    assert_eq!(left(1_900_000_001), 0);
}

#[test]
fn leaf_certificate_decides() {
    let (mut chain, _) = certificate(1_800_000_000);
    chain.push_str(&certificate(1_900_000_000).0);
    assert_eq!(
        check_cert_expiry(chain.as_bytes(), "chain.pem", 1_799_999_990),
        Ok(10)
    );
}

#[test]
fn unreadable_certificates_are_rejected() {
    let err = check_cert_expiry(b"no PEM here", "cert.pem", 0).unwrap_err();
    assert_eq!(
        err,
        ExpiryError::Pem {
            path: "cert.pem".to_owned(),
            reason: "Error(MissingHeader)".to_owned(),
        }
    );
    assert_eq!(
        err.message(),
        "failed to parse PEM at cert.pem: Error(MissingHeader)"
    );

    let pem = b"-----BEGIN CERTIFICATE-----\nAAAA\n-----END CERTIFICATE-----\n";
    let err = check_cert_expiry(pem, "cert.pem", 0).unwrap_err();
    assert!(matches!(err, ExpiryError::Certificate { .. }));
    assert!(err.message().starts_with("failed to parse X.509 certificate: "));
}

#[test]
fn nothing_remains_of_a_validity_before_the_epoch() {
    assert_eq!(remaining_seconds(-5, 0), 0);
    assert_eq!(remaining_seconds(i64::MIN, u64::MAX), 0);
    assert_eq!(remaining_seconds(i64::MAX, 0), i64::MAX as u64);
}

#[test]
fn bundle_holds_the_key_and_the_certificate() {
    let (chain, key) = certificate(1_900_000_000);
    let bundle = pkcs12_bundle(&chain, &key).unwrap();
    let parsed = Pkcs12::from_der(&bundle).unwrap().parse2("").unwrap();
    assert_eq!(
        parsed.cert.unwrap().to_der().unwrap(),
        X509::from_pem(chain.as_bytes()).unwrap().to_der().unwrap()
    );
    assert_eq!(
        parsed.pkey.unwrap().private_key_to_der().unwrap(),
        PKey::private_key_from_pem(key.as_bytes())
            .unwrap()
            .private_key_to_der()
            .unwrap()
    );
}

#[test]
fn bundle_needs_a_key_and_a_certificate() {
    let (chain, key) = certificate(1_900_000_000);
    assert!(pkcs12_bundle(&key, &key).is_err());
    assert!(pkcs12_bundle(&chain, &chain).is_err());
}

#[test]
fn identifier_of_a_normal_form_is_the_same() {
    for host in ["WWW.Example.COM", "*.Example.com", "", "1.2.3"] {
        let once = identifier(host);
        match &once {
            Identifier::Dns(name) => {
                assert_eq!(name, &host.to_ascii_lowercase());
                assert_eq!(identifier(name), once);
            }
            Identifier::Ip(addr) => panic!("{addr:?}"),
        }
    }
    assert_eq!(identifier("2001:DB8::1"), identifier("2001:db8:0:0:0:0:0:1"));
}

#[test]
fn encrypted_key_is_not_bundled() {
    let (chain, _) = certificate(1_900_000_000);
    let key = signing_key()
        .private_key_to_pem_pkcs8_passphrase(openssl::symm::Cipher::aes_256_cbc(), b"secret")
        .unwrap();
    let key = String::from_utf8(key).unwrap();
    assert_eq!(
        pkcs12_bundle(&chain, &key),
        Err("the key or the certificate is encrypted".to_owned())
    );
}
