use isekai_util::acme::csr::{
    CertificationRequest, CsrError, CsrName, CsrSource, RequestedExtension,
};
use isekai_util::acme::identifier::Identifier;
use isekai_util::acme::issuance::{
    plan_issuance, plan_issuance_with_csr, Flow, Issuance, IssuanceAction, IssuanceEvent,
    IssuanceStep, OrderPlan,
};
use isekai_util::acme::target::Target;
use isekai_util::acme::{AcmeChallengeType, AcmeConfig, AcmeCsrConfig, AcmeError, OrderStatus};

fn http01() -> AcmeChallengeType {
    AcmeChallengeType::Http01 {
        bind_addr: "0.0.0.0:80".to_owned(),
    }
}

fn unusable() -> AcmeChallengeType {
    AcmeChallengeType::Dns01 {
        cloudflare_api_token: String::new(),
        cloudflare_zone_id: String::new(),
    }
}

fn config(hosts: &[&str], challenge: AcmeChallengeType) -> AcmeConfig {
    AcmeConfig {
        hosts: hosts.iter().map(|host| host.to_string()).collect(),
        challenge,
        account_credential_path: None,
        directory_url: "https://acme.example/directory".to_owned(),
        profile: None,
        cert_path: "out/cert.pem".to_owned(),
        key_path: "keys/key.pem".to_owned(),
        pkcs12_path: "keys/bundle.p12".to_owned(),
    }
}

fn csr_config(hosts: &[&str], csr: CsrSource, challenge: AcmeChallengeType) -> AcmeCsrConfig {
    AcmeCsrConfig {
        csr,
        hosts: hosts.iter().map(|host| host.to_string()).collect(),
        challenge,
        account_credential_path: None,
        directory_url: "https://acme.example/directory".to_owned(),
        profile: None,
        cert_path: None,
    }
}

fn dns(name: &str) -> Identifier {
    Identifier::Dns(name.to_owned())
}

fn target(path: &str) -> Target {
    Target::new(path.to_owned())
}

fn own_key() -> Flow {
    Flow::OwnKey {
        cert: target("out/cert.pem"),
        key: target("keys/key.pem"),
        pkcs12: target("keys/bundle.p12"),
    }
}

fn caller_csr(chain: Option<&str>) -> Flow {
    let request = CertificationRequest {
        rest: vec![],
        extensions: vec![RequestedExtension::SubjectAltName(vec![CsrName::Dns(
            "example.com".to_owned(),
        )])],
    };
    Flow::CallerCsr {
        der: vec![1, 2, 3],
        request: Ok(request),
        chain: chain.map(target),
    }
}

fn plan(hosts: &[&str]) -> OrderPlan {
    OrderPlan {
        identifiers: hosts.iter().map(|host| dns(host)).collect(),
        profile: Some("short".to_owned()),
        challenge: http01(),
        directory_url: "https://acme.example/directory".to_owned(),
        account_credential_path: Some("account.json".to_owned()),
    }
}

fn fresh(flow: Flow) -> Issuance {
    Issuance::new(plan(&["example.com"]), flow)
}

fn at(flow: Flow, step: IssuanceStep) -> Issuance {
    Issuance {
        step,
        ..fresh(flow)
    }
}

fn build_account() -> IssuanceAction {
    IssuanceAction::BuildAccount {
        directory_url: "https://acme.example/directory".to_owned(),
        credential_path: Some("account.json".to_owned()),
    }
}

fn create_order() -> IssuanceAction {
    IssuanceAction::CreateOrder {
        identifiers: vec![dns("example.com")],
        profile: Some("short".to_owned()),
    }
}

fn fetched() -> IssuanceEvent {
    IssuanceEvent::ChainFetched("chain".to_owned())
}

fn write_chain(path: &str) -> IssuanceAction {
    IssuanceAction::WriteChain {
        path: path.to_owned(),
        contents: "chain".to_owned(),
    }
}

fn write_key(path: &str) -> IssuanceAction {
    IssuanceAction::WriteKey {
        path: path.to_owned(),
        contents: "key".to_owned(),
    }
}

fn write_bundle(path: &str) -> IssuanceAction {
    IssuanceAction::WriteBundle {
        path: path.to_owned(),
        der: vec![7],
    }
}

fn bundle() -> IssuanceAction {
    IssuanceAction::Bundle {
        key_pem: "key".to_owned(),
        chain_pem: "chain".to_owned(),
    }
}

fn finish() -> IssuanceAction {
    IssuanceAction::Finish("chain".to_owned())
}

/// Take `issuance` through `course`, in which each event answers the action before it.
fn follow(issuance: Issuance, course: Vec<(IssuanceAction, IssuanceEvent)>) -> Issuance {
    course.into_iter().fold(issuance, |at, (action, event)| {
        assert_eq!(at.action(), action);
        at.step(event)
    })
}

#[test]
fn without_hosts_there_is_nothing_to_do() {
    assert_eq!(plan_issuance(&config(&[], unusable())), Ok(None));
}

#[test]
fn unusable_challenge_is_refused_at_once() {
    assert_eq!(
        plan_issuance(&config(&["example.com"], unusable())),
        Err(AcmeError::CloudflareNotConfigured)
    );
    // Even before the CSR is looked at.
    let source = CsrSource::PemFile("missing.csr".to_owned());
    assert_eq!(
        plan_issuance_with_csr(&csr_config(&[], source, unusable()), &None),
        Err(AcmeError::CloudflareNotConfigured)
    );
}

#[test]
fn plan_orders_the_hosts_as_written() {
    let mut planned = config(&["Example.com", "Example.com"], http01());
    planned.profile = Some("short".to_owned());
    planned.account_credential_path = Some("account.json".to_owned());
    assert_eq!(
        plan_issuance(&planned),
        Ok(Some(Issuance::new(
            plan(&["Example.com", "Example.com"]),
            own_key()
        )))
    );
}

#[test]
fn csr_that_cannot_be_loaded_is_refused() {
    let source = CsrSource::PemFile("missing.csr".to_owned());
    assert_eq!(
        plan_issuance_with_csr(&csr_config(&["example.com"], source, http01()), &None),
        Err(AcmeError::Csr(CsrError::UndecodableFile(
            "missing.csr".to_owned()
        )))
    );
}

#[test]
fn malformed_csr_is_refused_where_its_names_are_needed() {
    let source = CsrSource::Der(vec![0]);
    let err = plan_issuance_with_csr(&csr_config(&[], source.clone(), http01()), &None);
    assert!(matches!(err, Err(AcmeError::Csr(CsrError::Malformed(_)))));

    // With hosts it is refused against the order.
    let mut planned = csr_config(&["Example.com"], source, http01());
    planned.profile = Some("short".to_owned());
    planned.account_credential_path = Some("account.json".to_owned());
    let issuance = plan_issuance_with_csr(&planned, &None).unwrap();
    assert_eq!(issuance.plan, plan(&["example.com"]));
    let end = follow(
        issuance,
        vec![
            (build_account(), IssuanceEvent::Done),
            (
                create_order(),
                IssuanceEvent::OrderCreated(OrderStatus::Pending),
            ),
            (
                IssuanceAction::FetchIdentifiers,
                IssuanceEvent::OrderIdentifiers(vec![dns("example.com")]),
            ),
        ],
    );
    assert!(matches!(
        end.action(),
        IssuanceAction::Fail(Some(CsrError::Malformed(_)))
    ));
}

#[test]
fn own_key_course() {
    let end = follow(
        fresh(own_key()),
        vec![
            (build_account(), IssuanceEvent::Done),
            (
                create_order(),
                IssuanceEvent::OrderCreated(OrderStatus::Pending),
            ),
            (IssuanceAction::SolveChallenges(http01()), IssuanceEvent::Done),
            (IssuanceAction::FinalizeWithNewKey, IssuanceEvent::FinalizedWithKey("key".to_owned())),
            (IssuanceAction::FetchChain, fetched()),
            (bundle(), IssuanceEvent::Bundled(vec![7])),
            (
                IssuanceAction::LookForDirectory("keys".to_owned()),
                IssuanceEvent::DirectoryExists(false),
            ),
            (
                IssuanceAction::CreateSecretDirectory("keys".to_owned()),
                IssuanceEvent::Done,
            ),
            (
                IssuanceAction::LookForDirectory("keys".to_owned()),
                IssuanceEvent::DirectoryExists(true),
            ),
            (
                write_key("keys/key.pem"),
                IssuanceEvent::Done,
            ),
            (
                IssuanceAction::LookForDirectory("out".to_owned()),
                IssuanceEvent::DirectoryExists(false),
            ),
            (
                IssuanceAction::CreateDirectory("out".to_owned()),
                IssuanceEvent::Done,
            ),
            (
                write_chain("out/cert.pem"),
                IssuanceEvent::Done,
            ),
            (
                write_bundle("keys/bundle.p12"),
                IssuanceEvent::Done,
            ),
            (finish(), IssuanceEvent::Failed),
        ],
    );
    assert_eq!(end.action(), finish());
}

#[test]
fn ready_order_has_no_challenges() {
    let ordered = fresh(own_key())
        .step(IssuanceEvent::Done)
        .step(IssuanceEvent::OrderCreated(OrderStatus::Ready));
    assert_eq!(ordered.action(), IssuanceAction::FinalizeWithNewKey);
}

#[test]
fn caller_csr_course() {
    let end = follow(
        fresh(caller_csr(Some("cert.pem"))),
        vec![
            (build_account(), IssuanceEvent::Done),
            (
                create_order(),
                IssuanceEvent::OrderCreated(OrderStatus::Pending),
            ),
            (
                IssuanceAction::FetchIdentifiers,
                IssuanceEvent::OrderIdentifiers(vec![dns("example.com")]),
            ),
            (IssuanceAction::SolveChallenges(http01()), IssuanceEvent::Done),
            (
                IssuanceAction::FinalizeWithCsr(vec![1, 2, 3]),
                IssuanceEvent::Done,
            ),
            (IssuanceAction::FetchChain, fetched()),
            (
                write_chain("cert.pem"),
                IssuanceEvent::Done,
            ),
        ],
    );
    assert_eq!(end.action(), finish());
}

#[test]
fn chain_is_written_only_where_asked_for() {
    let end = follow(
        fresh(caller_csr(None)),
        vec![
            (build_account(), IssuanceEvent::Done),
            (
                create_order(),
                IssuanceEvent::OrderCreated(OrderStatus::Ready),
            ),
            (
                IssuanceAction::FetchIdentifiers,
                IssuanceEvent::OrderIdentifiers(vec![dns("example.com")]),
            ),
            (
                IssuanceAction::FinalizeWithCsr(vec![1, 2, 3]),
                IssuanceEvent::Done,
            ),
            (IssuanceAction::FetchChain, fetched()),
        ],
    );
    assert_eq!(end.action(), finish());
}

#[test]
fn mismatch_is_caught_before_any_challenge() {
    let end = follow(
        fresh(caller_csr(None)),
        vec![
            (build_account(), IssuanceEvent::Done),
            (
                create_order(),
                IssuanceEvent::OrderCreated(OrderStatus::Pending),
            ),
            (
                IssuanceAction::FetchIdentifiers,
                IssuanceEvent::OrderIdentifiers(vec![dns("other.example.com")]),
            ),
        ],
    );
    assert_eq!(
        end.action(),
        IssuanceAction::Fail(Some(CsrError::NotInOrder))
    );
}

#[test]
fn failures_end_the_course() {
    let failed = fresh(own_key()).step(IssuanceEvent::Failed);
    assert_eq!(failed.action(), IssuanceAction::Fail(None));
    assert_eq!(
        failed.step(IssuanceEvent::Done).action(),
        IssuanceAction::Fail(None)
    );
}

#[test]
fn failures_are_introduced() {
    let words = |flow: Flow, step: IssuanceStep| {
        at(flow, step).failure_context()
    };
    let expect = |step: IssuanceStep, text: &str| {
        assert_eq!(words(own_key(), step).unwrap(), text);
    };
    expect(
        IssuanceStep::CreateKeyDirectory,
        "failed to create key directory keys",
    );
    expect(
        IssuanceStep::CreateBundleDirectory,
        "failed to create PKCS#12 directory keys",
    );
    expect(
        IssuanceStep::CreateChainDirectory,
        "failed to create cert directory out",
    );
    expect(
        IssuanceStep::WriteKey,
        "failed to write key PEM keys/key.pem",
    );
    expect(
        IssuanceStep::WriteChain,
        "failed to write cert PEM out/cert.pem",
    );
    expect(
        IssuanceStep::WriteBundle,
        "failed to write PKCS#12 keys/bundle.p12",
    );
    assert_eq!(words(own_key(), IssuanceStep::Finalize), None);
    assert_eq!(
        words(caller_csr(None), IssuanceStep::CheckCsr).unwrap(),
        "failed to check the supplied CSR against the ACME order"
    );
}

#[test]
fn files_without_a_directory_need_none() {
    let flow = Flow::OwnKey {
        cert: target("cert.pem"),
        key: target("key.pem"),
        pkcs12: target("bundle.p12"),
    };
    let end = follow(
        at(flow, IssuanceStep::Finalize),
        vec![
            (
                IssuanceAction::FinalizeWithNewKey,
                IssuanceEvent::FinalizedWithKey("key".to_owned()),
            ),
            (IssuanceAction::FetchChain, fetched()),
            (bundle(), IssuanceEvent::Bundled(vec![7])),
            (
                write_key("key.pem"),
                IssuanceEvent::Done,
            ),
            (
                write_chain("cert.pem"),
                IssuanceEvent::Done,
            ),
            (
                write_bundle("bundle.p12"),
                IssuanceEvent::Done,
            ),
        ],
    );
    assert_eq!(end.action(), finish());
}

#[test]
fn missing_directories_are_created() {
    let flow = Flow::OwnKey {
        cert: target("cert.pem"),
        key: target("key.pem"),
        pkcs12: target("keys/bundle.p12"),
    };
    let end = follow(
        at(flow, IssuanceStep::Finalize),
        vec![
            (
                IssuanceAction::FinalizeWithNewKey,
                IssuanceEvent::FinalizedWithKey("key".to_owned()),
            ),
            (IssuanceAction::FetchChain, fetched()),
            (bundle(), IssuanceEvent::Bundled(vec![7])),
            (
                IssuanceAction::LookForDirectory("keys".to_owned()),
                IssuanceEvent::DirectoryExists(false),
            ),
            (
                IssuanceAction::CreateSecretDirectory("keys".to_owned()),
                IssuanceEvent::Done,
            ),
        ],
    );
    assert_eq!(end.action(), write_key("key.pem"));
}

#[test]
fn key_is_expected_only_where_one_is_made() {
    let key = || IssuanceEvent::FinalizedWithKey("key".to_owned());
    let failed = IssuanceAction::Fail(None);
    let own = at(own_key(), IssuanceStep::Finalize);
    assert_eq!(own.step(IssuanceEvent::Done).action(), failed);
    let csr = at(caller_csr(None), IssuanceStep::Finalize);
    assert_eq!(csr.step(key()).action(), failed);
}
