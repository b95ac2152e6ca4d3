use isekai_util::acme::account::{AccountAction, AccountEvent, AccountSetup};
use isekai_util::acme::credentials::{credentials_text, parse_credentials};
use isekai_util::acme::challenge::{
    solve_challenges, ChallengeFailure, ChallengeKind, ChallengeRun,
};
use isekai_util::acme::dns01::{Dns01, Dns01Action, Dns01Event, Dns01Offer};
use isekai_util::acme::http01::{ChallengeTokens, Http01, Http01Action, Http01Event};
use isekai_util::acme::{AcmeChallengeType, AcmeError, AuthorizationStatus, OrderStatus};
use isekai_util::dns::{DnsRecord, RecordType};

fn pending(name: &str) -> Dns01Event {
    Dns01Event::Authorization {
        status: AuthorizationStatus::Pending,
        offer: Dns01Offer::ForName(name.to_owned()),
    }
}

fn created(id: &str) -> Dns01Event {
    Dns01Event::RecordCreated {
        success: true,
        id: Some(id.to_owned()),
    }
}

fn answers(texts: &[&str]) -> Dns01Event {
    Dns01Event::Answers(texts.iter().map(|text| text.to_string()).collect())
}

/// A run up to the first look for the record of `name`.
fn published(name: &str, value: &str, id: &str) -> Dns01 {
    let mut run = Dns01::new();
    publish(&mut run, name, value, id);
    run
}

fn publish(run: &mut Dns01, name: &str, value: &str, id: &str) {
    run.step(pending(name));
    run.step(Dns01Event::NameServersFound);
    run.step(Dns01Event::KeyAuthorization(value.to_owned()));
    run.step(created(id));
}

fn finish(outcome: Result<(), ChallengeFailure>) -> Dns01Action {
    Dns01Action::Finish(outcome)
}

#[test]
fn dns01_runs_through() {
    let mut run = Dns01::new();
    assert_eq!(run.action(), Dns01Action::NextAuthorization);
    run.step(pending("example.com"));
    assert_eq!(
        run.action(),
        Dns01Action::FindNameServers("example.com".to_owned())
    );
    run.step(Dns01Event::NameServersFound);
    assert_eq!(run.action(), Dns01Action::GetKeyAuthorization);
    run.step(Dns01Event::KeyAuthorization("v1".to_owned()));
    assert_eq!(
        run.action(),
        Dns01Action::CreateRecord(DnsRecord {
            record_type: RecordType::Txt,
            name: "_acme-challenge.example.com".to_owned(),
            content: "\"v1\"".to_owned(),
            ttl: 120,
            proxied: false,
        })
    );
    run.step(created("id1"));
    assert_eq!(
        run.action(),
        Dns01Action::LookUpTxt("_acme-challenge.example.com.".to_owned())
    );
    run.step(answers(&["other", "xv1x"]));
    assert_eq!(run.action(), Dns01Action::SetReady);
    run.step(Dns01Event::ChallengeReady);
    assert_eq!(run.action(), Dns01Action::NextAuthorization);
    run.step(Dns01Event::Authorization {
        status: AuthorizationStatus::Valid,
        offer: Dns01Offer::Missing,
    });
    assert_eq!(run.action(), Dns01Action::NextAuthorization);
    run.step(Dns01Event::NoMoreAuthorizations);
    assert_eq!(run.action(), Dns01Action::PollOrder);
    run.step(Dns01Event::OrderPolled(OrderStatus::Ready));
    assert_eq!(run.action(), Dns01Action::DeleteRecord("id1".to_owned()));
    run.step(Dns01Event::RecordDeletionTried);
    assert_eq!(run.action(), finish(Ok(())));
    run.step(Dns01Event::Failed);
    assert_eq!(run.action(), finish(Ok(())));
}

#[test]
fn dns01_deletes_all_records_after_a_failure() {
    let mut run = published("a.example.com", "v1", "id1");
    run.step(answers(&["v1"]));
    run.step(Dns01Event::ChallengeReady);
    publish(&mut run, "b.example.com", "v2", "id2");
    run.step(answers(&["v2"]));
    run.step(Dns01Event::Failed);
    assert_eq!(run.action(), Dns01Action::DeleteRecord("id1".to_owned()));
    // A record that cannot be deleted does not keep the next from being deleted.
    run.step(Dns01Event::Failed);
    assert_eq!(run.action(), Dns01Action::DeleteRecord("id2".to_owned()));
    run.step(Dns01Event::RecordDeletionTried);
    assert_eq!(run.action(), finish(Err(ChallengeFailure::Outside)));
}

#[test]
fn dns01_gives_up_after_the_last_look() {
    let mut run = published("example.com", "v1", "id1");
    for look in 0..30 {
        assert!(matches!(run.action(), Dns01Action::LookUpTxt(_)), "{look}");
        run.step(if look % 2 == 0 {
            answers(&["v"])
        } else {
            Dns01Event::LookupFailed
        });
        assert_eq!(run.action(), Dns01Action::Wait(6));
        run.step(Dns01Event::Waited);
    }
    assert_eq!(run.action(), Dns01Action::DeleteRecord("id1".to_owned()));
    run.step(Dns01Event::RecordDeletionTried);
    assert_eq!(run.action(), finish(Err(ChallengeFailure::NotPropagated)));
    assert_eq!(
        ChallengeFailure::NotPropagated.message("example.com"),
        "dns challenge did not propagate in time for example.com"
    );
}

#[test]
fn dns01_accepts_the_last_look() {
    let mut run = published("example.com", "v1", "id1");
    for _ in 0..29 {
        run.step(answers(&[]));
        run.step(Dns01Event::Waited);
    }
    run.step(answers(&["\"v1\""]));
    assert_eq!(run.action(), Dns01Action::SetReady);
}

#[test]
fn dns01_refuses_what_it_cannot_answer() {
    let outcome = |status: AuthorizationStatus, offer: Dns01Offer| {
        let mut run = Dns01::new();
        run.step(Dns01Event::Authorization { status, offer });
        match run.action() {
            Dns01Action::Finish(Err(failure)) => failure.message("x"),
            other => panic!("{other:?}"),
        }
    };
    assert_eq!(
        outcome(AuthorizationStatus::Pending, Dns01Offer::Missing),
        "dns-01 challenge not found"
    );
    assert_eq!(
        outcome(AuthorizationStatus::Pending, Dns01Offer::ForOther),
        "unsupported non-DNS identifier type for dns-01 challenge"
    );
    assert_eq!(
        outcome(AuthorizationStatus::Revoked, Dns01Offer::Missing),
        "unsupported authorization status: Revoked"
    );
}

#[test]
fn dns01_does_not_remember_a_refused_record() {
    let mut run = Dns01::new();
    run.step(pending("example.com"));
    run.step(Dns01Event::NameServersFound);
    run.step(Dns01Event::KeyAuthorization("v1".to_owned()));
    run.step(Dns01Event::RecordCreated {
        success: false,
        id: Some("id1".to_owned()),
    });
    assert_eq!(run.action(), finish(Err(ChallengeFailure::RecordRefused)));
    assert_eq!(
        ChallengeFailure::RecordRefused.message(""),
        "failed to create Cloudflare TXT record"
    );
}

#[test]
fn dns01_needs_a_ready_order() {
    let mut run = Dns01::new();
    run.step(Dns01Event::NoMoreAuthorizations);
    run.step(Dns01Event::OrderPolled(OrderStatus::Invalid));
    let failure = ChallengeFailure::UnexpectedOrder(ChallengeKind::Dns01, OrderStatus::Invalid);
    assert_eq!(run.action(), finish(Err(failure)));
    assert_eq!(
        failure.message(""),
        "unexpected order status after dns-01 challenges: Invalid"
    );
}

#[test]
fn http01_runs_through() {
    let mut run = Http01::new();
    let mut expect = |action: Http01Action, event: Http01Event| {
        assert_eq!(run.action(), action);
        run = std::mem::replace(&mut run, Http01::new()).step(event);
    };
    let token = "t".to_owned();
    let content = "t.thumb".to_owned();
    expect(Http01Action::StartServer, Http01Event::ServerStarted);
    expect(
        Http01Action::NextAuthorization,
        Http01Event::Authorization {
            status: AuthorizationStatus::Valid,
            offered: false,
        },
    );
    expect(
        Http01Action::NextAuthorization,
        Http01Event::Authorization {
            status: AuthorizationStatus::Pending,
            offered: true,
        },
    );
    expect(
        Http01Action::GetKeyAuthorization,
        Http01Event::KeyAuthorization {
            token: token.clone(),
            content: content.clone(),
        },
    );
    expect(
        Http01Action::Register { token, content },
        Http01Event::Registered,
    );
    expect(Http01Action::SetReady, Http01Event::ChallengeReady);
    expect(
        Http01Action::NextAuthorization,
        Http01Event::NoMoreAuthorizations,
    );
    expect(
        Http01Action::PollOrder,
        Http01Event::OrderPolled(OrderStatus::Ready),
    );
    expect(Http01Action::StopServer, Http01Event::ServerStopped);
    expect(Http01Action::Finish(Ok(())), Http01Event::Failed);
    expect(Http01Action::Finish(Ok(())), Http01Event::Failed);
}

#[test]
fn http01_stops_a_started_server_only() {
    let failed = Http01::new().step(Http01Event::Failed);
    assert_eq!(
        failed.action(),
        Http01Action::Finish(Err(ChallengeFailure::Outside))
    );

    let running = Http01::new().step(Http01Event::ServerStarted);
    let stopping = running.step(Http01Event::Failed);
    assert_eq!(stopping.action(), Http01Action::StopServer);
    assert_eq!(
        stopping.step(Http01Event::ServerStopped).action(),
        Http01Action::Finish(Err(ChallengeFailure::Outside))
    );
}

#[test]
fn http01_refuses_what_it_cannot_answer() {
    let outcome = |event: Http01Event| {
        let run = Http01::new().step(Http01Event::ServerStarted).step(event);
        match run.step(Http01Event::ServerStopped).action() {
            Http01Action::Finish(Err(failure)) => failure.message("x"),
            other => panic!("{other:?}"),
        }
    };
    assert_eq!(
        outcome(Http01Event::Authorization {
            status: AuthorizationStatus::Pending,
            offered: false,
        }),
        "http-01 challenge not found"
    );
    assert_eq!(
        outcome(Http01Event::Authorization {
            status: AuthorizationStatus::Expired,
            offered: true,
        }),
        "unsupported authorization status: Expired"
    );
    let polled = Http01::new()
        .step(Http01Event::ServerStarted)
        .step(Http01Event::NoMoreAuthorizations)
        .step(Http01Event::OrderPolled(OrderStatus::Pending));
    assert_eq!(
        polled,
        Http01::StopServer(Err(ChallengeFailure::UnexpectedOrder(
            ChallengeKind::Http01,
            OrderStatus::Pending
        )))
    );
}

#[test]
fn registered_tokens_are_served() {
    let mut tokens = ChallengeTokens::new();
    assert_eq!(tokens.respond("a"), (404, String::new()));
    tokens.insert("a".to_owned(), "one".to_owned());
    tokens.insert("b".to_owned(), "two".to_owned());
    assert_eq!(tokens.respond("a"), (200, "one".to_owned()));
    tokens.insert("a".to_owned(), "three".to_owned());
    assert_eq!(tokens.respond("a"), (200, "three".to_owned()));
    assert_eq!(tokens.respond("b"), (200, "two".to_owned()));
    assert_eq!(tokens.respond("c"), (404, String::new()));
}

const DIRECTORY_URL: &str = "https://acme.example/dir";

fn setup_at(path: Option<String>) -> AccountSetup {
    AccountSetup::new(DIRECTORY_URL.to_owned(), path)
}

fn create() -> AccountAction {
    AccountAction::Create {
        directory_url: DIRECTORY_URL.to_owned(),
    }
}

/// Credentials as they are saved.
const SAVED: &str =
    r#"{"id":"https://acme.example/acct/1","key_pkcs8":"AAEC","directory":"https://acme.example/dir"}"#;

#[test]
fn existing_credentials_are_restored() {
    let path = "acme/account.json".to_owned();
    let setup = setup_at(Some(path.clone()));
    assert_eq!(
        setup.action(),
        AccountAction::LookForCredentials(path.clone())
    );
    let setup = setup.step(AccountEvent::CredentialsExist(true));
    assert_eq!(setup.action(), AccountAction::ReadCredentials(path));
    assert_eq!(
        setup.failure_context().unwrap(),
        "failed to read ACME credentials at acme/account.json"
    );
    let setup = setup.step(AccountEvent::CredentialsRead(SAVED.to_owned()));
    assert_eq!(setup.action(), AccountAction::Restore(SAVED.to_owned()));
    assert_eq!(setup.failure_context(), None);
    let setup = setup.step(AccountEvent::Done);
    assert_eq!(setup.action(), AccountAction::Finish(true));
}

#[test]
fn file_without_credentials_is_an_error() {
    for text in ["", "{}", "no JSON here", r#"{"id":"a","key_pkcs8":"*"}"#] {
        assert!(parse_credentials(text).is_err(), "{text}");
        let setup = setup_at(Some("account.json".to_owned()))
            .step(AccountEvent::CredentialsExist(true))
            .step(AccountEvent::CredentialsRead(text.to_owned()));
        assert_eq!(setup.action(), AccountAction::Finish(false), "{text}");
        // It is not taken for a missing file.
        let setup = setup.step(AccountEvent::Created(SAVED.to_owned()));
        assert_eq!(setup.action(), AccountAction::Finish(false), "{text}");
    }
    assert_eq!(
        parse_credentials("").err().unwrap(),
        "EOF while parsing a value at line 1 column 0"
    );
}

#[test]
fn saved_credentials_can_be_read_back() {
    let credentials = parse_credentials(SAVED).ok().unwrap();
    assert_eq!(credentials.private_key().secret_pkcs8_der(), [0u8, 1, 2]);
    let text = credentials_text(&credentials).unwrap();
    assert_eq!(text, SAVED);
    let again = parse_credentials(&text).ok().unwrap();
    assert_eq!(again.private_key().secret_pkcs8_der(), [0u8, 1, 2]);
    assert_eq!(credentials_text(&again).unwrap(), text);
}

#[test]
fn new_credentials_are_saved() {
    let path = "acme/account.json".to_owned();
    let setup = setup_at(Some(path.clone())).step(AccountEvent::CredentialsExist(false));
    assert_eq!(setup.action(), create());
    let setup = setup.step(AccountEvent::Created("secret".to_owned()));
    assert_eq!(
        setup.action(),
        AccountAction::LookForDirectory("acme".to_owned())
    );
    let setup = setup.step(AccountEvent::DirectoryExists(false));
    assert_eq!(
        setup.action(),
        AccountAction::CreateSecretDirectory("acme".to_owned())
    );
    assert_eq!(
        setup.failure_context().unwrap(),
        "failed to create ACME credential directory acme"
    );
    let setup = setup.step(AccountEvent::Done);
    assert_eq!(
        setup.action(),
        AccountAction::SaveCredentials {
            path,
            contents: "secret".to_owned(),
        }
    );
    assert_eq!(
        setup.failure_context().unwrap(),
        "failed to write ACME credentials at acme/account.json"
    );
    let setup = setup.step(AccountEvent::Done);
    assert_eq!(setup.action(), AccountAction::Finish(true));
}

#[test]
fn existing_credential_directory_is_left_alone() {
    let created = |path: &str| {
        setup_at(Some(path.to_owned()))
            .step(AccountEvent::CredentialsExist(false))
            .step(AccountEvent::Created("secret".to_owned()))
    };
    let save = |path: &str| AccountAction::SaveCredentials {
        path: path.to_owned(),
        contents: "secret".to_owned(),
    };
    let there = created("acme/account.json").step(AccountEvent::DirectoryExists(true));
    assert_eq!(there.action(), save("acme/account.json"));
    assert_eq!(created("account.json").action(), save("account.json"));
}

#[test]
fn throwaway_account_is_not_saved() {
    let setup = setup_at(None);
    assert_eq!(setup.action(), create());
    let setup = setup.step(AccountEvent::Created("secret".to_owned()));
    assert_eq!(setup.action(), AccountAction::Finish(true));
    let failed = setup_at(None).step(AccountEvent::Failed);
    assert_eq!(failed.action(), AccountAction::Finish(false));
}

#[test]
fn configured_challenge_is_answered() {
    let dns01 = |token: &str| AcmeChallengeType::Dns01 {
        cloudflare_api_token: token.to_owned(),
        cloudflare_zone_id: "zone".to_owned(),
    };
    match solve_challenges(&dns01("token")) {
        Ok(ChallengeRun::Dns01 {
            dns01,
            cloudflare_api_token,
            cloudflare_zone_id,
        }) => {
            assert_eq!(dns01.action(), Dns01Action::NextAuthorization);
            assert_eq!(cloudflare_api_token, "token");
            assert_eq!(cloudflare_zone_id, "zone");
        }
        _ => panic!("no DNS-01 run"),
    }
    assert_eq!(
        solve_challenges(&dns01("")).err(),
        Some(AcmeError::CloudflareNotConfigured)
    );
    let http01 = AcmeChallengeType::Http01 {
        bind_addr: "0.0.0.0:80".to_owned(),
    };
    match solve_challenges(&http01) {
        Ok(ChallengeRun::Http01 { http01, bind_addr }) => {
            assert_eq!(http01, Http01::new());
            assert_eq!(bind_addr, "0.0.0.0:80");
        }
        _ => panic!("no HTTP-01 run"),
    }
}

#[test]
fn saved_account_is_restored_under_another_directory_url() {
    let path = Some("account.json".to_owned());
    let saving = setup_at(path.clone())
        .step(AccountEvent::CredentialsExist(false))
        .step(AccountEvent::Created(SAVED.to_owned()));
    let AccountAction::SaveCredentials { contents, .. } = saving.action() else {
        panic!("nothing is saved");
    };
    let later = AccountSetup::new("https://other.example/dir".to_owned(), path)
        .step(AccountEvent::CredentialsExist(true))
        .step(AccountEvent::CredentialsRead(contents.clone()));
    assert_eq!(later.action(), AccountAction::Restore(contents));
    let later = later.step(AccountEvent::Done);
    assert_eq!(later.action(), AccountAction::Finish(true));
}

#[test]
fn every_pending_authorization_is_answered() {
    let mut run = Dns01::new();
    let mut readied = vec![];
    for name in ["a.example.com", "b.example.com", "c.example.com"] {
        publish(&mut run, name, "v", name);
        run.step(answers(&["v"]));
        assert_eq!(run.action(), Dns01Action::SetReady);
        readied.push(name);
        run.step(Dns01Event::ChallengeReady);
    }
    run.step(Dns01Event::NoMoreAuthorizations);
    run.step(Dns01Event::OrderPolled(OrderStatus::Ready));
    for name in readied {
        assert_eq!(run.action(), Dns01Action::DeleteRecord(name.to_owned()));
        run.step(Dns01Event::RecordDeletionTried);
    }
    assert_eq!(run.action(), finish(Ok(())));
}
