//! What an issuance asks for, seen from its configuration.
use crate::acme;
use crate::acme::csr;
use crate::acme::csr::{CertificationRequestView, CsrError, CsrNameView};
use crate::acme::identifier;
use crate::acme::identifier::{Identifier, IdentifierView};
use crate::acme::issuance;
use crate::acme::issuance::{Flow, Issuance, IssuanceAction, IssuanceEvent, IssuanceStep};
use crate::acme::laws::naming;
use crate::acme::target;
use crate::acme::target::Target;
use crate::acme::{AcmeChallengeType, AcmeConfig, AcmeCsrConfig, AcmeError, OrderStatus};
use vstd::prelude::*;
use vstd::string::*;

verus! {

/// Whether a challenge is a DNS-01 challenge without a Cloudflare token or zone.
pub open spec fn lacks_credentials(challenge: AcmeChallengeType) -> bool {
    challenge matches AcmeChallengeType::Dns01 { cloudflare_api_token, cloudflare_zone_id } && (
    cloudflare_api_token@.len() == 0 || cloudflare_zone_id@.len() == 0)
}

/// A challenge configuration works exactly where it does not lack credentials.
pub proof fn only_missing_credentials_are_refused(challenge: AcmeChallengeType)
    ensures
        acme::challenge_config_works(challenge) <==> !lacks_credentials(challenge),
{
}

/// Whether the key came with one of `events`.
pub open spec fn brought_key(events: Seq<IssuanceEvent>, key_pem: String) -> bool {
    exists|i: int|
        0 <= i < events.len() && #[trigger] events[i] == IssuanceEvent::FinalizedWithKey(key_pem)
}

/// Whether the chain came with one of `events`.
pub open spec fn brought_chain(events: Seq<IssuanceEvent>, chain_pem: String) -> bool {
    exists|i: int|
        0 <= i < events.len() && #[trigger] events[i] == IssuanceEvent::ChainFetched(chain_pem)
}

/// Whether the bundle came with one of `events`.
pub open spec fn brought_bundle(events: Seq<IssuanceEvent>, der: Seq<u8>) -> bool {
    exists|i: int|
        0 <= i < events.len() && (#[trigger] events[i] matches IssuanceEvent::Bundled(bundle)
            && bundle@ == der)
}

/// Whether `dir` is the parent of the file with this path.
pub open spec fn holds_file(dir: String, path: String) -> bool {
    dir@.len() > 0 && target::may_be_parent(path@, Some(dir@))
}

/// The directory of a file is its parent.
pub proof fn lemma_directory(t: Target)
    requires
        t.valid(),
        t.directory is Some,
    ensures
        holds_file(t.directory->0, t.path),
{
    let parent = choose|parent: Option<Seq<char>>| #[trigger]
        target::may_be_parent(t.path@, parent) && target::text_view(t.directory) == target::named(
            parent,
        );
    assert(parent == Some((t.directory->0)@));
}

/// Nothing is planned exactly where there are no hosts, and the plan is refused exactly where
/// there are some and the challenge lacks credentials.
pub proof fn plan_is_made_for_hosts(config: AcmeConfig, r: Result<Option<Issuance>, AcmeError>)
    requires
        issuance::planned(config, r),
    ensures
        config.hosts@.len() == 0 ==> r == Ok::<Option<Issuance>, AcmeError>(None),
        config.hosts@.len() > 0 && lacks_credentials(config.challenge) ==> r == Err::<
            Option<Issuance>,
            AcmeError,
        >(AcmeError::CloudflareNotConfigured),
        config.hosts@.len() > 0 && !lacks_credentials(config.challenge) ==> r matches Ok(Some(_)),
{
    only_missing_credentials_are_refused(config.challenge);
}

/// Whether `ids` hold the DNS name `host`, as it is written.
pub open spec fn holds_name(ids: Seq<Identifier>, host: Seq<char>) -> bool {
    exists|i: int|
        0 <= i < ids.len() && (#[trigger] ids[i] matches Identifier::Dns(name) && name@ == host)
}

/// After the account is built, the order that is asked for names as many identifiers as there
/// are hosts, and the one with number `i` is the DNS name that is the host with number `i`,
/// as it is written, for lists of hosts of every length.
pub proof fn order_names_every_host(config: AcmeConfig, start: Issuance, action: IssuanceAction)
    requires
        issuance::planned(config, Ok(Some(start))),
        issuance::after(start, seq![IssuanceEvent::Done]).asks(action),
    ensures
        action matches IssuanceAction::CreateOrder { identifiers, profile } && {
            &&& profile == config.profile
            &&& identifiers@.len() == config.hosts@.len()
            &&& forall|i: int|
                0 <= i < config.hosts@.len() ==> (
                #[trigger] identifiers@[i] matches Identifier::Dns(name) && name@
                    == config.hosts@[i]@)
            &&& forall|h: int|
                0 <= h < config.hosts@.len() ==> holds_name(
                    identifiers@,
                    #[trigger] config.hosts@[h]@,
                )
        },
{
    let events = seq![IssuanceEvent::Done];
    assert(events.drop_last() =~= Seq::<IssuanceEvent>::empty());
    assert(issuance::after(start, events.drop_last()) == start);
    assert(events.last() is Done);
    assert(issuance::after(start, events) == start.after_event(IssuanceEvent::Done));
    assert(issuance::after(start, events).step is CreateOrder);
    assert(action is CreateOrder);
    lemma_verbatim(start.plan.identifiers@, config.hosts@);
    let identifiers = action->identifiers;
    assert(identifiers@ == start.plan.identifiers@);
    assert forall|h: int| 0 <= h < config.hosts@.len() implies holds_name(
        identifiers@,
        #[trigger] config.hosts@[h]@,
    ) by {
        assert(identifiers@[h] matches Identifier::Dns(name) && name@ == config.hosts@[h]@);
    }
}

proof fn lemma_verbatim(ids: Seq<Identifier>, hosts: Seq<String>)
    requires
        identifier::views(ids) == identifier::verbatim_dns(hosts),
    ensures
        ids.len() == hosts.len(),
        forall|i: int|
            0 <= i < hosts.len() ==> (#[trigger] ids[i] matches Identifier::Dns(name) && name@
                == hosts[i]@),
{
    let v = identifier::views(ids);
    let w = identifier::verbatim_dns(hosts);
    assert(v.len() == ids.len() && w.len() == hosts.len());
    assert forall|i: int| 0 <= i < hosts.len() implies (#[trigger] ids[i] matches Identifier::Dns(
        name,
    ) && name@ == hosts[i]@) by {
        assert(v[i] == ids[i]@);
        assert(w[i] == IdentifierView::Dns(hosts[i]@));
    }
}

/// Whatever has come back so far, an issuance for a new key asks for what is configured: the
/// account and the order as they are configured, the files at the configured paths, with the
/// key, the chain and the bundle that came back, and directories of these files only. The
/// directories of the key and of the bundle are secret, that of the chain is not.
pub proof fn new_key_issuance_follows_the_configuration(
    config: AcmeConfig,
    start: Issuance,
    events: Seq<IssuanceEvent>,
    action: IssuanceAction,
)
    requires
        issuance::planned(config, Ok(Some(start))),
        issuance::after(start, events).asks(action),
    ensures
        match action {
            IssuanceAction::BuildAccount { directory_url, credential_path } => directory_url
                == config.directory_url && credential_path == config.account_credential_path,
            IssuanceAction::CreateOrder { identifiers, profile } => profile == config.profile
                && identifiers@.len() == config.hosts@.len() && forall|i: int|
                0 <= i < config.hosts@.len() ==> (
                #[trigger] identifiers@[i] matches Identifier::Dns(name) && name@
                    == config.hosts@[i]@),
            IssuanceAction::FetchIdentifiers => false,
            IssuanceAction::SolveChallenges(challenge) => challenge == config.challenge,
            IssuanceAction::FinalizeWithCsr(_) => false,
            IssuanceAction::Bundle { key_pem, chain_pem } => brought_key(events, key_pem)
                && brought_chain(events, chain_pem),
            IssuanceAction::LookForDirectory(dir) => holds_file(dir, config.key_path) || holds_file(
                dir,
                config.pkcs12_path,
            ) || holds_file(dir, config.cert_path),
            IssuanceAction::CreateSecretDirectory(dir) => holds_file(dir, config.key_path)
                || holds_file(dir, config.pkcs12_path),
            IssuanceAction::CreateDirectory(dir) => holds_file(dir, config.cert_path),
            IssuanceAction::WriteKey { path, contents } => path == config.key_path && brought_key(
                events,
                contents,
            ),
            IssuanceAction::WriteChain { path, contents } => path == config.cert_path
                && brought_chain(events, contents),
            IssuanceAction::WriteBundle { path, der } => path == config.pkcs12_path
                && brought_bundle(events, der@),
            IssuanceAction::Finish(chain_pem) => brought_chain(events, chain_pem),
            _ => true,
        },
{
    let now = issuance::after(start, events);
    issuance::plan_never_changes(start, events);
    issuance::course_of_issuance(start, events);
    lemma_verbatim(start.plan.identifiers@, config.hosts@);
    lemma_brought(start, events);
    if (start.flow->key).directory is Some {
        lemma_directory(start.flow->key);
    }
    if (start.flow->pkcs12).directory is Some {
        lemma_directory(start.flow->pkcs12);
    }
    if (start.flow->cert).directory is Some {
        lemma_directory(start.flow->cert);
    }
}

proof fn lemma_brought(start: Issuance, events: Seq<IssuanceEvent>)
    requires
        issuance::is_fresh(start),
    ensures
        ({
            let now = issuance::after(start, events);
            let rank = issuance::rank(now.step);
            &&& rank > issuance::rank(IssuanceStep::FetchChain) && !(now.step is Failed)
                ==> brought_chain(events, now.material.chain_pem)
            &&& start.flow is OwnKey && rank > issuance::rank(IssuanceStep::Finalize) && !(
            now.step is Failed) ==> brought_key(events, now.material.key_pem)
            &&& start.flow is OwnKey && rank > issuance::rank(IssuanceStep::Bundle) && !(
            now.step is Failed) ==> brought_bundle(events, now.material.pfx_der@)
        }),
{
    let now = issuance::after(start, events);
    let rank = issuance::rank(now.step);
    if !(now.step is Failed) {
        if rank > issuance::rank(IssuanceStep::FetchChain) {
            issuance::issued_chain_is_the_fetched_one(start, events);
        }
        if start.flow is OwnKey && rank > issuance::rank(IssuanceStep::Finalize) {
            issuance::issued_key_is_the_finalized_one(start, events);
        }
        if start.flow is OwnKey && rank > issuance::rank(IssuanceStep::Bundle) {
            issuance::written_bundle_is_the_made_one(start, events);
            let i = choose|i: int|
                0 <= i < events.len() && issuance::after(start, events.take(i)).step is Bundle
                    && #[trigger] events[i] == IssuanceEvent::Bundled(now.material.pfx_der);
            assert(events[i] matches IssuanceEvent::Bundled(bundle) && bundle@
                == now.material.pfx_der@);
        }
    }
}

/// Whether one of the CSR's names asks for `id`.
pub open spec fn is_asked_for(id: Identifier, request: CertificationRequestView) -> bool {
    exists|i: int| 0 <= i < request.names.len() && naming::asks_for(#[trigger] request.names[i], id@)
}

/// Whether `ids` hold what `name` asks for.
pub open spec fn is_answered(name: CsrNameView, ids: Seq<Identifier>) -> bool {
    exists|k: int| 0 <= k < ids.len() && naming::asks_for(name, (#[trigger] ids[k])@)
}

/// Whether `ids` are what the CSR's names ask for: each is asked for, and every DNS name and
/// every address is answered.
pub open spec fn are_for_csr(ids: Seq<Identifier>, request: CertificationRequestView) -> bool {
    &&& forall|k: int| 0 <= k < ids.len() ==> is_asked_for(#[trigger] ids[k], request)
    &&& forall|i: int|
        0 <= i < request.names.len() && !((#[trigger] request.names[i]) is Other) ==> is_answered(
            request.names[i],
            ids,
        )
}

proof fn lemma_are_for_csr(ids: Seq<Identifier>, request: CertificationRequestView)
    requires
        csr::request_identifiers(request) == Ok::<Seq<IdentifierView>, CsrError>(
            identifier::views(ids),
        ),
    ensures
        are_for_csr(ids, request),
{
    let names = request.names;
    let v = identifier::views(ids);
    assert forall|k: int| 0 <= k < ids.len() implies is_asked_for(#[trigger] ids[k], request) by {
        assert(v[k] == ids[k]@);
        assert(v.contains(ids[k]@));
        naming::csr_asks_for_its_names(request, ids[k]@);
    }
    assert forall|i: int| 0 <= i < names.len() && !((#[trigger] names[i]) is Other) implies is_answered(
        names[i],
        ids,
    ) by {
        naming::csr_asks_for_its_names(request, IdentifierView::Dns(Seq::empty()));
        let id = naming::lemma_name_asks(names[i]);
        assert(naming::asks_for(names[i], id));
        naming::csr_asks_for_its_names(request, id);
        assert(v.contains(id));
        let k = choose|k: int| 0 <= k < v.len() && v[k] == id;
        assert(ids[k]@ == id);
    }
}

/// What the plan for a CSR orders.
proof fn lemma_csr_plan(config: AcmeCsrConfig, file: Option<Vec<u8>>, start: Issuance)
    requires
        issuance::planned_with_csr(config, file, Ok(start)),
    ensures
        csr::source_der(config.csr, file) is Some,
        if config.hosts@.len() > 0 {
            naming::are_for_hosts(start.plan.identifiers@, config.hosts@)
        } else {
            csr::parsed_csr(csr::source_der(config.csr, file)->0) matches Ok(request)
                && are_for_csr(start.plan.identifiers@, request)
        },
{
    let ids = start.plan.identifiers@;
    if config.hosts@.len() > 0 {
        naming::hosts_are_named(ids, config.hosts@);
    } else {
        lemma_are_for_csr(ids, csr::parsed_csr(csr::source_der(config.csr, file)->0)->Ok_0);
    }
}

/// Whatever has come back so far, an issuance for a CSR asks for what is configured: an order
/// that names every host, or where no hosts are configured everything that the CSR asks for,
/// and in either case nothing else; the order is finalized with the very CSR; and nothing is
/// written but the chain that came back, where a path for it is configured. No key is asked
/// for.
pub proof fn csr_issuance_follows_the_configuration(
    config: AcmeCsrConfig,
    file: Option<Vec<u8>>,
    start: Issuance,
    events: Seq<IssuanceEvent>,
    action: IssuanceAction,
)
    requires
        issuance::planned_with_csr(config, file, Ok(start)),
        issuance::after(start, events).asks(action),
    ensures
        csr::source_der(config.csr, file) is Some,
        match action {
            IssuanceAction::BuildAccount { directory_url, credential_path } => directory_url
                == config.directory_url && credential_path == config.account_credential_path,
            IssuanceAction::CreateOrder { identifiers, profile } => profile == config.profile && if config.hosts@.len() > 0 {
                naming::are_for_hosts(identifiers@, config.hosts@)
            } else {
                csr::parsed_csr(csr::source_der(config.csr, file)->0) matches Ok(request)
                    && are_for_csr(identifiers@, request)
            },
            IssuanceAction::SolveChallenges(challenge) => challenge == config.challenge,
            IssuanceAction::FinalizeWithNewKey => false,
            IssuanceAction::FinalizeWithCsr(der) => csr::source_der(config.csr, file) == Some(der@),
            IssuanceAction::Bundle { .. } => false,
            IssuanceAction::LookForDirectory(dir) => config.cert_path is Some && holds_file(
                dir,
                config.cert_path->0,
            ),
            IssuanceAction::CreateSecretDirectory(_) => false,
            IssuanceAction::CreateDirectory(dir) => config.cert_path is Some && holds_file(
                dir,
                config.cert_path->0,
            ),
            IssuanceAction::WriteKey { .. } => false,
            IssuanceAction::WriteChain { path, contents } => config.cert_path == Some(path)
                && brought_chain(events, contents),
            IssuanceAction::WriteBundle { .. } => false,
            IssuanceAction::Finish(chain_pem) => brought_chain(events, chain_pem),
            _ => true,
        },
{
    let now = issuance::after(start, events);
    issuance::plan_never_changes(start, events);
    issuance::course_of_issuance(start, events);
    lemma_brought(start, events);
    lemma_csr_plan(config, file, start);
    if let Flow::CallerCsr { chain: Some(target), .. } = start.flow {
        if target.directory is Some {
            lemma_directory(target);
        }
    }
}

/// The plan for a CSR is refused for the challenge before anything else, then where the source
/// holds no CSR, and then, where no hosts are configured, for what the CSR asks for. With hosts
/// it is made.
pub proof fn csr_plan_is_refused_in_order(
    config: AcmeCsrConfig,
    file: Option<Vec<u8>>,
    r: Result<Issuance, AcmeError>,
)
    requires
        issuance::planned_with_csr(config, file, r),
    ensures
        lacks_credentials(config.challenge) <==> r == Err::<Issuance, AcmeError>(
            AcmeError::CloudflareNotConfigured,
        ),
        !lacks_credentials(config.challenge) && csr::source_der(config.csr, file) is None ==> r
            == Err::<Issuance, AcmeError>(AcmeError::Csr(csr::source_error(config.csr))),
        !lacks_credentials(config.challenge) && csr::source_der(config.csr, file) is Some
            && config.hosts@.len() > 0 ==> r is Ok,
        !lacks_credentials(config.challenge) && csr::source_der(config.csr, file) is Some
            && config.hosts@.len() == 0 ==> (r is Ok <==> (csr::parsed_csr(
            csr::source_der(config.csr, file)->0,
        ) matches Ok(request) && csr::request_identifiers(request) is Ok)),
{
    only_missing_credentials_are_refused(config.challenge);
}

/// Each step asks for the action of its kind, and no other step does.
pub proof fn steps_ask_for_their_actions(now: Issuance, action: IssuanceAction)
    requires
        now.asks(action),
    ensures
        now.step is BuildAccount <==> action is BuildAccount,
        now.step is CreateOrder <==> action is CreateOrder,
        now.step is CheckCsr <==> action is FetchIdentifiers,
        now.step is SolveChallenges <==> action is SolveChallenges,
        now.step is Finalize <==> action is FinalizeWithNewKey || action is FinalizeWithCsr,
        now.step is FetchChain <==> action is FetchChain,
        now.step is Bundle <==> action is Bundle,
        now.step is WriteKey <==> action is WriteKey,
        now.step is WriteChain <==> action is WriteChain,
        now.step is WriteBundle <==> action is WriteBundle,
        now.step is Finished <==> action is Finish,
        now.step is Failed <==> action is Fail,
        action is CreateSecretDirectory <==> now.step is CreateKeyDirectory || now.step
            is CreateBundleDirectory,
        action is CreateDirectory <==> now.step is CreateChainDirectory,
{
}

/// A failed action ends the issuance, at whatever step, and a finished one is not undone.
pub proof fn failed_action_ends_the_issuance(now: Issuance)
    ensures
        !(now.step is Finished) && !(now.step is Failed) ==> now.next(IssuanceEvent::Failed)
            == IssuanceStep::Failed(None),
        now.step is Finished ==> now.next(IssuanceEvent::Failed) is Finished,
{
}

/// Challenges are answered for an order exactly where it was pending when it was created: for
/// a new key right after, and for a CSR after the order's identifiers were found to be those
/// of the CSR. Where they are not, the reason is given, whatever the status is.
pub proof fn challenges_are_answered_for_pending_orders(
    now: Issuance,
    status: OrderStatus,
    ids: Vec<Identifier>,
)
    requires
        now.step is CreateOrder,
    ensures
        ({
            let ordered = now.after_event(IssuanceEvent::OrderCreated(status));
            let settled = if now.flow is OwnKey {
                ordered.step
            } else {
                ordered.next(IssuanceEvent::OrderIdentifiers(ids))
            };
            match now.flow {
                Flow::OwnKey { .. } => {
                    &&& settled is SolveChallenges <==> status is Pending
                    &&& settled is Finalize <==> !(status is Pending)
                },
                Flow::CallerCsr { request, .. } => {
                    &&& ordered.step is CheckCsr
                    &&& match csr::parsed_check(request, identifier::views(ids@)) {
                        Ok(_) => {
                            &&& settled is SolveChallenges <==> status is Pending
                            &&& settled is Finalize <==> !(status is Pending)
                        },
                        Err(e) => settled == IssuanceStep::Failed(Some(e)),
                    }
                },
            }
        }),
{
}

/// A missing directory is created and an existing one is left alone, for each of the files.
pub proof fn missing_directories_are_created(now: Issuance)
    ensures
        now.step is LookForKeyDirectory ==> now.next(IssuanceEvent::DirectoryExists(false))
            is CreateKeyDirectory && (now.next(IssuanceEvent::DirectoryExists(true))
            is LookForBundleDirectory || now.next(IssuanceEvent::DirectoryExists(true)) is WriteKey),
        now.step is LookForBundleDirectory ==> now.next(IssuanceEvent::DirectoryExists(false))
            is CreateBundleDirectory && now.next(IssuanceEvent::DirectoryExists(true)) is WriteKey,
        now.step is LookForChainDirectory ==> now.next(IssuanceEvent::DirectoryExists(false))
            is CreateChainDirectory && now.next(IssuanceEvent::DirectoryExists(true)) is WriteChain,
{
}

/// Before the key is written, the directories of the key and of the bundle are looked for,
/// where their paths name any, and before the chain is written that of the chain; only then,
/// or once they are there, the files are written.
pub proof fn directories_come_before_files(now: Issuance, bundle: Vec<u8>, chain_pem: String)
    requires
        now.wf(),
    ensures
        now.step is Bundle ==> ({
            let next = now.next(IssuanceEvent::Bundled(bundle));
            let key = (now.flow->key).directory is Some;
            let pkcs12 = (now.flow->pkcs12).directory is Some;
            &&& next is LookForKeyDirectory <==> key
            &&& next is LookForBundleDirectory <==> !key && pkcs12
            &&& next is WriteKey <==> !key && !pkcs12
        }),
        now.step is LookForKeyDirectory || now.step is CreateKeyDirectory ==> ({
            let next = if now.step is CreateKeyDirectory {
                now.next(IssuanceEvent::Done)
            } else {
                now.next(IssuanceEvent::DirectoryExists(true))
            };
            let pkcs12 = (now.flow->pkcs12).directory is Some;
            &&& next is LookForBundleDirectory <==> pkcs12
            &&& next is WriteKey <==> !pkcs12
        }),
        now.step is CreateBundleDirectory ==> now.next(IssuanceEvent::Done) is WriteKey,
        now.step is WriteKey ==> (now.next(IssuanceEvent::Done) is LookForChainDirectory <==> (
        now.flow->cert).directory is Some) && (now.next(IssuanceEvent::Done) is WriteChain <==> (
        now.flow->cert).directory is None),
        now.step is FetchChain && now.flow is CallerCsr ==> ({
            let next = now.next(IssuanceEvent::ChainFetched(chain_pem));
            match now.flow->chain {
                None => next is Finished,
                Some(target) => if target.directory is Some {
                    next is LookForChainDirectory
                } else {
                    next is WriteChain
                },
            }
        }),
        now.step is FetchChain && now.flow is OwnKey ==> now.next(
            IssuanceEvent::ChainFetched(chain_pem),
        ) is Bundle,
        now.step is CreateChainDirectory ==> now.next(IssuanceEvent::Done) is WriteChain,
        now.step is WriteChain && now.flow is OwnKey ==> now.next(IssuanceEvent::Done) is WriteBundle,
        now.step is WriteChain && now.flow is CallerCsr ==> now.next(IssuanceEvent::Done) is Finished,
        now.step is WriteBundle ==> now.next(IssuanceEvent::Done) is Finished,
{
}

} // verus!
