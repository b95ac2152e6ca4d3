//! The course of an issuance: which identifiers are ordered, and the order in which the
//! account, the order, the challenges, the certificate and its files are dealt with.
use crate::acme;
use crate::acme::csr;
use crate::acme::csr::{
    check_parsed_csr, identifiers_of_parsed_csr, parse_csr, CertificationRequest, CsrError,
};
use crate::acme::identifier;
use crate::acme::identifier::{
    dns_identifiers, duplicates, identifiers_from_hosts, Identifier, IdentifierView,
};
use crate::acme::target::Target;
use crate::acme::{
    check_challenge_config, AcmeChallengeType, AcmeConfig, AcmeCsrConfig, AcmeError, OrderStatus,
};
use crate::text;
use vstd::prelude::*;
use vstd::string::*;

verus! {

/// Whose key the certificate is for, and which files are written.
#[derive(Debug, PartialEq, Eq)]
pub enum Flow {
    /// A key generated on the way. The key, the chain and a PKCS#12 bundle of both are
    /// written.
    OwnKey { cert: Target, key: Target, pkcs12: Target },
    /// The key behind a CSR of the caller. Only the chain is written, if anything.
    CallerCsr {
        der: Vec<u8>,
        /// What the CSR holds, or why it cannot be parsed.
        request: Result<CertificationRequest, String>,
        chain: Option<Target>,
    },
}

/// What came of the last action of an [`Issuance`].
#[derive(Debug, PartialEq, Eq)]
pub enum IssuanceEvent {
    /// The action was done.
    Done,
    /// The order was finalized with a new key, in PEM form.
    FinalizedWithKey(String),
    /// The certificate chain, in PEM form.
    ChainFetched(String),
    /// The PKCS#12 bundle of the key and the chain.
    Bundled(Vec<u8>),
    /// The order was created and has this status.
    OrderCreated(OrderStatus),
    /// The identifiers that the order names.
    OrderIdentifiers(Vec<Identifier>),
    /// Whether the directory exists.
    DirectoryExists(bool),
    /// The action failed.
    Failed,
}

/// What an [`Issuance`] asks for.
#[derive(Debug, PartialEq, Eq)]
pub enum IssuanceAction {
    /// Build the ACME account at this directory URL, with its credentials in this file.
    BuildAccount { directory_url: String, credential_path: Option<String> },
    /// Create an order for these identifiers, under this profile.
    CreateOrder { identifiers: Vec<Identifier>, profile: Option<String> },
    /// Get the identifiers that the order names.
    FetchIdentifiers,
    /// Answer the challenges of the order in this way.
    SolveChallenges(AcmeChallengeType),
    /// Finalize the order with a new key.
    FinalizeWithNewKey,
    /// Finalize the order with this CSR.
    FinalizeWithCsr(Vec<u8>),
    /// Poll for the certificate chain.
    FetchChain,
    /// Bundle this key and this chain.
    Bundle { key_pem: String, chain_pem: String },
    /// Find out whether this directory exists.
    LookForDirectory(String),
    /// Create this directory, readable by the owner only.
    CreateSecretDirectory(String),
    /// Create this directory.
    CreateDirectory(String),
    /// Write the key to this file, readable by the owner only.
    WriteKey { path: String, contents: String },
    /// Write the chain to this file. It is public.
    WriteChain { path: String, contents: String },
    /// Write the bundle to this file, readable by the owner only.
    WriteBundle { path: String, der: Vec<u8> },
    /// The certificate was issued, with this chain.
    Finish(String),
    /// It failed. Where there is no error here, that of the last action is the reason.
    Fail(Option<CsrError>),
}

/// How far an issuance has come.
#[derive(Debug, PartialEq, Eq)]
pub enum IssuanceStep {
    BuildAccount,
    CreateOrder,
    CheckCsr,
    SolveChallenges,
    Finalize,
    FetchChain,
    Bundle,
    LookForKeyDirectory,
    CreateKeyDirectory,
    LookForBundleDirectory,
    CreateBundleDirectory,
    WriteKey,
    LookForChainDirectory,
    CreateChainDirectory,
    WriteChain,
    WriteBundle,
    Finished,
    Failed(Option<CsrError>),
}

/// What is ordered, and how.
#[derive(Debug, PartialEq, Eq)]
pub struct OrderPlan {
    pub identifiers: Vec<Identifier>,
    pub profile: Option<String>,
    pub challenge: AcmeChallengeType,
    pub directory_url: String,
    pub account_credential_path: Option<String>,
}

/// What an issuance has come by.
#[derive(Debug, PartialEq, Eq)]
pub struct Material {
    /// The new key, in PEM form.
    pub key_pem: String,
    /// The certificate chain, in PEM form.
    pub chain_pem: String,
    /// The PKCS#12 bundle of both.
    pub pfx_der: Vec<u8>,
}

/// The course of an issuance.
#[derive(Debug, PartialEq, Eq)]
pub struct Issuance {
    pub plan: OrderPlan,
    pub flow: Flow,
    pub material: Material,
    /// Whether the order was pending when it was created.
    pub pending: bool,
    pub step: IssuanceStep,
}

impl Flow {
    /// The file for the chain, if it is written.
    pub open spec fn chain_target(self) -> Option<Target> {
        match self {
            Flow::OwnKey { cert, .. } => Some(cert),
            Flow::CallerCsr { chain, .. } => chain,
        }
    }

    /// Whether the directory of each file is the one that its path names.
    pub open spec fn valid(self) -> bool {
        match self {
            Flow::OwnKey { cert, key, pkcs12 } => cert.valid() && key.valid() && pkcs12.valid(),
            Flow::CallerCsr { chain, .. } => chain matches Some(target) ==> target.valid(),
        }
    }
}

impl Issuance {
    /// The step after the order was accepted: only a pending order has challenges.
    pub open spec fn accepted(pending: bool) -> IssuanceStep {
        if pending {
            IssuanceStep::SolveChallenges
        } else {
            IssuanceStep::Finalize
        }
    }

    /// The step after the order was created.
    pub open spec fn ordered(self, pending: bool) -> IssuanceStep {
        match self.flow {
            Flow::OwnKey { .. } => Issuance::accepted(pending),
            Flow::CallerCsr { .. } => IssuanceStep::CheckCsr,
        }
    }

    /// The step after the order's identifiers are known.
    pub open spec fn checked(self, order: Seq<IdentifierView>) -> IssuanceStep {
        match self.flow {
            Flow::OwnKey { .. } => Issuance::accepted(self.pending),
            Flow::CallerCsr { request, .. } => match csr::parsed_check(request, order) {
                Ok(_) => Issuance::accepted(self.pending),
                Err(e) => IssuanceStep::Failed(Some(e)),
            },
        }
    }

    /// The step after the bundle was made: the directories of the secret files come first,
    /// where their paths name any.
    pub open spec fn bundled(self) -> IssuanceStep {
        if (self.flow->key).directory is Some {
            IssuanceStep::LookForKeyDirectory
        } else {
            self.key_directory_settled()
        }
    }

    /// The step after the directory of the key is there.
    pub open spec fn key_directory_settled(self) -> IssuanceStep {
        if (self.flow->pkcs12).directory is Some {
            IssuanceStep::LookForBundleDirectory
        } else {
            IssuanceStep::WriteKey
        }
    }

    /// The step that begins the writing of the chain.
    pub open spec fn chain_due(self) -> IssuanceStep {
        if (self.flow.chain_target()->0).directory is Some {
            IssuanceStep::LookForChainDirectory
        } else {
            IssuanceStep::WriteChain
        }
    }

    /// The step after the chain was fetched.
    pub open spec fn fetched(self) -> IssuanceStep {
        match self.flow {
            Flow::OwnKey { .. } => IssuanceStep::Bundle,
            Flow::CallerCsr { chain: Some(_), .. } => self.chain_due(),
            Flow::CallerCsr { chain: None, .. } => IssuanceStep::Finished,
        }
    }

    /// The step after `event`.
    pub open spec fn next(self, event: IssuanceEvent) -> IssuanceStep {
        match (self.step, event) {
            (IssuanceStep::Finished, _) => self.step,
            (IssuanceStep::Failed(_), _) => self.step,
            (IssuanceStep::BuildAccount, IssuanceEvent::Done) => IssuanceStep::CreateOrder,
            (IssuanceStep::CreateOrder, IssuanceEvent::OrderCreated(status)) => self.ordered(
                status == OrderStatus::Pending,
            ),
            (IssuanceStep::CheckCsr, IssuanceEvent::OrderIdentifiers(ids)) => self.checked(
                identifier::views(ids@),
            ),
            (IssuanceStep::SolveChallenges, IssuanceEvent::Done) => IssuanceStep::Finalize,
            (IssuanceStep::Finalize, IssuanceEvent::FinalizedWithKey(_)) if self.flow is OwnKey => {
                IssuanceStep::FetchChain
            },
            (IssuanceStep::Finalize, IssuanceEvent::Done) if self.flow is CallerCsr => {
                IssuanceStep::FetchChain
            },
            (IssuanceStep::FetchChain, IssuanceEvent::ChainFetched(_)) => self.fetched(),
            (IssuanceStep::Bundle, IssuanceEvent::Bundled(_)) => self.bundled(),
            (IssuanceStep::LookForKeyDirectory, IssuanceEvent::DirectoryExists(exists)) => {
                if exists {
                    self.key_directory_settled()
                } else {
                    IssuanceStep::CreateKeyDirectory
                }
            },
            (IssuanceStep::CreateKeyDirectory, IssuanceEvent::Done) => {
                self.key_directory_settled()
            },
            (IssuanceStep::LookForBundleDirectory, IssuanceEvent::DirectoryExists(exists)) => {
                if exists {
                    IssuanceStep::WriteKey
                } else {
                    IssuanceStep::CreateBundleDirectory
                }
            },
            (IssuanceStep::CreateBundleDirectory, IssuanceEvent::Done) => IssuanceStep::WriteKey,
            (IssuanceStep::WriteKey, IssuanceEvent::Done) => self.chain_due(),
            (IssuanceStep::LookForChainDirectory, IssuanceEvent::DirectoryExists(exists)) => {
                if exists {
                    IssuanceStep::WriteChain
                } else {
                    IssuanceStep::CreateChainDirectory
                }
            },
            (IssuanceStep::CreateChainDirectory, IssuanceEvent::Done) => IssuanceStep::WriteChain,
            (IssuanceStep::WriteChain, IssuanceEvent::Done) => if self.flow is OwnKey {
                IssuanceStep::WriteBundle
            } else {
                IssuanceStep::Finished
            },
            (IssuanceStep::WriteBundle, IssuanceEvent::Done) => IssuanceStep::Finished,
            _ => IssuanceStep::Failed(None),
        }
    }

    /// Whether the order is pending, as far as that is known after `event`.
    pub open spec fn next_pending(self, event: IssuanceEvent) -> bool {
        match (self.step, event) {
            (IssuanceStep::CreateOrder, IssuanceEvent::OrderCreated(status)) => status
                == OrderStatus::Pending,
            _ => self.pending,
        }
    }

    /// What there is after `event`.
    pub open spec fn next_material(self, event: IssuanceEvent) -> Material {
        match (self.step, event) {
            (IssuanceStep::Finalize, IssuanceEvent::FinalizedWithKey(key_pem)) => Material {
                key_pem,
                ..self.material
            },
            (IssuanceStep::FetchChain, IssuanceEvent::ChainFetched(chain_pem)) => Material {
                chain_pem,
                ..self.material
            },
            (IssuanceStep::Bundle, IssuanceEvent::Bundled(pfx_der)) => Material {
                pfx_der,
                ..self.material
            },
            _ => self.material,
        }
    }

    /// The issuance after `event`.
    pub open spec fn after_event(self, event: IssuanceEvent) -> Issuance {
        Issuance {
            material: self.next_material(event),
            pending: self.next_pending(event),
            step: self.next(event),
            ..self
        }
    }

    /// What holds of every issuance: the steps that need a file or a directory have one.
    pub open spec fn wf(self) -> bool {
        let chain = self.flow.chain_target();
        match self.step {
            IssuanceStep::CheckCsr => self.flow is CallerCsr,
            IssuanceStep::Bundle => self.flow is OwnKey,
            IssuanceStep::LookForKeyDirectory => self.flow is OwnKey && (
            self.flow->key).directory is Some,
            IssuanceStep::CreateKeyDirectory => self.flow is OwnKey && (
            self.flow->key).directory is Some,
            IssuanceStep::LookForBundleDirectory => self.flow is OwnKey && (
            self.flow->pkcs12).directory is Some,
            IssuanceStep::CreateBundleDirectory => self.flow is OwnKey && (
            self.flow->pkcs12).directory is Some,
            IssuanceStep::WriteKey => self.flow is OwnKey,
            IssuanceStep::WriteBundle => self.flow is OwnKey,
            IssuanceStep::LookForChainDirectory => chain is Some && (chain->0).directory is Some,
            IssuanceStep::CreateChainDirectory => chain is Some && (chain->0).directory is Some,
            IssuanceStep::WriteChain => chain is Some,
            _ => true,
        }
    }

    /// Whether `action` is what this step asks for.
    pub open spec fn asks(self, action: IssuanceAction) -> bool {
        let key = self.flow->key;
        let pkcs12 = self.flow->pkcs12;
        let chain = self.flow.chain_target()->0;
        match self.step {
            IssuanceStep::BuildAccount => action == (IssuanceAction::BuildAccount {
                directory_url: self.plan.directory_url,
                credential_path: self.plan.account_credential_path,
            }),
            IssuanceStep::CreateOrder => action matches IssuanceAction::CreateOrder {
                identifiers,
                profile,
            } && identifiers@ == self.plan.identifiers@ && profile == self.plan.profile,
            IssuanceStep::CheckCsr => action is FetchIdentifiers,
            IssuanceStep::SolveChallenges => action == IssuanceAction::SolveChallenges(
                self.plan.challenge,
            ),
            IssuanceStep::Finalize => match self.flow {
                Flow::OwnKey { .. } => action is FinalizeWithNewKey,
                Flow::CallerCsr { der, .. } => action matches IssuanceAction::FinalizeWithCsr(bytes)
                    && bytes@ == der@,
            },
            IssuanceStep::FetchChain => action is FetchChain,
            IssuanceStep::Bundle => action == (IssuanceAction::Bundle {
                key_pem: self.material.key_pem,
                chain_pem: self.material.chain_pem,
            }),
            IssuanceStep::LookForKeyDirectory => action == IssuanceAction::LookForDirectory(
                key.directory->0,
            ),
            IssuanceStep::CreateKeyDirectory => action == IssuanceAction::CreateSecretDirectory(
                key.directory->0,
            ),
            IssuanceStep::LookForBundleDirectory => action == IssuanceAction::LookForDirectory(
                pkcs12.directory->0,
            ),
            IssuanceStep::CreateBundleDirectory => action == IssuanceAction::CreateSecretDirectory(
                pkcs12.directory->0,
            ),
            IssuanceStep::WriteKey => action == (IssuanceAction::WriteKey {
                path: key.path,
                contents: self.material.key_pem,
            }),
            IssuanceStep::LookForChainDirectory => action == IssuanceAction::LookForDirectory(
                chain.directory->0,
            ),
            IssuanceStep::CreateChainDirectory => action == IssuanceAction::CreateDirectory(
                chain.directory->0,
            ),
            IssuanceStep::WriteChain => action == (IssuanceAction::WriteChain {
                path: chain.path,
                contents: self.material.chain_pem,
            }),
            IssuanceStep::WriteBundle => action matches IssuanceAction::WriteBundle {
                path,
                der,
            } && path == pkcs12.path && der@ == self.material.pfx_der@,
            IssuanceStep::Finished => action == IssuanceAction::Finish(self.material.chain_pem),
            IssuanceStep::Failed(reason) => action == IssuanceAction::Fail(reason),
        }
    }

    /// The words that introduce the error of a failed action, if any.
    pub open spec fn context(self) -> Option<Seq<char>> {
        let key = self.flow->key;
        let pkcs12 = self.flow->pkcs12;
        let chain = self.flow.chain_target()->0;
        match self.step {
            IssuanceStep::CheckCsr => Some(
                "failed to check the supplied CSR against the ACME order"@,
            ),
            IssuanceStep::CreateKeyDirectory => Some(
                "failed to create key directory "@ + (key.directory->0)@,
            ),
            IssuanceStep::CreateBundleDirectory => Some(
                "failed to create PKCS#12 directory "@ + (pkcs12.directory->0)@,
            ),
            IssuanceStep::WriteKey => Some("failed to write key PEM "@ + key.path@),
            IssuanceStep::CreateChainDirectory => Some(
                "failed to create cert directory "@ + (chain.directory->0)@,
            ),
            IssuanceStep::WriteChain => Some("failed to write cert PEM "@ + chain.path@),
            IssuanceStep::WriteBundle => Some("failed to write PKCS#12 "@ + pkcs12.path@),
            _ => None,
        }
    }

    /// The path for the key.
    fn key_path(&self) -> (r: String)
        requires
            self.flow is OwnKey,
        ensures
            r == (self.flow->key).path,
    {
        match &self.flow {
            Flow::OwnKey { key, .. } => key.path.clone(),
            Flow::CallerCsr { .. } => String::new(),
        }
    }

    /// The directory for the key.
    fn key_directory(&self) -> (r: String)
        requires
            self.flow is OwnKey,
            (self.flow->key).directory is Some,
        ensures
            r == (self.flow->key).directory->0,
    {
        match &self.flow {
            Flow::OwnKey { key, .. } => key.directory(),
            Flow::CallerCsr { .. } => String::new(),
        }
    }

    /// The path for the bundle.
    fn pkcs12_path(&self) -> (r: String)
        requires
            self.flow is OwnKey,
        ensures
            r == (self.flow->pkcs12).path,
    {
        match &self.flow {
            Flow::OwnKey { pkcs12, .. } => pkcs12.path.clone(),
            Flow::CallerCsr { .. } => String::new(),
        }
    }

    /// The directory for the bundle.
    fn pkcs12_directory(&self) -> (r: String)
        requires
            self.flow is OwnKey,
            (self.flow->pkcs12).directory is Some,
        ensures
            r == (self.flow->pkcs12).directory->0,
    {
        match &self.flow {
            Flow::OwnKey { pkcs12, .. } => pkcs12.directory(),
            Flow::CallerCsr { .. } => String::new(),
        }
    }

    /// The path for the chain.
    fn chain_path(&self) -> (r: String)
        requires
            self.flow.chain_target() is Some,
        ensures
            r == (self.flow.chain_target()->0).path,
    {
        match &self.flow {
            Flow::OwnKey { cert, .. } => cert.path.clone(),
            Flow::CallerCsr { chain: Some(target), .. } => target.path.clone(),
            Flow::CallerCsr { chain: None, .. } => String::new(),
        }
    }

    /// The directory for the chain.
    fn chain_directory(&self) -> (r: String)
        requires
            self.flow.chain_target() is Some,
            (self.flow.chain_target()->0).directory is Some,
        ensures
            r == (self.flow.chain_target()->0).directory->0,
    {
        match &self.flow {
            Flow::OwnKey { cert, .. } => cert.directory(),
            Flow::CallerCsr { chain: Some(target), .. } => target.directory(),
            Flow::CallerCsr { chain: None, .. } => String::new(),
        }
    }

    /// The next thing to do.
    pub fn action(&self) -> (r: IssuanceAction)
        requires
            self.wf(),
        ensures
            self.asks(r),
    {
        match &self.step {
            IssuanceStep::BuildAccount => IssuanceAction::BuildAccount {
                directory_url: self.plan.directory_url.clone(),
                credential_path: self.plan.account_credential_path.clone(),
            },
            IssuanceStep::CreateOrder => IssuanceAction::CreateOrder {
                identifiers: duplicates(&self.plan.identifiers),
                profile: self.plan.profile.clone(),
            },
            IssuanceStep::CheckCsr => IssuanceAction::FetchIdentifiers,
            IssuanceStep::SolveChallenges => {
                IssuanceAction::SolveChallenges(self.plan.challenge.duplicate())
            },
            IssuanceStep::Finalize => match &self.flow {
                Flow::OwnKey { .. } => IssuanceAction::FinalizeWithNewKey,
                Flow::CallerCsr { der, .. } => IssuanceAction::FinalizeWithCsr(der.clone()),
            },
            IssuanceStep::FetchChain => IssuanceAction::FetchChain,
            IssuanceStep::Bundle => IssuanceAction::Bundle {
                key_pem: self.material.key_pem.clone(),
                chain_pem: self.material.chain_pem.clone(),
            },
            IssuanceStep::LookForKeyDirectory => {
                IssuanceAction::LookForDirectory(self.key_directory())
            },
            IssuanceStep::CreateKeyDirectory => {
                IssuanceAction::CreateSecretDirectory(self.key_directory())
            },
            IssuanceStep::LookForBundleDirectory => {
                IssuanceAction::LookForDirectory(self.pkcs12_directory())
            },
            IssuanceStep::CreateBundleDirectory => {
                IssuanceAction::CreateSecretDirectory(self.pkcs12_directory())
            },
            IssuanceStep::WriteKey => IssuanceAction::WriteKey {
                path: self.key_path(),
                contents: self.material.key_pem.clone(),
            },
            IssuanceStep::LookForChainDirectory => {
                IssuanceAction::LookForDirectory(self.chain_directory())
            },
            IssuanceStep::CreateChainDirectory => {
                IssuanceAction::CreateDirectory(self.chain_directory())
            },
            IssuanceStep::WriteChain => IssuanceAction::WriteChain {
                path: self.chain_path(),
                contents: self.material.chain_pem.clone(),
            },
            IssuanceStep::WriteBundle => IssuanceAction::WriteBundle {
                path: self.pkcs12_path(),
                der: self.material.pfx_der.clone(),
            },
            IssuanceStep::Finished => IssuanceAction::Finish(self.material.chain_pem.clone()),
            IssuanceStep::Failed(reason) => IssuanceAction::Fail(
                match reason {
                    Some(e) => Some(e.duplicate()),
                    None => None,
                },
            ),
        }
    }

    /// The words that introduce the error of the action, should it fail.
    pub fn failure_context(&self) -> (r: Option<String>)
        requires
            self.wf(),
        ensures
            match self.context() {
                Some(words) => r matches Some(w) && w@ == words,
                None => r is None,
            },
    {
        match &self.step {
            IssuanceStep::CheckCsr => {
                Some("failed to check the supplied CSR against the ACME order".to_owned())
            },
            IssuanceStep::CreateKeyDirectory => {
                let dir = self.key_directory();
                Some(text::concat2("failed to create key directory ", dir.as_str()))
            },
            IssuanceStep::CreateBundleDirectory => {
                let dir = self.pkcs12_directory();
                Some(text::concat2("failed to create PKCS#12 directory ", dir.as_str()))
            },
            IssuanceStep::WriteKey => {
                let path = self.key_path();
                Some(text::concat2("failed to write key PEM ", path.as_str()))
            },
            IssuanceStep::CreateChainDirectory => {
                let dir = self.chain_directory();
                Some(text::concat2("failed to create cert directory ", dir.as_str()))
            },
            IssuanceStep::WriteChain => {
                let path = self.chain_path();
                Some(text::concat2("failed to write cert PEM ", path.as_str()))
            },
            IssuanceStep::WriteBundle => {
                let path = self.pkcs12_path();
                Some(text::concat2("failed to write PKCS#12 ", path.as_str()))
            },
            _ => None,
        }
    }

    /// The step after the bundle was made.
    fn after_bundle(&self) -> (r: IssuanceStep)
        requires
            self.flow is OwnKey,
        ensures
            r == self.bundled(),
    {
        match &self.flow {
            Flow::OwnKey { key, .. } if key.has_directory() => IssuanceStep::LookForKeyDirectory,
            _ => self.after_key_directory(),
        }
    }

    /// The step after the directory of the key is there.
    fn after_key_directory(&self) -> (r: IssuanceStep)
        requires
            self.flow is OwnKey,
        ensures
            r == self.key_directory_settled(),
    {
        match &self.flow {
            Flow::OwnKey { pkcs12, .. } if pkcs12.has_directory() => {
                IssuanceStep::LookForBundleDirectory
            },
            _ => IssuanceStep::WriteKey,
        }
    }

    /// The step that begins the writing of the chain.
    fn before_chain(&self) -> (r: IssuanceStep)
        requires
            self.flow.chain_target() is Some,
        ensures
            r == self.chain_due(),
    {
        let named = match &self.flow {
            Flow::OwnKey { cert, .. } => cert.has_directory(),
            Flow::CallerCsr { chain: Some(target), .. } => target.has_directory(),
            Flow::CallerCsr { chain: None, .. } => false,
        };
        if named {
            IssuanceStep::LookForChainDirectory
        } else {
            IssuanceStep::WriteChain
        }
    }

    /// The step after the order's identifiers are known.
    fn after_check(&self, ids: &Vec<Identifier>) -> (r: IssuanceStep)
        ensures
            r == self.checked(identifier::views(ids@)),
    {
        let check = match &self.flow {
            Flow::OwnKey { .. } => Ok(()),
            Flow::CallerCsr { request, .. } => check_parsed_csr(request, ids),
        };
        match check {
            Ok(()) => if self.pending {
                IssuanceStep::SolveChallenges
            } else {
                IssuanceStep::Finalize
            },
            Err(e) => IssuanceStep::Failed(Some(e)),
        }
    }

    /// The step after the order was created.
    fn after_order(&self, pending: bool) -> (r: IssuanceStep)
        ensures
            r == self.ordered(pending),
    {
        match &self.flow {
            Flow::OwnKey { .. } => if pending {
                IssuanceStep::SolveChallenges
            } else {
                IssuanceStep::Finalize
            },
            Flow::CallerCsr { .. } => IssuanceStep::CheckCsr,
        }
    }

    /// The step after the chain was fetched.
    fn after_chain(&self) -> (r: IssuanceStep)
        ensures
            r == self.fetched(),
    {
        match &self.flow {
            Flow::OwnKey { .. } => IssuanceStep::Bundle,
            Flow::CallerCsr { chain: Some(_), .. } => self.before_chain(),
            Flow::CallerCsr { chain: None, .. } => IssuanceStep::Finished,
        }
    }

    /// The same failure once more, if this is one.
    fn ended(&self) -> (r: IssuanceStep)
        requires
            self.step is Finished || self.step is Failed,
        ensures
            r == self.step,
    {
        match &self.step {
            IssuanceStep::Failed(Some(e)) => IssuanceStep::Failed(Some(e.duplicate())),
            IssuanceStep::Failed(None) => IssuanceStep::Failed(None),
            _ => IssuanceStep::Finished,
        }
    }

    /// Take in what came of the last action.
    pub fn step(self, event: IssuanceEvent) -> (r: Issuance)
        requires
            self.wf(),
        ensures
            r == self.after_event(event),
            r.wf(),
    {
        let mut now = self;
        let next = now.take_in(event);
        now.step = next;
        now
    }

    /// Take in what `event` brings. Returns the next step.
    fn take_in(&mut self, event: IssuanceEvent) -> (r: IssuanceStep)
        requires
            old(self).wf(),
        ensures
            r == old(self).next(event),
            *final(self) == (Issuance {
                material: old(self).next_material(event),
                pending: old(self).next_pending(event),
                ..*old(self)
            }),
    {
        match (&self.step, event) {
            (IssuanceStep::Finished, _) => self.ended(),
            (IssuanceStep::Failed(_), _) => self.ended(),
            (IssuanceStep::BuildAccount, IssuanceEvent::Done) => IssuanceStep::CreateOrder,
            (IssuanceStep::CreateOrder, IssuanceEvent::OrderCreated(status)) => {
                self.pending = status == OrderStatus::Pending;
                self.after_order(self.pending)
            },
            (IssuanceStep::CheckCsr, IssuanceEvent::OrderIdentifiers(ids)) => self.after_check(&ids),
            (IssuanceStep::SolveChallenges, IssuanceEvent::Done) => IssuanceStep::Finalize,
            (IssuanceStep::Finalize, IssuanceEvent::FinalizedWithKey(key_pem)) => {
                self.material.key_pem = key_pem;
                match &self.flow {
                    Flow::OwnKey { .. } => IssuanceStep::FetchChain,
                    Flow::CallerCsr { .. } => IssuanceStep::Failed(None),
                }
            },
            (IssuanceStep::Finalize, IssuanceEvent::Done) => match &self.flow {
                Flow::OwnKey { .. } => IssuanceStep::Failed(None),
                Flow::CallerCsr { .. } => IssuanceStep::FetchChain,
            },
            (IssuanceStep::FetchChain, IssuanceEvent::ChainFetched(chain_pem)) => {
                self.material.chain_pem = chain_pem;
                self.after_chain()
            },
            (IssuanceStep::Bundle, IssuanceEvent::Bundled(pfx_der)) => {
                self.material.pfx_der = pfx_der;
                self.after_bundle()
            },
            (IssuanceStep::LookForKeyDirectory, IssuanceEvent::DirectoryExists(exists)) => {
                if exists {
                    self.after_key_directory()
                } else {
                    IssuanceStep::CreateKeyDirectory
                }
            },
            (IssuanceStep::CreateKeyDirectory, IssuanceEvent::Done) => self.after_key_directory(),
            (IssuanceStep::LookForBundleDirectory, IssuanceEvent::DirectoryExists(exists)) => {
                if exists {
                    IssuanceStep::WriteKey
                } else {
                    IssuanceStep::CreateBundleDirectory
                }
            },
            (IssuanceStep::CreateBundleDirectory, IssuanceEvent::Done) => IssuanceStep::WriteKey,
            (IssuanceStep::WriteKey, IssuanceEvent::Done) => self.before_chain(),
            (IssuanceStep::LookForChainDirectory, IssuanceEvent::DirectoryExists(exists)) => {
                if exists {
                    IssuanceStep::WriteChain
                } else {
                    IssuanceStep::CreateChainDirectory
                }
            },
            (IssuanceStep::CreateChainDirectory, IssuanceEvent::Done) => IssuanceStep::WriteChain,
            (IssuanceStep::WriteChain, IssuanceEvent::Done) => match &self.flow {
                Flow::OwnKey { .. } => IssuanceStep::WriteBundle,
                Flow::CallerCsr { .. } => IssuanceStep::Finished,
            },
            (IssuanceStep::WriteBundle, IssuanceEvent::Done) => IssuanceStep::Finished,
            _ => IssuanceStep::Failed(None),
        }
    }
}

impl Material {
    /// Nothing yet.
    fn none() -> (r: Material)
        ensures
            r.key_pem@.len() == 0,
            r.chain_pem@.len() == 0,
            r.pfx_der@.len() == 0,
    {
        Material { key_pem: String::new(), chain_pem: String::new(), pfx_der: Vec::new() }
    }
}

impl Issuance {
    /// Start an issuance.
    pub fn new(plan: OrderPlan, flow: Flow) -> (r: Issuance)
        ensures
            r.plan == plan,
            r.flow == flow,
            is_fresh(r),
            r.wf(),
    {
        Issuance {
            plan,
            flow,
            material: Material::none(),
            pending: false,
            step: IssuanceStep::BuildAccount,
        }
    }
}

/// Whether `issuance` is about to start.
pub open spec fn is_fresh(issuance: Issuance) -> bool {
    &&& issuance.step is BuildAccount
    &&& !issuance.pending
    &&& issuance.material.key_pem@.len() == 0
    &&& issuance.material.chain_pem@.len() == 0
    &&& issuance.material.pfx_der@.len() == 0
}

/// Whether `r` is the plan for issuing a certificate for a new key.
pub open spec fn planned(config: AcmeConfig, r: Result<Option<Issuance>, AcmeError>) -> bool {
    if config.hosts@.len() == 0 {
        r matches Ok(None)
    } else if !acme::challenge_config_works(config.challenge) {
        r matches Err(AcmeError::CloudflareNotConfigured)
    } else {
        r matches Ok(Some(issuance)) && identifier::views(issuance.plan.identifiers@)
            == identifier::verbatim_dns(config.hosts@) && issuance.plan.profile
            == config.profile && issuance.plan.challenge == config.challenge
            && issuance.plan.directory_url == config.directory_url
            && issuance.plan.account_credential_path == config.account_credential_path
            && is_fresh(issuance) && issuance.flow.valid() && (
        issuance.flow matches Flow::OwnKey { cert, key, pkcs12 } && cert.path
            == config.cert_path && key.path == config.key_path && pkcs12.path
            == config.pkcs12_path)
    }
}

/// Plan the issuance of a certificate for a new key. There is nothing to do where no
/// hosts are configured, and nothing is done with a challenge that cannot work.
///
/// The hosts are ordered as DNS names, as they are written.
pub fn plan_issuance(config: &AcmeConfig) -> (r: Result<Option<Issuance>, AcmeError>)
    ensures
        planned(*config, r),
{
    if config.hosts.len() == 0 {
        return Ok(None);
    }
    check_challenge_config(&config.challenge)?;
    let flow = Flow::OwnKey {
        cert: Target::new(config.cert_path.clone()),
        key: Target::new(config.key_path.clone()),
        pkcs12: Target::new(config.pkcs12_path.clone()),
    };
    let plan = OrderPlan {
        identifiers: dns_identifiers(&config.hosts),
        profile: config.profile.clone(),
        challenge: config.challenge.duplicate(),
        directory_url: config.directory_url.clone(),
        account_credential_path: config.account_credential_path.clone(),
    };
    Ok(Some(Issuance::new(plan, flow)))
}

/// The identifiers to order for a CSR: those of the hosts, or where there are none
/// those that the CSR asks for.
pub open spec fn csr_order(
    hosts: Seq<String>,
    parsed: Result<csr::CertificationRequestView, Seq<char>>,
    r: Result<Seq<IdentifierView>, CsrError>,
) -> bool {
    if hosts.len() > 0 {
        r == Ok::<Seq<IdentifierView>, CsrError>(
            identifier::distinct(identifier::host_identifiers(hosts)),
        )
    } else {
        match parsed {
            Ok(request) => r == csr::request_identifiers(request),
            Err(reason) => r matches Err(CsrError::Malformed(text)) && text@ == reason,
        }
    }
}

/// Whether `r` is the plan for issuing a certificate for a CSR of the caller, where `file` is
/// what the file that the CSR's source names holds, if that could be read.
pub open spec fn planned_with_csr(
    config: AcmeCsrConfig,
    file: Option<Vec<u8>>,
    r: Result<Issuance, AcmeError>,
) -> bool {
    if !acme::challenge_config_works(config.challenge) {
        r matches Err(AcmeError::CloudflareNotConfigured)
    } else {
        match csr::source_der(config.csr, file) {
            None => r == Err::<Issuance, AcmeError>(
                AcmeError::Csr(csr::source_error(config.csr)),
            ),
            Some(der) => match r {
                Err(AcmeError::Csr(e)) => csr_order(
                    config.hosts@,
                    csr::parsed_csr(der),
                    Err(e),
                ),
                Err(_) => false,
                Ok(issuance) => {
                    &&& csr_order(
                        config.hosts@,
                        csr::parsed_csr(der),
                        Ok(identifier::views(issuance.plan.identifiers@)),
                    )
                    &&& issuance.plan.profile == config.profile
                    &&& issuance.plan.challenge == config.challenge
                    &&& issuance.plan.directory_url == config.directory_url
                    &&& issuance.plan.account_credential_path == config.account_credential_path
                    &&& is_fresh(issuance)
                    &&& issuance.flow.valid()
                    &&& issuance.flow matches Flow::CallerCsr {
                        der: bytes,
                        request,
                        chain,
                    } && bytes@ == der && csr::parse_view(request) == csr::parsed_csr(der)
                        && match config.cert_path {
                        Some(path) => chain matches Some(target) && target.path == path,
                        None => chain is None,
                    }
                },
            },
        }
    }
}

/// Plan the issuance of a certificate for a CSR of the caller. `file` is what the file
/// that the CSR's source names holds, or `None` where it could not be read.
///
/// The CSR decides what the certificate is for: with no hosts, the order is built from
/// the CSR's own names and can never disagree with it. Check them against what the
/// requester is entitled to before calling this.
pub fn plan_issuance_with_csr(config: &AcmeCsrConfig, file: &Option<Vec<u8>>) -> (r: Result<
    Issuance,
    AcmeError,
>)
    ensures
        planned_with_csr(*config, *file, r),
{
    // Before an order exists to be spent on it: a challenge that cannot work fails the
    // same way on every retry, taking an order with it each time.
    check_challenge_config(&config.challenge)?;
    let der = match config.csr.load(file) {
        Ok(der) => der,
        Err(e) => return Err(AcmeError::Csr(e)),
    };
    let request = parse_csr(&der);
    let identifiers = if config.hosts.len() == 0 {
        match identifiers_of_parsed_csr(&request) {
            Ok(identifiers) => identifiers,
            Err(e) => return Err(AcmeError::Csr(e)),
        }
    } else {
        identifiers_from_hosts(&config.hosts)
    };
    let chain = match &config.cert_path {
        Some(path) => Some(Target::new(path.clone())),
        None => None,
    };
    let flow = Flow::CallerCsr { der, request, chain };
    let plan = OrderPlan {
        identifiers,
        profile: config.profile.clone(),
        challenge: config.challenge.duplicate(),
        directory_url: config.directory_url.clone(),
        account_credential_path: config.account_credential_path.clone(),
    };
    Ok(Issuance::new(plan, flow))
}

/// The state after `events`, from `start`.
pub open spec fn after(start: Issuance, events: Seq<IssuanceEvent>) -> Issuance
    decreases events.len(),
{
    if events.len() == 0 {
        start
    } else {
        after(start, events.drop_last()).after_event(events.last())
    }
}

/// What an issuance accomplishes.
pub enum Milestone {
    AccountBuilt,
    OrderCreated,
    CsrChecked,
    ChallengesSolved,
    OrderFinalized,
    ChainFetched,
    BundleMade,
    KeyWritten,
    ChainWritten,
    BundleWritten,
}

/// What is accomplished when a step is done.
pub open spec fn milestone(step: IssuanceStep) -> Option<Milestone> {
    match step {
        IssuanceStep::BuildAccount => Some(Milestone::AccountBuilt),
        IssuanceStep::CreateOrder => Some(Milestone::OrderCreated),
        IssuanceStep::CheckCsr => Some(Milestone::CsrChecked),
        IssuanceStep::SolveChallenges => Some(Milestone::ChallengesSolved),
        IssuanceStep::Finalize => Some(Milestone::OrderFinalized),
        IssuanceStep::FetchChain => Some(Milestone::ChainFetched),
        IssuanceStep::Bundle => Some(Milestone::BundleMade),
        IssuanceStep::WriteKey => Some(Milestone::KeyWritten),
        IssuanceStep::WriteChain => Some(Milestone::ChainWritten),
        IssuanceStep::WriteBundle => Some(Milestone::BundleWritten),
        _ => None,
    }
}

/// What was accomplished in the course of `events`, in order.
pub open spec fn accomplished(start: Issuance, events: Seq<IssuanceEvent>) -> Seq<Milestone>
    decreases events.len(),
{
    if events.len() == 0 {
        Seq::empty()
    } else {
        let before = events.drop_last();
        let front = accomplished(start, before);
        match milestone(after(start, before).step) {
            Some(m) if !(after(start, events).step is Failed) => front.push(m),
            _ => front,
        }
    }
}

/// What has to be accomplished before the order is finalized.
pub open spec fn before_finalizing(flow: Flow, pending: bool) -> Seq<Milestone> {
    seq![Milestone::AccountBuilt, Milestone::OrderCreated] + (if flow is CallerCsr {
        seq![Milestone::CsrChecked]
    } else {
        seq![]
    }) + (if pending {
        seq![Milestone::ChallengesSolved]
    } else {
        seq![]
    })
}

/// What has to be accomplished before anything is written.
pub open spec fn before_writing(flow: Flow, pending: bool) -> Seq<Milestone> {
    before_finalizing(flow, pending) + seq![Milestone::OrderFinalized, Milestone::ChainFetched] + (
    if flow is OwnKey {
        seq![Milestone::BundleMade]
    } else {
        seq![]
    })
}

/// What has to be accomplished before an issuance gets to `step`.
pub open spec fn accomplished_before(
    flow: Flow,
    pending: bool,
    step: IssuanceStep,
) -> Seq<Milestone> {
    match step {
        IssuanceStep::BuildAccount => seq![],
        IssuanceStep::CreateOrder => seq![Milestone::AccountBuilt],
        IssuanceStep::CheckCsr => seq![Milestone::AccountBuilt, Milestone::OrderCreated],
        IssuanceStep::SolveChallenges => before_finalizing(flow, false),
        IssuanceStep::Finalize => before_finalizing(flow, pending),
        IssuanceStep::FetchChain => before_finalizing(flow, pending).push(
            Milestone::OrderFinalized,
        ),
        IssuanceStep::Bundle => before_finalizing(flow, pending) + seq![
            Milestone::OrderFinalized,
            Milestone::ChainFetched,
        ],
        IssuanceStep::LookForKeyDirectory => before_writing(flow, pending),
        IssuanceStep::CreateKeyDirectory => before_writing(flow, pending),
        IssuanceStep::LookForBundleDirectory => before_writing(flow, pending),
        IssuanceStep::CreateBundleDirectory => before_writing(flow, pending),
        IssuanceStep::WriteKey => before_writing(flow, pending),
        IssuanceStep::LookForChainDirectory => before_chain(flow, pending),
        IssuanceStep::CreateChainDirectory => before_chain(flow, pending),
        IssuanceStep::WriteChain => before_chain(flow, pending),
        IssuanceStep::WriteBundle => before_chain(flow, pending).push(Milestone::ChainWritten),
        IssuanceStep::Finished => whole_course(flow, pending),
        IssuanceStep::Failed(_) => seq![],
    }
}

/// What has to be accomplished before the chain is written.
pub open spec fn before_chain(flow: Flow, pending: bool) -> Seq<Milestone> {
    before_writing(flow, pending) + (if flow is OwnKey {
        seq![Milestone::KeyWritten]
    } else {
        seq![]
    })
}

/// All that an issuance accomplishes.
pub open spec fn whole_course(flow: Flow, pending: bool) -> Seq<Milestone> {
    match flow {
        Flow::OwnKey { .. } => before_chain(flow, pending) + seq![
            Milestone::ChainWritten,
            Milestone::BundleWritten,
        ],
        Flow::CallerCsr { chain: Some(_), .. } => before_chain(flow, pending).push(
            Milestone::ChainWritten,
        ),
        Flow::CallerCsr { chain: None, .. } => before_chain(flow, pending),
    }
}

/// As long as nothing fails, what was accomplished is what the step presupposes, in
/// this order: a CSR is checked before any challenge is answered, challenges are
/// answered before the order is finalized, and nothing is written before there is a
/// chain to go with it.
pub proof fn course_of_issuance(start: Issuance, events: Seq<IssuanceEvent>)
    requires
        is_fresh(start),
    ensures
        after(start, events).wf(),
        !(after(start, events).step is Failed) ==> accomplished(start, events) == accomplished_before(
            start.flow,
            after(start, events).pending,
            after(start, events).step,
        ),
    decreases events.len(),
{
    lemma_wf(start, events);
    plan_never_changes(start, events);
    if events.len() > 0 {
        plan_never_changes(start, events.drop_last());
        course_of_issuance(start, events.drop_last());
        lemma_wf(start, events.drop_last());
        lemma_pending(start, events.drop_last());
        if !(after(start, events).step is Failed) {
            lemma_course_step(after(start, events.drop_last()), events.last());
        }
    } else {
        assert(accomplished(start, events) =~= seq![]);
    }
}

/// What is ordered, and for whom, stays as it was planned.
pub proof fn plan_never_changes(start: Issuance, events: Seq<IssuanceEvent>)
    ensures
        after(start, events).plan == start.plan,
        after(start, events).flow == start.flow,
    decreases events.len(),
{
    if events.len() > 0 {
        plan_never_changes(start, events.drop_last());
    }
}

/// The chain that is written and handed out is the one that was fetched.
pub proof fn issued_chain_is_the_fetched_one(start: Issuance, events: Seq<IssuanceEvent>)
    requires
        is_fresh(start),
        rank(after(start, events).step) > rank(IssuanceStep::FetchChain),
        !(after(start, events).step is Failed),
    ensures
        exists|i: int|
            0 <= i < events.len() && after(start, events.take(i)).step is FetchChain
                && #[trigger] events[i] == IssuanceEvent::ChainFetched(
                after(start, events).material.chain_pem,
            ),
    decreases events.len(),
{
    if events.len() > 0 {
        let before = events.drop_last();
        if after(start, before).step is FetchChain {
            let i = events.len() - 1;
            assert(events[i] == events.last());
            assert(events.take(i) =~= before);
        } else {
            issued_chain_is_the_fetched_one(start, before);
            let i = choose|i: int|
                0 <= i < before.len() && after(start, before.take(i)).step is FetchChain
                    && #[trigger] before[i] == IssuanceEvent::ChainFetched(
                    after(start, before).material.chain_pem,
                );
            assert(events[i] == before[i]);
            assert(events.take(i) =~= before.take(i));
        }
    }
}

/// The key that is bundled and written is the one that the order was finalized with.
pub proof fn issued_key_is_the_finalized_one(start: Issuance, events: Seq<IssuanceEvent>)
    requires
        is_fresh(start),
        start.flow is OwnKey,
        rank(after(start, events).step) > rank(IssuanceStep::Finalize),
        !(after(start, events).step is Failed),
    ensures
        exists|i: int|
            0 <= i < events.len() && after(start, events.take(i)).step is Finalize
                && #[trigger] events[i] == IssuanceEvent::FinalizedWithKey(
                after(start, events).material.key_pem,
            ),
    decreases events.len(),
{
    plan_never_changes(start, events);
    if events.len() > 0 {
        let before = events.drop_last();
        plan_never_changes(start, before);
        if after(start, before).step is Finalize {
            let i = events.len() - 1;
            assert(events[i] == events.last());
            assert(events.take(i) =~= before);
        } else {
            issued_key_is_the_finalized_one(start, before);
            let i = choose|i: int|
                0 <= i < before.len() && after(start, before.take(i)).step is Finalize
                    && #[trigger] before[i] == IssuanceEvent::FinalizedWithKey(
                    after(start, before).material.key_pem,
                );
            assert(events[i] == before[i]);
            assert(events.take(i) =~= before.take(i));
        }
    }
}

/// The bundle that is written is the one that was made.
pub proof fn written_bundle_is_the_made_one(start: Issuance, events: Seq<IssuanceEvent>)
    requires
        is_fresh(start),
        start.flow is OwnKey,
        rank(after(start, events).step) > rank(IssuanceStep::Bundle),
        !(after(start, events).step is Failed),
    ensures
        exists|i: int|
            0 <= i < events.len() && after(start, events.take(i)).step is Bundle
                && #[trigger] events[i] == IssuanceEvent::Bundled(
                after(start, events).material.pfx_der,
            ),
    decreases events.len(),
{
    plan_never_changes(start, events);
    if events.len() > 0 {
        let before = events.drop_last();
        plan_never_changes(start, before);
        if after(start, before).step is Bundle {
            let i = events.len() - 1;
            assert(events[i] == events.last());
            assert(events.take(i) =~= before);
        } else {
            lemma_wf(start, before);
            written_bundle_is_the_made_one(start, before);
            let i = choose|i: int|
                0 <= i < before.len() && after(start, before.take(i)).step is Bundle
                    && #[trigger] before[i] == IssuanceEvent::Bundled(
                    after(start, before).material.pfx_der,
                );
            assert(events[i] == before[i]);
            assert(events.take(i) =~= before.take(i));
        }
    }
}

/// The steps that need a file or a directory have one.
proof fn lemma_wf(start: Issuance, events: Seq<IssuanceEvent>)
    requires
        is_fresh(start),
    ensures
        after(start, events).wf(),
    decreases events.len(),
{
    if events.len() > 0 {
        lemma_wf(start, events.drop_last());
    }
}

/// What the next step presupposes is what this one does, with what it accomplishes.
proof fn lemma_course_step(now: Issuance, event: IssuanceEvent)
    requires
        now.wf(),
        now.step is SolveChallenges ==> now.pending,
        now.step is BuildAccount || now.step is CreateOrder ==> !now.pending,
        !(now.next(event) is Failed),
    ensures
        ({
            let front = accomplished_before(now.flow, now.pending, now.step);
            let end = accomplished_before(now.flow, now.next_pending(event), now.next(event));
            match milestone(now.step) {
                Some(m) => end == front.push(m),
                None => end == front,
            }
        }),
{
    let front = accomplished_before(now.flow, now.pending, now.step);
    let end = accomplished_before(now.flow, now.next_pending(event), now.next(event));
    match milestone(now.step) {
        Some(m) => {
            assert(end =~= front.push(m));
        },
        None => {
            assert(end =~= front);
        },
    }
}

/// Challenges are answered only where the order is pending, which it is not known to be
/// before it is created.
proof fn lemma_pending(start: Issuance, events: Seq<IssuanceEvent>)
    requires
        is_fresh(start),
    ensures
        ({
            let now = after(start, events);
            &&& now.step is SolveChallenges ==> now.pending
            &&& now.step is BuildAccount || now.step is CreateOrder ==> !now.pending
            &&& now.step is BuildAccount ==> events.len() == 0
        }),
    decreases events.len(),
{
    if events.len() > 0 {
        lemma_pending(start, events.drop_last());
    }
}

/// Whether `ids` are what the order of a CSR may name.
pub open spec fn matches_csr(flow: Flow, ids: Seq<IdentifierView>) -> bool {
    flow matches Flow::CallerCsr { request, .. } && csr::parsed_check(request, ids) == Ok::<
        (),
        CsrError,
    >(())
}

/// No challenge is answered and no order is spent for a CSR that asks for anything else
/// than the order names.
pub proof fn order_is_spent_on_a_matching_csr_only(start: Issuance, events: Seq<IssuanceEvent>)
    requires
        is_fresh(start),
        start.flow is CallerCsr,
        !(after(start, events).step is BuildAccount || after(start, events).step is CreateOrder
            || after(start, events).step is CheckCsr || after(start, events).step is Failed),
    ensures
        exists|i: int|
            0 <= i < events.len() && after(start, events.take(i)).step is CheckCsr && (
            #[trigger] events[i] matches IssuanceEvent::OrderIdentifiers(ids) && matches_csr(
                start.flow,
                identifier::views(ids@),
            )),
    decreases events.len(),
{
    if events.len() > 0 {
        let before = events.drop_last();
        plan_never_changes(start, before);
        if after(start, before).step is CheckCsr {
            let i = events.len() - 1;
            assert(events[i] == events.last());
            assert(events.take(i) =~= before);
        } else {
            course_of_issuance(start, before);
            order_is_spent_on_a_matching_csr_only(start, before);
            let i = choose|i: int|
                0 <= i < before.len() && after(start, before.take(i)).step is CheckCsr && (
                #[trigger] before[i] matches IssuanceEvent::OrderIdentifiers(ids) && matches_csr(
                    start.flow,
                    identifier::views(ids@),
                ));
            assert(events[i] == before[i]);
            assert(events.take(i) =~= before.take(i));
        }
    }
}

/// Once an issuance has failed or succeeded, it asks for nothing more.
pub proof fn ended_issuance_stays_ended(issuance: Issuance, event: IssuanceEvent)
    requires
        issuance.step is Failed || issuance.step is Finished,
    ensures
        issuance.next(event) == issuance.step,
        issuance.after_event(event) == issuance,
{
}

/// How far a step is along the course.
pub open spec fn rank(step: IssuanceStep) -> nat {
    match step {
        IssuanceStep::BuildAccount => 0,
        IssuanceStep::CreateOrder => 1,
        IssuanceStep::CheckCsr => 2,
        IssuanceStep::SolveChallenges => 3,
        IssuanceStep::Finalize => 4,
        IssuanceStep::FetchChain => 5,
        IssuanceStep::Bundle => 6,
        IssuanceStep::LookForKeyDirectory => 7,
        IssuanceStep::CreateKeyDirectory => 8,
        IssuanceStep::LookForBundleDirectory => 9,
        IssuanceStep::CreateBundleDirectory => 10,
        IssuanceStep::WriteKey => 11,
        IssuanceStep::LookForChainDirectory => 12,
        IssuanceStep::CreateChainDirectory => 13,
        IssuanceStep::WriteChain => 14,
        IssuanceStep::WriteBundle => 15,
        IssuanceStep::Finished => 16,
        IssuanceStep::Failed(_) => 16,
    }
}

/// An issuance comes to an end: no step is taken twice, and each event leads to a later
/// one.
pub proof fn issuance_ends(start: Issuance, events: Seq<IssuanceEvent>)
    requires
        is_fresh(start),
    ensures
        rank(after(start, events).step) >= events.len() || rank(after(start, events).step) == 16,
        events.len() >= 16 ==> after(start, events).step is Finished || after(start, events).step
            is Failed,
    decreases events.len(),
{
    if events.len() > 0 {
        issuance_ends(start, events.drop_last());
    }
}

} // verus!
