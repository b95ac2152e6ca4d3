//! What the two kinds of challenges have in common.
use crate::acme;
use crate::acme::dns01::{Dns01, Dns01State};
use crate::acme::http01::Http01;
use crate::acme::{
    check_challenge_config, AcmeChallengeType, AcmeError, AuthorizationStatus, OrderStatus,
};
use crate::text;
use vstd::prelude::*;
use vstd::string::*;

verus! {

/// The kind of challenge that is answered.
#[derive(Clone, Copy, Debug, PartialEq, Eq, Structural)]
pub enum ChallengeKind {
    Dns01,
    Http01,
}

impl ChallengeKind {
    /// The name of the kind.
    pub open spec fn text(self) -> Seq<char> {
        match self {
            ChallengeKind::Dns01 => "dns-01"@,
            ChallengeKind::Http01 => "http-01"@,
        }
    }

    /// The name of the kind.
    pub fn name(self) -> (r: String)
        ensures
            r@ == self.text(),
    {
        match self {
            ChallengeKind::Dns01 => "dns-01".to_owned(),
            ChallengeKind::Http01 => "http-01".to_owned(),
        }
    }
}

/// Why the challenges of an order could not be answered.
#[derive(Clone, Copy, Debug, PartialEq, Eq, Structural)]
pub enum ChallengeFailure {
    /// An authorization is neither pending nor valid.
    UnsupportedAuthorization(AuthorizationStatus),
    /// An authorization offers no challenge of the configured kind.
    ChallengeNotFound(ChallengeKind),
    /// A DNS-01 challenge is not for a DNS name.
    NotADnsName,
    /// Cloudflare did not create the TXT record.
    RecordRefused,
    /// The name servers did not serve the TXT record in time.
    NotPropagated,
    /// The order is not ready after the challenges.
    UnexpectedOrder(ChallengeKind, OrderStatus),
    /// The last action failed: its error is the reason.
    Outside,
}

impl ChallengeFailure {
    /// The message for people, where `identifier` is what the challenge is for.
    pub open spec fn text(self, identifier: Seq<char>) -> Seq<char> {
        match self {
            ChallengeFailure::UnsupportedAuthorization(status) => {
                "unsupported authorization status: "@ + status.text()
            },
            ChallengeFailure::ChallengeNotFound(kind) => kind.text() + " challenge not found"@,
            ChallengeFailure::NotADnsName => {
                "unsupported non-DNS identifier type for dns-01 challenge"@
            },
            ChallengeFailure::RecordRefused => "failed to create Cloudflare TXT record"@,
            ChallengeFailure::NotPropagated => {
                "dns challenge did not propagate in time for "@ + identifier
            },
            ChallengeFailure::UnexpectedOrder(kind, status) => {
                "unexpected order status after "@ + kind.text() + " challenges: "@ + status.text()
            },
            ChallengeFailure::Outside => "failed to answer the challenges"@,
        }
    }

    /// The message for people, where `identifier` is what the challenge is for.
    pub fn message(self, identifier: &str) -> (r: String)
        ensures
            r@ == self.text(identifier@),
    {
        match self {
            ChallengeFailure::UnsupportedAuthorization(status) => {
                let name = status.name();
                text::concat2("unsupported authorization status: ", name.as_str())
            },
            ChallengeFailure::ChallengeNotFound(kind) => {
                let name = kind.name();
                text::concat2(name.as_str(), " challenge not found")
            },
            ChallengeFailure::NotADnsName => {
                "unsupported non-DNS identifier type for dns-01 challenge".to_owned()
            },
            ChallengeFailure::RecordRefused => "failed to create Cloudflare TXT record".to_owned(),
            ChallengeFailure::NotPropagated => {
                text::concat2("dns challenge did not propagate in time for ", identifier)
            },
            ChallengeFailure::UnexpectedOrder(kind, status) => {
                let kind_name = kind.name();
                let status_name = status.name();
                let front = text::concat3(
                    "unexpected order status after ",
                    kind_name.as_str(),
                    " challenges: ",
                );
                text::concat2(front.as_str(), status_name.as_str())
            },
            ChallengeFailure::Outside => "failed to answer the challenges".to_owned(),
        }
    }
}

/// The answering of the challenges of one order, with what it works with.
pub enum ChallengeRun {
    Dns01 { dns01: Dns01, cloudflare_api_token: String, cloudflare_zone_id: String },
    Http01 { http01: Http01, bind_addr: String },
}

/// Whether `r` is the start of answering challenges in the configured way.
pub open spec fn runs(challenge: AcmeChallengeType, r: Result<ChallengeRun, AcmeError>) -> bool {
    match challenge {
        AcmeChallengeType::Dns01 { cloudflare_api_token, cloudflare_zone_id } => {
            if acme::challenge_config_works(challenge) {
                r matches Ok(ChallengeRun::Dns01 {
                    dns01,
                    cloudflare_api_token: token,
                    cloudflare_zone_id: zone,
                }) && dns01@ == Dns01State::start() && dns01@.wf() && token == cloudflare_api_token
                    && zone == cloudflare_zone_id
            } else {
                r matches Err(AcmeError::CloudflareNotConfigured)
            }
        },
        AcmeChallengeType::Http01 { bind_addr } => r matches Ok(ChallengeRun::Http01 {
            http01,
            bind_addr: addr,
        }) && http01 is StartServer && addr == bind_addr,
    }
}

/// Start to answer the challenges of an order in the configured way, if that can work.
pub fn solve_challenges(challenge: &AcmeChallengeType) -> (r: Result<ChallengeRun, AcmeError>)
    ensures
        runs(*challenge, r),
{
    check_challenge_config(challenge)?;
    Ok(
        match challenge {
            AcmeChallengeType::Dns01 { cloudflare_api_token, cloudflare_zone_id } => {
                ChallengeRun::Dns01 {
                    dns01: Dns01::new(),
                    cloudflare_api_token: cloudflare_api_token.clone(),
                    cloudflare_zone_id: cloudflare_zone_id.clone(),
                }
            },
            AcmeChallengeType::Http01 { bind_addr } => ChallengeRun::Http01 {
                http01: Http01::new(),
                bind_addr: bind_addr.clone(),
            },
        },
    )
}

} // verus!
