//! ACME certificate issuance: what to ask for, in which order, and what to keep.
pub mod account;
pub mod bundle;
pub mod challenge;
pub mod credentials;
pub mod csr;
pub mod dns01;
pub mod expiry;
pub mod http01;
pub mod identifier;
pub mod issuance;
pub mod laws;
pub mod target;

use crate::acme::csr::CsrError;
pub use crate::acme::csr::{identifiers_from_csr, CsrSource};
pub use crate::acme::expiry::check_cert_expiry;
pub use crate::acme::identifier::{identifier, identifiers_from_hosts, push_unique, Identifier};
use vstd::prelude::*;
use vstd::string::*;

verus! {

/// Challenge method used for ACME domain validation.
#[derive(Clone, Debug, PartialEq, Eq)]
pub enum AcmeChallengeType {
    /// DNS-01 challenge via the Cloudflare API.
    Dns01 { cloudflare_api_token: String, cloudflare_zone_id: String },
    /// HTTP-01 challenge served by a temporary HTTP server.
    Http01 {
        /// Address and port on which to listen for the ACME HTTP-01 verification
        /// requests (e.g. `"0.0.0.0:80"`).
        bind_addr: String,
    },
}

impl AcmeChallengeType {
    /// The same configuration once more.
    pub fn duplicate(&self) -> (r: AcmeChallengeType)
        ensures
            r == *self,
    {
        match self {
            AcmeChallengeType::Dns01 { cloudflare_api_token, cloudflare_zone_id } => {
                AcmeChallengeType::Dns01 {
                    cloudflare_api_token: cloudflare_api_token.clone(),
                    cloudflare_zone_id: cloudflare_zone_id.clone(),
                }
            },
            AcmeChallengeType::Http01 { bind_addr } => AcmeChallengeType::Http01 {
                bind_addr: bind_addr.clone(),
            },
        }
    }
}

/// Configuration for issuing a certificate for a key pair generated on the way.
#[derive(Clone, Debug)]
pub struct AcmeConfig {
    pub hosts: Vec<String>,
    pub challenge: AcmeChallengeType,
    pub account_credential_path: Option<String>,
    pub directory_url: String,
    pub profile: Option<String>,
    pub cert_path: String,
    pub key_path: String,
    pub pkcs12_path: String,
}

/// Configuration for issuing a certificate against a caller-supplied CSR.
///
/// Unlike [`AcmeConfig`], nothing here names a key path: the ACME client never sees
/// the certificate's private key, so it can write neither a key PEM nor a PKCS#12
/// bundle. The issued chain is returned to the caller (and optionally written to
/// `cert_path`).
#[derive(Clone, Debug)]
pub struct AcmeCsrConfig {
    /// The CSR to be signed.
    pub csr: CsrSource,
    /// The identifiers to place in the order.
    ///
    /// When empty, they are derived from the CSR's subjectAltName extension, which is
    /// the usual case: the ACME server requires the order and the CSR to name the same
    /// identifiers, so restating them here only adds a way for the two to disagree. A
    /// mismatch is caught locally, before the order is spent.
    ///
    /// This is **not** an allow-list and cannot be used as one: naming a subset of the
    /// CSR's identifiers does not narrow what is issued, it gets the CSR rejected for
    /// asking for a name the order does not authorize.
    ///
    /// An entry that parses as an IP address becomes an IP identifier; anything else
    /// becomes a DNS identifier, lowercased. Duplicates are dropped.
    pub hosts: Vec<String>,
    pub challenge: AcmeChallengeType,
    pub account_credential_path: Option<String>,
    pub directory_url: String,
    pub profile: Option<String>,
    /// Where to write the issued certificate chain, if anywhere.
    ///
    /// The chain is public material, so it is written with the process umask.
    pub cert_path: Option<String>,
}

/// The status of an ACME order.
#[derive(Clone, Copy, Debug, PartialEq, Eq, Structural)]
pub enum OrderStatus {
    Pending,
    Ready,
    Processing,
    Valid,
    Invalid,
}

impl OrderStatus {
    /// The name of the status.
    pub open spec fn text(self) -> Seq<char> {
        match self {
            OrderStatus::Pending => "Pending"@,
            OrderStatus::Ready => "Ready"@,
            OrderStatus::Processing => "Processing"@,
            OrderStatus::Valid => "Valid"@,
            OrderStatus::Invalid => "Invalid"@,
        }
    }

    /// The name of the status.
    pub fn name(self) -> (r: String)
        ensures
            r@ == self.text(),
    {
        match self {
            OrderStatus::Pending => "Pending".to_owned(),
            OrderStatus::Ready => "Ready".to_owned(),
            OrderStatus::Processing => "Processing".to_owned(),
            OrderStatus::Valid => "Valid".to_owned(),
            OrderStatus::Invalid => "Invalid".to_owned(),
        }
    }
}

/// The status of an authorization of an ACME order.
#[derive(Clone, Copy, Debug, PartialEq, Eq, Structural)]
pub enum AuthorizationStatus {
    Pending,
    Valid,
    Invalid,
    Revoked,
    Expired,
    Deactivated,
}

impl AuthorizationStatus {
    /// The name of the status.
    pub open spec fn text(self) -> Seq<char> {
        match self {
            AuthorizationStatus::Pending => "Pending"@,
            AuthorizationStatus::Valid => "Valid"@,
            AuthorizationStatus::Invalid => "Invalid"@,
            AuthorizationStatus::Revoked => "Revoked"@,
            AuthorizationStatus::Expired => "Expired"@,
            AuthorizationStatus::Deactivated => "Deactivated"@,
        }
    }

    /// The name of the status.
    pub fn name(self) -> (r: String)
        ensures
            r@ == self.text(),
    {
        match self {
            AuthorizationStatus::Pending => "Pending".to_owned(),
            AuthorizationStatus::Valid => "Valid".to_owned(),
            AuthorizationStatus::Invalid => "Invalid".to_owned(),
            AuthorizationStatus::Revoked => "Revoked".to_owned(),
            AuthorizationStatus::Expired => "Expired".to_owned(),
            AuthorizationStatus::Deactivated => "Deactivated".to_owned(),
        }
    }
}

/// Why issuance cannot start.
#[derive(Debug, PartialEq, Eq)]
pub enum AcmeError {
    /// A DNS-01 challenge is configured without a Cloudflare token or zone id.
    CloudflareNotConfigured,
    /// The CSR cannot be used.
    Csr(CsrError),
}

impl AcmeError {
    /// The message for people.
    pub fn message(&self) -> (r: String)
        ensures
            match *self {
                AcmeError::CloudflareNotConfigured => r@
                    == "ACME DNS-01 challenge selected but Cloudflare token/zone id is not configured"@,
                AcmeError::Csr(e) => r@ == e.text(),
            },
    {
        match self {
            AcmeError::CloudflareNotConfigured => {
                "ACME DNS-01 challenge selected but Cloudflare token/zone id is not configured".to_owned()
            },
            AcmeError::Csr(e) => e.message(),
        }
    }
}

/// Whether a challenge configuration can work.
pub open spec fn challenge_config_works(challenge: AcmeChallengeType) -> bool {
    match challenge {
        AcmeChallengeType::Dns01 { cloudflare_api_token, cloudflare_zone_id } => {
            cloudflare_api_token@.len() > 0 && cloudflare_zone_id@.len() > 0
        },
        AcmeChallengeType::Http01 { .. } => true,
    }
}

/// Reject a challenge configuration that cannot work.
///
/// Worth doing before an order is created: the order is spent either way, and a
/// missing credential fails identically on every retry.
pub fn check_challenge_config(challenge: &AcmeChallengeType) -> (r: Result<(), AcmeError>)
    ensures
        challenge_config_works(*challenge) ==> r == Ok::<(), AcmeError>(()),
        !challenge_config_works(*challenge) ==> r == Err::<(), AcmeError>(
            AcmeError::CloudflareNotConfigured,
        ),
{
    match challenge {
        AcmeChallengeType::Dns01 { cloudflare_api_token, cloudflare_zone_id } => {
            if cloudflare_api_token.as_str().is_empty() || cloudflare_zone_id.as_str().is_empty() {
                Err(AcmeError::CloudflareNotConfigured)
            } else {
                Ok(())
            }
        },
        AcmeChallengeType::Http01 { .. } => Ok(()),
    }
}

} // verus!
