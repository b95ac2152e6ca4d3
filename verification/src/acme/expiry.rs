//! How long an issued certificate remains valid.
use crate::text;
use vstd::prelude::*;
use vstd::string::*;

verus! {

/// Why the end of a certificate's validity cannot be told.
#[derive(Debug, PartialEq, Eq)]
pub enum ExpiryError {
    /// The file with this path holds no PEM block, for this reason.
    Pem { path: String, reason: String },
    /// The first PEM block is no X.509 certificate, for this reason.
    Certificate { reason: String },
}

impl ExpiryError {
    /// The message for people.
    pub open spec fn text(self) -> Seq<char> {
        match self {
            ExpiryError::Pem { path, reason } => "failed to parse PEM at "@ + path@ + ": "@ + reason@,
            ExpiryError::Certificate { reason } => "failed to parse X.509 certificate: "@ + reason@,
        }
    }

    /// The message for people.
    pub fn message(&self) -> (r: String)
        ensures
            r@ == self.text(),
    {
        match self {
            ExpiryError::Pem { path, reason } => {
                let front = text::concat3("failed to parse PEM at ", path.as_str(), ": ");
                text::concat2(front.as_str(), reason.as_str())
            },
            ExpiryError::Certificate { reason } => {
                text::concat2("failed to parse X.509 certificate: ", reason.as_str())
            },
        }
    }
}

/// What `parse_x509_pem` of the crate x509-parser reads from PEM text: the bytes in its
/// first block, or the debug text of the error.
pub uninterp spec fn first_pem_block(data: Seq<u8>) -> Result<Seq<u8>, Seq<char>>;

/// What `parse_x509_certificate` of the crate x509-parser finds as the end of the
/// validity of a DER-encoded certificate, in seconds since the Unix epoch, or the debug
/// text of the error.
pub uninterp spec fn end_of_validity(der: Seq<u8>) -> Result<i64, Seq<char>>;

/// `x509_parser::pem::parse_x509_pem`, of which the contents of the block are kept. What
/// it reads is a function of the bytes; nothing is claimed of that function.
#[verifier::external_body]
fn read_pem(data: &[u8]) -> (r: Result<Vec<u8>, String>)
    ensures
        match r {
            Ok(der) => first_pem_block(data@) == Ok::<Seq<u8>, Seq<char>>(der@),
            Err(reason) => first_pem_block(data@) == Err::<Seq<u8>, Seq<char>>(reason@),
        },
{
    match x509_parser::pem::parse_x509_pem(data) {
        Ok((_, pem)) => Ok(pem.contents),
        Err(e) => Err(format!("{e:?}")),
    }
}

/// `x509_parser::parse_x509_certificate`, of which the timestamp of `not_after` is
/// kept. What it finds is a function of the bytes; nothing is claimed of that function.
#[verifier::external_body]
fn read_end_of_validity(der: &[u8]) -> (r: Result<i64, String>)
    ensures
        match r {
            Ok(end) => end_of_validity(der@) == Ok::<i64, Seq<char>>(end),
            Err(reason) => end_of_validity(der@) == Err::<i64, Seq<char>>(reason@),
        },
{
    match x509_parser::parse_x509_certificate(der) {
        Ok((_, cert)) => Ok(cert.validity().not_after.timestamp()),
        Err(e) => Err(format!("{e:?}")),
    }
}

/// The seconds from `now` to `end`, none where `end` has passed.
pub open spec fn remaining(end: int, now: int) -> int {
    if end <= now {
        0
    } else {
        end - now
    }
}

/// The seconds that are left at `now` of a validity that ends at `end`, both in seconds
/// since the Unix epoch. None are left once it has ended.
pub fn remaining_seconds(end: i64, now: u64) -> (r: u64)
    ensures
        r == remaining(end as int, now as int),
{
    if end <= 0 {
        return 0;
    }
    let last: u64 = end as u64;
    if last <= now {
        0
    } else {
        last - now
    }
}

/// Whether `r` tells when the certificate in `data` expires, seen from `now`.
pub open spec fn expires(
    data: Seq<u8>,
    cert_path: Seq<char>,
    now: u64,
    r: Result<u64, ExpiryError>,
) -> bool {
    match first_pem_block(data) {
        Err(why) => r matches Err(ExpiryError::Pem { path, reason }) && path@ == cert_path
            && reason@ == why,
        Ok(der) => match end_of_validity(der) {
            Err(why) => r matches Err(ExpiryError::Certificate { reason }) && reason@ == why,
            Ok(end) => r matches Ok(seconds) && seconds == remaining(end as int, now as int),
        },
    }
}

/// The seconds that are left at `now`, in seconds since the Unix epoch, until the leaf
/// certificate in `pem_data` expires: none when it has already expired. `cert_path` is
/// where `pem_data` was read from.
pub fn check_cert_expiry(pem_data: &[u8], cert_path: &str, now: u64) -> (r: Result<
    u64,
    ExpiryError,
>)
    ensures
        expires(pem_data@, cert_path@, now, r),
{
    let der = match read_pem(pem_data) {
        Ok(der) => der,
        Err(reason) => return Err(ExpiryError::Pem { path: cert_path.to_owned(), reason }),
    };
    match read_end_of_validity(&der) {
        Ok(end) => Ok(remaining_seconds(end, now)),
        Err(reason) => Err(ExpiryError::Certificate { reason }),
    }
}

/// A certificate has no time left exactly where it has expired, and each second that
/// passes before that takes one away.
pub proof fn time_left_runs_out(end: int, now: int, passed: int)
    requires
        0 <= passed,
    ensures
        remaining(end, now) == 0 <==> end <= now,
        remaining(end, now + passed) == if remaining(end, now) <= passed {
            0
        } else {
            remaining(end, now) - passed
        },
{
}

/// What is left and what has passed make up the end of the validity, as long as it is not
/// over; from then on nothing is left. The first block that is not a certificate, or no block
/// at all, is an error that gives the reason.
pub proof fn time_left_adds_up(
    data: Seq<u8>,
    cert_path: Seq<char>,
    now: u64,
    r: Result<u64, ExpiryError>,
)
    requires
        expires(data, cert_path, now, r),
    ensures
        r is Ok <==> first_pem_block(data) is Ok && end_of_validity(first_pem_block(data)->Ok_0) is Ok,
        r matches Ok(left) ==> {
            let end = end_of_validity(first_pem_block(data)->Ok_0)->Ok_0;
            &&& now < end ==> now + left == end
            &&& end <= now ==> left == 0
        },
        first_pem_block(data) matches Err(why) ==> (r matches Err(ExpiryError::Pem { path, reason })
            && path@ == cert_path && reason@ == why),
        first_pem_block(data) matches Ok(der) ==> end_of_validity(der) matches Err(why) ==> (
        r matches Err(ExpiryError::Certificate { reason }) && reason@ == why),
{
}

} // verus!
