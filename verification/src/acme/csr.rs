//! Certificate signing requests: decoding them, the identifiers they ask for, and
//! whether those are the ones that an order names.
use crate::acme::identifier;
use crate::acme::identifier::{holds, push_unique, Identifier, IdentifierView};
use crate::ip;
use crate::text;
use rustls::pki_types::pem::PemObject;
use rustls::pki_types::CertificateSigningRequestDer;
use vstd::prelude::*;
use vstd::string::*;
use x509_parser::certification_request::X509CertificationRequest;
use x509_parser::extensions::{GeneralName, ParsedExtension};
use x509_parser::prelude::FromDer;

verus! {

/// A PKCS#10 certificate signing request supplied by the caller.
///
/// The private key behind the CSR never reaches this crate: it can stay in an HSM, a
/// KMS, or a file this process cannot read. Only the CSR travels.
#[derive(Clone, Debug)]
pub enum CsrSource {
    /// PEM-encoded (`-----BEGIN CERTIFICATE REQUEST-----`) bytes.
    ///
    /// Only the first `CERTIFICATE REQUEST` section is used.
    Pem(Vec<u8>),
    /// DER-encoded bytes.
    Der(Vec<u8>),
    /// Path to a file holding a PEM-encoded CSR.
    PemFile(String),
}

/// Why a CSR cannot be used.
#[derive(Debug, PartialEq, Eq)]
pub enum CsrError {
    /// The PEM text holds no CSR that can be decoded.
    Undecodable,
    /// The file with this path cannot be read, or holds no CSR that can be decoded.
    UndecodableFile(String),
    /// The DER bytes are no CSR, for this reason.
    Malformed(String),
    /// There are bytes left after the CSR.
    TrailingData,
    /// An IP address in the subjectAltName extension has neither 4 nor 16 octets.
    InvalidIpAddress,
    /// The CSR asks for no DNS name and no IP address.
    NoIdentifiers,
    /// The CSR asks for something other than DNS names and IP addresses.
    UnsupportedName,
    /// The CSR asks for an identifier that the order does not name.
    NotInOrder,
    /// The order names an identifier that the CSR does not ask for.
    NotInCsr,
}

impl CsrError {
    /// The message for people.
    pub open spec fn text(self) -> Seq<char> {
        match self {
            CsrError::Undecodable => "failed to decode the PEM-encoded CSR"@,
            CsrError::UndecodableFile(path) => "failed to read the PEM-encoded CSR at "@ + path@,
            CsrError::Malformed(reason) => "failed to parse the CSR: "@ + reason@,
            CsrError::TrailingData => "trailing data after the CSR"@,
            CsrError::InvalidIpAddress => "invalid IP address in the CSR's subjectAltName"@,
            CsrError::NoIdentifiers =>
                "the CSR has no DNS name or IP address in its subjectAltName extension, so there is nothing to order a certificate for"@,
            CsrError::UnsupportedName =>
                "the CSR's subjectAltName holds a name that is neither a DNS name nor an IP address"@,
            CsrError::NotInOrder => "the CSR asks for an identifier that the order does not name"@,
            CsrError::NotInCsr => "the order names an identifier that the CSR does not ask for"@,
        }
    }

    /// The same error once more.
    pub fn duplicate(&self) -> (r: CsrError)
        ensures
            r == *self,
    {
        match self {
            CsrError::Undecodable => CsrError::Undecodable,
            CsrError::UndecodableFile(path) => CsrError::UndecodableFile(path.clone()),
            CsrError::Malformed(reason) => CsrError::Malformed(reason.clone()),
            CsrError::TrailingData => CsrError::TrailingData,
            CsrError::InvalidIpAddress => CsrError::InvalidIpAddress,
            CsrError::NoIdentifiers => CsrError::NoIdentifiers,
            CsrError::UnsupportedName => CsrError::UnsupportedName,
            CsrError::NotInOrder => CsrError::NotInOrder,
            CsrError::NotInCsr => CsrError::NotInCsr,
        }
    }

    /// The message for people.
    pub fn message(&self) -> (r: String)
        ensures
            r@ == self.text(),
    {
        match self {
            CsrError::Undecodable => "failed to decode the PEM-encoded CSR".to_owned(),
            CsrError::UndecodableFile(path) => text::concat2(
                "failed to read the PEM-encoded CSR at ",
                path.as_str(),
            ),
            CsrError::Malformed(reason) => text::concat2(
                "failed to parse the CSR: ",
                reason.as_str(),
            ),
            CsrError::TrailingData => "trailing data after the CSR".to_owned(),
            CsrError::InvalidIpAddress => {
                "invalid IP address in the CSR's subjectAltName".to_owned()
            },
            CsrError::NoIdentifiers => {
                "the CSR has no DNS name or IP address in its subjectAltName extension, so there is nothing to order a certificate for".to_owned()
            },
            CsrError::UnsupportedName => {
                "the CSR's subjectAltName holds a name that is neither a DNS name nor an IP address".to_owned()
            },
            CsrError::NotInOrder => {
                "the CSR asks for an identifier that the order does not name".to_owned()
            },
            CsrError::NotInCsr => {
                "the order names an identifier that the CSR does not ask for".to_owned()
            },
        }
    }
}

/// A name in the subjectAltName extension of a CSR.
#[derive(Debug, PartialEq, Eq)]
pub enum CsrName {
    Dns(String),
    /// The octets of an address, as they stand in the CSR.
    Ip(Vec<u8>),
    /// A name of another kind.
    Other,
}

/// The value of a [`CsrName`].
pub enum CsrNameView {
    Dns(Seq<char>),
    Ip(Seq<u8>),
    Other,
}

impl View for CsrName {
    type V = CsrNameView;

    open spec fn view(&self) -> CsrNameView {
        match self {
            CsrName::Dns(name) => CsrNameView::Dns(name@),
            CsrName::Ip(octets) => CsrNameView::Ip(octets@),
            CsrName::Other => CsrNameView::Other,
        }
    }
}

/// The values of a list of names.
pub open spec fn name_views(names: Seq<CsrName>) -> Seq<CsrNameView> {
    names.map_values(|name: CsrName| name@)
}

/// An extension that a CSR requests.
#[derive(Debug, PartialEq, Eq)]
pub enum RequestedExtension {
    SubjectAltName(Vec<CsrName>),
    Other,
}

/// The names that the requested extensions hold, in order.
pub open spec fn requested_names(extensions: Seq<RequestedExtension>) -> Seq<CsrNameView>
    decreases extensions.len(),
{
    if extensions.len() == 0 {
        Seq::empty()
    } else {
        requested_names(extensions.drop_last()) + match extensions.last() {
            RequestedExtension::SubjectAltName(names) => name_views(names@),
            RequestedExtension::Other => Seq::empty(),
        }
    }
}

/// What a DER-encoded CSR holds, as far as issuance looks at it.
#[derive(Debug, PartialEq, Eq)]
pub struct CertificationRequest {
    /// The bytes that follow the CSR.
    pub rest: Vec<u8>,
    /// The extensions that the CSR requests.
    pub extensions: Vec<RequestedExtension>,
}

/// The value of a [`CertificationRequest`].
pub struct CertificationRequestView {
    pub rest: Seq<u8>,
    pub names: Seq<CsrNameView>,
}

impl View for CertificationRequest {
    type V = CertificationRequestView;

    open spec fn view(&self) -> CertificationRequestView {
        CertificationRequestView { rest: self.rest@, names: requested_names(self.extensions@) }
    }
}

/// The value of what came of parsing a CSR.
pub open spec fn parse_view(parsed: Result<CertificationRequest, String>) -> Result<
    CertificationRequestView,
    Seq<char>,
> {
    match parsed {
        Ok(request) => Ok(request@),
        Err(reason) => Err(reason@),
    }
}

/// What `X509CertificationRequest::from_der` of the crate x509-parser reads from
/// DER bytes: the bytes left over with the names of the subjectAltName extensions in
/// the first extension request, or the text of the error.
pub uninterp spec fn parsed_csr(der: Seq<u8>) -> Result<CertificationRequestView, Seq<char>>;

/// What `CertificateSigningRequestDer::from_pem_slice` of the crate rustls-pki-types
/// decodes from PEM text: the DER bytes of its first CSR section, if that can be
/// decoded.
pub uninterp spec fn pem_csr(pem: Seq<u8>) -> Option<Seq<u8>>;

/// `X509CertificationRequest::from_der`, with its `requested_extensions`, of the
/// crate x509-parser. What it reads is a function of the bytes; nothing is claimed of
/// that function.
#[verifier::external_body]
pub(crate) fn parse_csr(der: &[u8]) -> (r: Result<CertificationRequest, String>)
    ensures
        parse_view(r) == parsed_csr(der@),
{
    let (rest, csr) = X509CertificationRequest::from_der(der).map_err(|err| err.to_string())?;
    let extensions = csr.requested_extensions().into_iter().flatten().map(|ext| match ext {
        ParsedExtension::SubjectAlternativeName(san) => RequestedExtension::SubjectAltName(
            san.general_names.iter().map(|name| match name {
                GeneralName::DNSName(dns) => CsrName::Dns(dns.to_string()),
                GeneralName::IPAddress(octets) => CsrName::Ip(octets.to_vec()),
                _ => CsrName::Other,
            }).collect(),
        ),
        _ => RequestedExtension::Other,
    }).collect();
    Ok(CertificationRequest { rest: rest.to_vec(), extensions })
}

/// `CertificateSigningRequestDer::from_pem_slice` of the crate rustls-pki-types. What
/// it decodes is a function of the bytes; nothing is claimed of that function.
#[verifier::external_body]
fn decode_pem(pem: &[u8]) -> (r: Option<Vec<u8>>)
    ensures
        match r {
            Some(der) => pem_csr(pem@) == Some(der@),
            None => pem_csr(pem@) is None,
        },
{
    CertificateSigningRequestDer::from_pem_slice(pem).ok().map(|csr| csr.to_vec())
}

/// The DER bytes that a CSR source stands for, where `file` is what the file that it
/// names holds, if that could be read.
pub open spec fn source_der(source: CsrSource, file: Option<Vec<u8>>) -> Option<Seq<u8>> {
    match source {
        CsrSource::Pem(pem) => pem_csr(pem@),
        CsrSource::Der(der) => Some(der@),
        CsrSource::PemFile(_) => match file {
            Some(pem) => pem_csr(pem@),
            None => None,
        },
    }
}

/// The path of the file that a CSR source names, if it names one.
pub open spec fn source_file(source: CsrSource) -> Option<String> {
    match source {
        CsrSource::PemFile(path) => Some(path),
        _ => None,
    }
}

/// Whether `r` is what loading a CSR gives.
pub open spec fn loads(
    source: CsrSource,
    file: Option<Vec<u8>>,
    r: Result<Vec<u8>, CsrError>,
) -> bool {
    match source_der(source, file) {
        Some(der) => r matches Ok(bytes) && bytes@ == der,
        None => r == Err::<Vec<u8>, CsrError>(source_error(source)),
    }
}

/// The error where a CSR source stands for no DER bytes.
pub open spec fn source_error(source: CsrSource) -> CsrError {
    match source {
        CsrSource::PemFile(path) => CsrError::UndecodableFile(path),
        _ => CsrError::Undecodable,
    }
}

impl CsrSource {
    /// The path of the file that has to be read before the CSR can be loaded.
    pub fn file(&self) -> (r: Option<String>)
        ensures
            r == source_file(*self),
    {
        match self {
            CsrSource::PemFile(path) => Some(path.clone()),
            _ => None,
        }
    }

    /// Decode into DER. `file` is what the file named by [`CsrSource::file`] holds,
    /// or `None` where it could not be read.
    pub fn load(&self, file: &Option<Vec<u8>>) -> (r: Result<Vec<u8>, CsrError>)
        ensures
            loads(*self, *file, r),
    {
        match self {
            CsrSource::Pem(pem) => match decode_pem(pem) {
                Some(der) => Ok(der),
                None => Err(CsrError::Undecodable),
            },
            CsrSource::Der(der) => Ok(der.clone()),
            CsrSource::PemFile(path) => match file {
                Some(pem) => match decode_pem(pem) {
                    Some(der) => Ok(der),
                    None => Err(CsrError::UndecodableFile(path.clone())),
                },
                None => Err(CsrError::UndecodableFile(path.clone())),
            },
        }
    }
}

/// The identifier that a name asks for, if it asks for one.
pub open spec fn name_identifier(name: CsrNameView) -> Option<IdentifierView> {
    match name {
        CsrNameView::Dns(dns) => Some(IdentifierView::Dns(text::lowercase(dns))),
        CsrNameView::Ip(octets) => match ip::ip_of_octets(octets) {
            Some(addr) => Some(IdentifierView::Ip(addr)),
            None => None,
        },
        CsrNameView::Other => None,
    }
}

/// Whether a name is an IP address with a wrong number of octets.
pub open spec fn is_invalid_ip(name: CsrNameView) -> bool {
    name is Ip && name_identifier(name) is None
}

/// The identifiers that `names` ask for, repetitions and all.
pub open spec fn asked_identifiers(names: Seq<CsrNameView>) -> Seq<IdentifierView>
    decreases names.len(),
{
    if names.len() == 0 {
        Seq::empty()
    } else {
        let front = asked_identifiers(names.drop_last());
        match name_identifier(names.last()) {
            Some(id) => front.push(id),
            None => front,
        }
    }
}

/// Whether an IP address with a wrong number of octets is among `names`.
pub open spec fn has_invalid_ip(names: Seq<CsrNameView>) -> bool {
    exists|i: int| 0 <= i < names.len() && is_invalid_ip(#[trigger] names[i])
}

/// The identifiers that a CSR asks for, each once, or why there are none.
pub open spec fn request_identifiers(request: CertificationRequestView) -> Result<
    Seq<IdentifierView>,
    CsrError,
> {
    if request.rest.len() > 0 {
        Err(CsrError::TrailingData)
    } else if has_invalid_ip(request.names) {
        Err(CsrError::InvalidIpAddress)
    } else if asked_identifiers(request.names).len() == 0 {
        Err(CsrError::NoIdentifiers)
    } else {
        Ok(identifier::distinct(asked_identifiers(request.names)))
    }
}

/// Append the identifiers that `names` ask for; false at an invalid IP address.
fn push_names(identifiers: &mut Vec<Identifier>, names: &Vec<CsrName>, Ghost(before): Ghost<
    Seq<CsrNameView>,
>) -> (r: bool)
    requires
        identifier::views(old(identifiers)@) == identifier::distinct(asked_identifiers(before)),
        !has_invalid_ip(before),
    ensures
        r == !has_invalid_ip(before + name_views(names@)),
        r ==> identifier::views(final(identifiers)@) == identifier::distinct(
            asked_identifiers(before + name_views(names@)),
        ),
{
    let ghost all = before + name_views(names@);
    let mut i: usize = 0;
    proof {
        assert(before + name_views(names@.take(0)) =~= before);
    }
    while i < names.len()
        invariant
            i <= names@.len(),
            all == before + name_views(names@),
            !has_invalid_ip(before + name_views(names@.take(i as int))),
            identifier::views(identifiers@) == identifier::distinct(
                asked_identifiers(before + name_views(names@.take(i as int))),
            ),
        decreases names@.len() - i,
    {
        let ghost so_far = before + name_views(names@.take(i as int));
        let ghost next = before + name_views(names@.take(i + 1));
        proof {
            assert(next =~= so_far.push(names@[i as int]@));
            assert(next.drop_last() =~= so_far);
            assert(all[before.len() + i] == names@[i as int]@);
        }
        match &names[i] {
            CsrName::Dns(dns) => {
                let id = Identifier::Dns(text::ascii_lowercase(dns.as_str()));
                proof {
                    lemma_asked_step(so_far, names@[i as int]@);
                }
                push_unique(identifiers, id);
            },
            CsrName::Ip(octets) => {
                match ip::ip_from_octets(octets) {
                    Some(addr) => {
                        proof {
                            lemma_asked_step(so_far, names@[i as int]@);
                        }
                        push_unique(identifiers, Identifier::Ip(addr));
                    },
                    None => {
                        assert(is_invalid_ip(all[before.len() + i]));
                        return false;
                    },
                }
            },
            CsrName::Other => {},
        }
        proof {
            assert forall|k: int| 0 <= k < next.len() implies !is_invalid_ip(#[trigger] next[k]) by {
                if k < so_far.len() {
                    assert(!is_invalid_ip(so_far[k]));
                }
            }
        }
        i += 1;
    }
    proof {
        assert(names@.take(names@.len() as int) =~= names@);
    }
    true
}

proof fn lemma_asked_step(names: Seq<CsrNameView>, name: CsrNameView)
    requires
        name_identifier(name) is Some,
    ensures
        identifier::distinct(asked_identifiers(names.push(name))) == identifier::with_unique(
            identifier::distinct(asked_identifiers(names)),
            name_identifier(name)->0,
        ),
{
    let asked = asked_identifiers(names);
    let id = name_identifier(name)->0;
    assert(names.push(name).drop_last() =~= names);
    assert(asked_identifiers(names.push(name)) == asked.push(id));
    assert(asked.push(id).drop_last() =~= asked);
}

/// The identifiers that a parsed CSR asks for, taken from its subjectAltName
/// extension. Repetitions are dropped, keeping the first occurrence.
pub fn identifiers_of_request(request: &CertificationRequest) -> (r: Result<
    Vec<Identifier>,
    CsrError,
>)
    ensures
        match request_identifiers(request@) {
            Ok(ids) => r matches Ok(v) && identifier::views(v@) == ids,
            Err(e) => r == Err::<Vec<Identifier>, CsrError>(e),
        },
{
    if request.rest.len() > 0 {
        return Err(CsrError::TrailingData);
    }
    let mut identifiers: Vec<Identifier> = Vec::new();
    let ghost names = requested_names(request.extensions@);
    let mut i: usize = 0;
    proof {
        assert(identifier::views(identifiers@) =~= Seq::<IdentifierView>::empty());
    }
    while i < request.extensions.len()
        invariant
            i <= request.extensions@.len(),
            request.rest@.len() == 0,
            names == requested_names(request.extensions@),
            !has_invalid_ip(requested_names(request.extensions@.take(i as int))),
            identifier::views(identifiers@) == identifier::distinct(
                asked_identifiers(requested_names(request.extensions@.take(i as int))),
            ),
        decreases request.extensions@.len() - i,
    {
        let ghost so_far = requested_names(request.extensions@.take(i as int));
        let ghost next = requested_names(request.extensions@.take(i + 1));
        proof {
            assert(request.extensions@.take(i + 1).drop_last() =~= request.extensions@.take(
                i as int,
            ));
            lemma_requested_prefix(request.extensions@, i + 1);
        }
        match &request.extensions[i] {
            RequestedExtension::SubjectAltName(list) => {
                if !push_names(&mut identifiers, list, Ghost(so_far)) {
                    proof {
                        let k = choose|k: int|
                            0 <= k < next.len() && is_invalid_ip(#[trigger] next[k]);
                        assert(is_invalid_ip(names[k]));
                    }
                    return Err(CsrError::InvalidIpAddress);
                }
            },
            RequestedExtension::Other => {
                assert(next =~= so_far);
            },
        }
        i += 1;
    }
    proof {
        assert(request.extensions@.take(request.extensions@.len() as int)
            =~= request.extensions@);
        identifier::distinct_keeps_each_once(asked_identifiers(names));
    }
    if identifiers.len() == 0 {
        return Err(CsrError::NoIdentifiers);
    }
    Ok(identifiers)
}

proof fn lemma_requested_prefix(extensions: Seq<RequestedExtension>, n: int)
    requires
        0 <= n <= extensions.len(),
    ensures
        requested_names(extensions.take(n)).is_prefix_of(requested_names(extensions)),
    decreases extensions.len(),
{
    if n == extensions.len() {
        assert(extensions.take(n) =~= extensions);
    } else {
        let front = extensions.drop_last();
        lemma_requested_prefix(front, n);
        assert(front.take(n) =~= extensions.take(n));
    }
}

/// The identifiers to order for what came of parsing a CSR.
pub fn identifiers_of_parsed_csr(parsed: &Result<CertificationRequest, String>) -> (r: Result<
    Vec<Identifier>,
    CsrError,
>)
    ensures
        match *parsed {
            Ok(request) => match request_identifiers(request@) {
                Ok(ids) => r matches Ok(v) && identifier::views(v@) == ids,
                Err(e) => r == Err::<Vec<Identifier>, CsrError>(e),
            },
            Err(reason) => r == Err::<Vec<Identifier>, CsrError>(CsrError::Malformed(reason)),
        },
{
    match parsed {
        Ok(request) => identifiers_of_request(request),
        Err(reason) => Err(CsrError::Malformed(reason.clone())),
    }
}

/// Whether `r` is what a CSR asks for, where `parsed` came of parsing it.
pub open spec fn asked_for(
    parsed: Result<CertificationRequestView, Seq<char>>,
    r: Result<Vec<Identifier>, CsrError>,
) -> bool {
    match parsed {
        Ok(request) => match request_identifiers(request) {
            Ok(ids) => r matches Ok(v) && identifier::views(v@) == ids,
            Err(e) => r == Err::<Vec<Identifier>, CsrError>(e),
        },
        Err(reason) => r matches Err(CsrError::Malformed(text)) && text@ == reason,
    }
}

/// The identifiers that a CSR asks for, taken from its subjectAltName extension.
pub fn identifiers_from_csr(der: &[u8]) -> (r: Result<Vec<Identifier>, CsrError>)
    ensures
        asked_for(parsed_csr(der@), r),
{
    let parsed = parse_csr(der);
    identifiers_of_parsed_csr(&parsed)
}

/// Whether a name of another kind than DNS name and IP address is among `names`.
pub open spec fn has_other_name(names: Seq<CsrNameView>) -> bool {
    exists|i: int| 0 <= i < names.len() && (#[trigger] names[i]) is Other
}

/// Whether every element of `part` is in `whole`.
pub open spec fn all_in(part: Seq<IdentifierView>, whole: Seq<IdentifierView>) -> bool {
    forall|i: int| 0 <= i < part.len() ==> whole.contains(#[trigger] part[i])
}

/// Whether a CSR asks for exactly the identifiers that an order names.
///
/// The CA refuses a CSR that asks for more, less or something of another kind, and
/// the order is spent by then.
pub open spec fn order_check(
    request: CertificationRequestView,
    order: Seq<IdentifierView>,
) -> Result<(), CsrError> {
    match request_identifiers(request) {
        Err(e) => Err(e),
        Ok(ids) => if has_other_name(request.names) {
            Err(CsrError::UnsupportedName)
        } else if !all_in(ids, order) {
            Err(CsrError::NotInOrder)
        } else if !all_in(order, ids) {
            Err(CsrError::NotInCsr)
        } else {
            Ok(())
        },
    }
}

/// Whether every element of `part` is in `whole`.
fn contains_all(whole: &Vec<Identifier>, part: &Vec<Identifier>) -> (r: bool)
    ensures
        r == all_in(identifier::views(part@), identifier::views(whole@)),
{
    let mut i: usize = 0;
    while i < part.len()
        invariant
            i <= part@.len(),
            forall|k: int|
                0 <= k < i ==> identifier::views(whole@).contains(
                    #[trigger] identifier::views(part@)[k],
                ),
        decreases part@.len() - i,
    {
        if !holds(whole, &part[i]) {
            assert(!identifier::views(whole@).contains(identifier::views(part@)[i as int]));
            return false;
        }
        i += 1;
    }
    true
}

/// Whether `names` holds a name of another kind than DNS name and IP address.
fn holds_other(names: &Vec<CsrName>) -> (r: bool)
    ensures
        r == has_other_name(name_views(names@)),
{
    let mut i: usize = 0;
    while i < names.len()
        invariant
            i <= names@.len(),
            forall|k: int| 0 <= k < i ==> !((#[trigger] name_views(names@)[k]) is Other),
        decreases names@.len() - i,
    {
        if let CsrName::Other = names[i] {
            assert(name_views(names@)[i as int] is Other);
            return true;
        }
        i += 1;
    }
    false
}

/// Whether the requested extensions hold a name of another kind.
fn requests_other(extensions: &Vec<RequestedExtension>) -> (r: bool)
    ensures
        r == has_other_name(requested_names(extensions@)),
{
    let mut i: usize = 0;
    while i < extensions.len()
        invariant
            i <= extensions@.len(),
            !has_other_name(requested_names(extensions@.take(i as int))),
        decreases extensions@.len() - i,
    {
        let ghost so_far = requested_names(extensions@.take(i as int));
        let ghost next = requested_names(extensions@.take(i + 1));
        proof {
            assert(extensions@.take(i + 1).drop_last() =~= extensions@.take(i as int));
        }
        if let RequestedExtension::SubjectAltName(list) = &extensions[i] {
            let ghost here = name_views(list@);
            if holds_other(list) {
                proof {
                    let k = choose|k: int| 0 <= k < here.len() && (#[trigger] here[k]) is Other;
                    lemma_requested_prefix(extensions@, i + 1);
                    assert(next[so_far.len() + k] is Other);
                    assert(requested_names(extensions@)[so_far.len() + k] is Other);
                }
                return true;
            }
            proof {
                assert forall|k: int| 0 <= k < next.len() implies !((#[trigger] next[k]) is Other) by {
                    if k < so_far.len() {
                        assert(!(so_far[k] is Other));
                    } else {
                        assert(!(here[k - so_far.len()] is Other));
                    }
                }
            }
        } else {
            assert(next =~= so_far);
        }
        i += 1;
    }
    proof {
        assert(extensions@.take(extensions@.len() as int) =~= extensions@);
    }
    false
}

/// Check a parsed CSR against the identifiers of the order that it is meant for.
pub fn check_request_against_order(
    request: &CertificationRequest,
    order: &Vec<Identifier>,
) -> (r: Result<(), CsrError>)
    ensures
        r == order_check(request@, identifier::views(order@)),
{
    let asked = identifiers_of_request(request)?;
    if requests_other(&request.extensions) {
        return Err(CsrError::UnsupportedName);
    }
    if !contains_all(order, &asked) {
        return Err(CsrError::NotInOrder);
    }
    if !contains_all(&asked, order) {
        return Err(CsrError::NotInCsr);
    }
    Ok(())
}

/// [`order_check`] for what came of parsing a CSR.
pub open spec fn parsed_check(
    parsed: Result<CertificationRequest, String>,
    order: Seq<IdentifierView>,
) -> Result<(), CsrError> {
    match parsed {
        Ok(request) => order_check(request@, order),
        Err(reason) => Err(CsrError::Malformed(reason)),
    }
}

/// Check what came of parsing a CSR against the identifiers of the order that it is
/// meant for.
pub fn check_parsed_csr(
    parsed: &Result<CertificationRequest, String>,
    order: &Vec<Identifier>,
) -> (r: Result<(), CsrError>)
    ensures
        r == parsed_check(*parsed, identifier::views(order@)),
{
    match parsed {
        Ok(request) => check_request_against_order(request, order),
        Err(reason) => Err(CsrError::Malformed(reason.clone())),
    }
}

/// An order that was derived from a CSR never disagrees with that CSR, as long as the
/// CSR asks for DNS names and IP addresses only.
pub proof fn derived_order_matches_csr(
    request: CertificationRequestView,
    order: Seq<IdentifierView>,
)
    requires
        request_identifiers(request) == Ok::<Seq<IdentifierView>, CsrError>(order),
        !has_other_name(request.names),
    ensures
        order_check(request, order) == Ok::<(), CsrError>(()),
{
    assert forall|i: int| 0 <= i < order.len() implies order.contains(#[trigger] order[i]) by {}
}

/// The list of hosts is no allow-list: where the CSR asks for an identifier that the
/// order leaves out, it is rejected, not narrowed.
pub proof fn order_cannot_narrow_csr(
    request: CertificationRequestView,
    order: Seq<IdentifierView>,
    asked: Seq<IdentifierView>,
    id: IdentifierView,
)
    requires
        request_identifiers(request) == Ok::<Seq<IdentifierView>, CsrError>(asked),
        asked.contains(id),
        !order.contains(id),
    ensures
        order_check(request, order) is Err,
{
    let i = choose|i: int| 0 <= i < asked.len() && asked[i] == id;
    assert(!order.contains(asked[i]));
}

/// The identifiers that a CSR asks for are never none and never repeated.
pub proof fn request_identifiers_are_distinct(
    request: CertificationRequestView,
    ids: Seq<IdentifierView>,
)
    requires
        request_identifiers(request) == Ok::<Seq<IdentifierView>, CsrError>(ids),
    ensures
        ids.len() > 0,
        ids.no_duplicates(),
        forall|id: IdentifierView| ids.contains(id) <==> #[trigger] asked_identifiers(
            request.names,
        ).contains(id),
{
    identifier::distinct_keeps_each_once(asked_identifiers(request.names));
}

} // verus!
