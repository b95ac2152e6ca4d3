//! Proof-of-possession primitives: JWK thumbprints, Endpoint IDs, the canonical request
//! string and the verification of its signature.
//!
//! They let a proxy verify, offline, that a request was signed by the private key of an
//! Endpoint, whose ECDSA P-256 public key is carried as a JWK in the Endpoint's token.
//! Whether a timestamp is recent and a nonce is fresh is not checked here.
pub mod base64url;
pub mod crypto;
pub mod hex;
pub mod json;
pub mod laws;

use crate::pop::crypto::{
    der_signature, fixed_signature, public_key_from_jwk, sha256, verify,
};
pub use crate::pop::hex::hex_encode;
use crate::pop::json::{is_object, json_string, member_text, value_text};
use crate::text;
use serde_json::Value;
use vstd::prelude::*;
use vstd::slice::*;
use vstd::string::*;
use vstd::utf8::*;

verus! {

/// Prefix that all Endpoint IDs carry.
pub const ENDPOINT_ID_PREFIX: &'static str = "ep:";

/// Errors produced while deriving identifiers from, or verifying signatures against, an
/// Endpoint JWK.
#[derive(Debug)]
pub enum PopError {
    /// The supplied JWK value was not a JSON object.
    JwkNotObject,
    /// A required JWK member (`kty`, `crv`, `x`, `y`) was absent or not a string.
    JwkMissingField(&'static str),
    /// The key is not an EC P-256 key, the only type that is supported.
    UnsupportedKey,
    /// The JWK could not be parsed into a usable public key.
    InvalidPublicKey(String),
    /// The signature was not valid base64url.
    SignatureEncoding,
    /// The signature bytes were neither a 64-byte fixed (P1363) nor a DER ECDSA
    /// signature.
    SignatureMalformed,
    /// The signature did not verify against the canonical string and key.
    VerificationFailed,
}

/// The value of a [`PopError`].
pub enum PopErrorView {
    JwkNotObject,
    JwkMissingField(Seq<char>),
    UnsupportedKey,
    InvalidPublicKey(Seq<char>),
    SignatureEncoding,
    SignatureMalformed,
    VerificationFailed,
}

impl View for PopError {
    type V = PopErrorView;

    open spec fn view(&self) -> PopErrorView {
        match self {
            PopError::JwkNotObject => PopErrorView::JwkNotObject,
            PopError::JwkMissingField(field) => PopErrorView::JwkMissingField(field@),
            PopError::UnsupportedKey => PopErrorView::UnsupportedKey,
            PopError::InvalidPublicKey(reason) => PopErrorView::InvalidPublicKey(reason@),
            PopError::SignatureEncoding => PopErrorView::SignatureEncoding,
            PopError::SignatureMalformed => PopErrorView::SignatureMalformed,
            PopError::VerificationFailed => PopErrorView::VerificationFailed,
        }
    }
}

impl PopErrorView {
    /// The message for people.
    pub open spec fn text(self) -> Seq<char> {
        match self {
            PopErrorView::JwkNotObject => "JWK is not a JSON object"@,
            PopErrorView::JwkMissingField(field) => "JWK is missing required member `"@ + field
                + "`"@,
            PopErrorView::UnsupportedKey => "unsupported key: expected an EC P-256 JWK"@,
            PopErrorView::InvalidPublicKey(reason) => "invalid JWK public key: "@ + reason,
            PopErrorView::SignatureEncoding => "PoP signature is not valid base64url"@,
            PopErrorView::SignatureMalformed => "PoP signature is malformed"@,
            PopErrorView::VerificationFailed => "PoP signature verification failed"@,
        }
    }
}

impl PopError {
    /// The message for people.
    pub fn message(&self) -> (r: String)
        ensures
            r@ == self@.text(),
    {
        match self {
            PopError::JwkNotObject => "JWK is not a JSON object".to_owned(),
            PopError::JwkMissingField(field) => {
                text::concat3("JWK is missing required member `", field, "`")
            },
            PopError::UnsupportedKey => "unsupported key: expected an EC P-256 JWK".to_owned(),
            PopError::InvalidPublicKey(reason) => {
                text::concat2("invalid JWK public key: ", reason.as_str())
            },
            PopError::SignatureEncoding => "PoP signature is not valid base64url".to_owned(),
            PopError::SignatureMalformed => "PoP signature is malformed".to_owned(),
            PopError::VerificationFailed => "PoP signature verification failed".to_owned(),
        }
    }
}

/// The JSON object with the required members of an EC P-256 key, in lexicographic order
/// and without whitespace.
pub open spec fn thumbprint_json(x: Seq<char>, y: Seq<char>) -> Seq<char> {
    "{\"crv\":"@ + json::quoted("P-256"@) + ",\"kty\":"@ + json::quoted("EC"@) + ",\"x\":"@
        + json::quoted(x) + ",\"y\":"@ + json::quoted(y) + "}"@
}

/// The text that is hashed for the thumbprint of a JWK, given whether the JWK is an object
/// and which of its members are strings.
///
/// An unsupported key type is told from a malformed key: `kty` and `crv` come first.
pub open spec fn thumbprint_text(
    is_object: bool,
    kty: Option<Seq<char>>,
    crv: Option<Seq<char>>,
    x: Option<Seq<char>>,
    y: Option<Seq<char>>,
) -> Result<Seq<char>, PopErrorView> {
    if !is_object {
        Err(PopErrorView::JwkNotObject)
    } else if kty is None {
        Err(PopErrorView::JwkMissingField("kty"@))
    } else if kty->0 != "EC"@ {
        Err(PopErrorView::UnsupportedKey)
    } else if crv is None {
        Err(PopErrorView::JwkMissingField("crv"@))
    } else if crv->0 != "P-256"@ {
        Err(PopErrorView::UnsupportedKey)
    } else if x is None {
        Err(PopErrorView::JwkMissingField("x"@))
    } else if y is None {
        Err(PopErrorView::JwkMissingField("y"@))
    } else {
        Ok(thumbprint_json(x->0, y->0))
    }
}

/// The string that the member `key` of a JSON value holds, if there is one.
pub open spec fn member(jwk: Value, key: Seq<char>) -> Option<Seq<char>> {
    if json::json_strings(jwk).contains_key(key) {
        Some(json::json_strings(jwk)[key])
    } else {
        None
    }
}

/// The text that is hashed for the thumbprint of a JWK.
pub open spec fn jwk_text(jwk: Value) -> Result<Seq<char>, PopErrorView> {
    thumbprint_text(
        json::json_is_object(jwk),
        member(jwk, "kty"@),
        member(jwk, "crv"@),
        member(jwk, "x"@),
        member(jwk, "y"@),
    )
}

/// The value of an optional text.
pub open spec fn text_view(text: Option<&str>) -> Option<Seq<char>> {
    match text {
        Some(t) => Some(t@),
        None => None,
    }
}

/// Whether two texts are the same.
fn same_text(a: &str, b: &str) -> (r: bool)
    ensures
        r == (a@ == b@),
{
    a.to_owned() == b.to_owned()
}

/// The JSON object with the required members of an EC P-256 key.
pub fn thumbprint_input(x: &str, y: &str) -> (r: String)
    ensures
        r@ == thumbprint_json(x@, y@),
{
    let crv = json_string("P-256");
    let kty = json_string("EC");
    let quoted_x = json_string(x);
    let quoted_y = json_string(y);
    let mut canonical = "{\"crv\":".to_owned();
    canonical.append(crv.as_str());
    canonical.append(",\"kty\":");
    canonical.append(kty.as_str());
    canonical.append(",\"x\":");
    canonical.append(quoted_x.as_str());
    canonical.append(",\"y\":");
    canonical.append(quoted_y.as_str());
    canonical.append("}");
    canonical
}

/// The string that the member `key` of a JWK holds, which it has to.
fn jwk_str<'a>(member: Option<&'a str>, key: &'static str) -> (r: Result<&'a str, PopError>)
    ensures
        match member {
            Some(text) => r == Ok::<&str, PopError>(text),
            None => r matches Err(e) && e@ == PopErrorView::JwkMissingField(key@),
        },
{
    match member {
        Some(text) => Ok(text),
        None => Err(PopError::JwkMissingField(key)),
    }
}

/// The text that is hashed for the thumbprint of a JWK, where `kty`, `crv`, `x` and `y` are
/// those of its members with these names that are strings.
pub fn thumbprint_of_members(
    is_object: bool,
    kty: Option<&str>,
    crv: Option<&str>,
    x: Option<&str>,
    y: Option<&str>,
) -> (r: Result<String, PopError>)
    ensures
        match thumbprint_text(is_object, text_view(kty), text_view(crv), text_view(x), text_view(y)) {
            Ok(text) => r matches Ok(canonical) && canonical@ == text,
            Err(e) => r matches Err(error) && error@ == e,
        },
{
    if !is_object {
        return Err(PopError::JwkNotObject);
    }
    // Reject a non-EC/P-256 key up front so an unsupported key type is never mistaken
    // for a merely malformed EC key.
    if !same_text(jwk_str(kty, "kty")?, "EC") {
        return Err(PopError::UnsupportedKey);
    }
    if !same_text(jwk_str(crv, "crv")?, "P-256") {
        return Err(PopError::UnsupportedKey);
    }
    let x_text = jwk_str(x, "x")?;
    let y_text = jwk_str(y, "y")?;
    Ok(thumbprint_input(x_text, y_text))
}

/// The thumbprint of a JWK, or why it has none.
pub open spec fn thumbprint_of(jwk: Value) -> Result<Seq<u8>, PopErrorView> {
    match jwk_text(jwk) {
        Ok(text) => Ok(crypto::sha256_of(encode_utf8(text))),
        Err(e) => Err(e),
    }
}

/// Compute the RFC 7638 JWK thumbprint (SHA-256) of an EC P-256 public key.
///
/// Only the required members for an EC key, `crv`, `kty`, `x` and `y`, are hashed, as a
/// JSON object without whitespace and with the members in lexicographic order.
pub fn jwk_thumbprint(jwk: &Value) -> (r: Result<[u8; 32], PopError>)
    ensures
        match thumbprint_of(*jwk) {
            Ok(digest) => r matches Ok(thumbprint) && thumbprint@ == digest,
            Err(e) => r matches Err(error) && error@ == e,
        },
{
    let canonical = thumbprint_of_members(
        is_object(jwk),
        member_text(jwk, "kty"),
        member_text(jwk, "crv"),
        member_text(jwk, "x"),
        member_text(jwk, "y"),
    )?;
    Ok(sha256(canonical.as_str().as_bytes()))
}

/// The Endpoint ID for the digest of a thumbprint.
pub open spec fn endpoint_id(digest: Seq<u8>) -> Seq<char> {
    ENDPOINT_ID_PREFIX@ + hex::hex(digest)
}

/// The Endpoint ID for the digest of a thumbprint: the prefix and 64 lower-case
/// hexadecimal digits.
pub fn endpoint_id_of_digest(digest: &[u8; 32]) -> (r: String)
    ensures
        r@ == endpoint_id(digest@),
        r@.len() == ENDPOINT_ID_PREFIX@.len() + 64,
{
    let digits = hex_encode(digest);
    text::concat2(ENDPOINT_ID_PREFIX, digits.as_str())
}

/// The digest of the thumbprint of a JWK, or why it has none.
pub open spec fn endpoint_digest(jwk: Value) -> Result<Seq<u8>, PopErrorView> {
    match thumbprint_of(jwk) {
        Ok(thumbprint) => Ok(crypto::sha256_of(thumbprint)),
        Err(e) => Err(e),
    }
}

/// The digest of the thumbprint of a JWK.
fn endpoint_digest_of_jwk(jwk: &Value) -> (r: Result<[u8; 32], PopError>)
    ensures
        match endpoint_digest(*jwk) {
            Ok(digest) => r matches Ok(d) && d@ == digest,
            Err(e) => r matches Err(error) && error@ == e,
        },
{
    let thumbprint = jwk_thumbprint(jwk)?;
    Ok(sha256(&thumbprint))
}

/// The Endpoint ID of a JWK, or why it has none.
pub open spec fn endpoint_id_of_jwk(jwk: Value) -> Result<Seq<char>, PopErrorView> {
    match endpoint_digest(jwk) {
        Ok(digest) => Ok(endpoint_id(digest)),
        Err(e) => Err(e),
    }
}

/// Derive the canonical (untruncated) Endpoint ID from an Endpoint JWK: the SHA-256 digest
/// of the JWK thumbprint, which is itself a SHA-256 digest, as `"ep:"` and lower-case
/// hexadecimal digits. Presented as it is, it identifies the JWK.
pub fn endpoint_id_from_jwk(jwk: &Value) -> (r: Result<String, PopError>)
    ensures
        match endpoint_id_of_jwk(*jwk) {
            Ok(text) => r matches Ok(id) && id@ == text && id@.len() == ENDPOINT_ID_PREFIX@.len()
                + 64,
            Err(e) => r matches Err(error) && error@ == e,
        },
        r matches Ok(id) ==> (endpoint_digest(*jwk) matches Ok(digest) && digest.len() == 32
            && identifies(id@, digest)),
{
    let digest = endpoint_digest_of_jwk(jwk)?;
    proof {
        truncations_identify(digest@, endpoint_id(digest@));
    }
    Ok(endpoint_id_of_digest(&digest))
}

/// Whether `digits` can stand in an Endpoint ID that is presented: an even number, from 6
/// to 64, of lower-case hexadecimal digits.
pub open spec fn are_presentable(digits: Seq<char>) -> bool {
    &&& 6 <= digits.len() <= 64
    &&& digits.len() % 2 == 0
    &&& forall|i: int| 0 <= i < digits.len() ==> hex::is_lower_hex(#[trigger] digits[i])
}

/// Whether `presented` is an Endpoint ID, possibly truncated.
pub open spec fn is_presentable(presented: Seq<char>) -> bool {
    &&& ENDPOINT_ID_PREFIX@.is_prefix_of(presented)
    &&& are_presentable(presented.skip(ENDPOINT_ID_PREFIX@.len() as int))
}

/// Whether `presented` is an Endpoint ID, possibly truncated, and its digits are the first
/// ones of those for `digest`.
pub open spec fn identifies(presented: Seq<char>, digest: Seq<u8>) -> bool {
    is_presentable(presented) && presented.is_prefix_of(endpoint_id(digest))
}

/// Whether `part` stands at the front of `whole`.
fn starts_with(whole: &[char], part: &[char]) -> (r: bool)
    ensures
        r == part@.is_prefix_of(whole@),
{
    if whole.len() < part.len() {
        return false;
    }
    let mut i: usize = 0;
    while i < part.len()
        invariant
            i <= part@.len() <= whole@.len(),
            forall|k: int| 0 <= k < i ==> part@[k] == whole@[k],
        decreases part@.len() - i,
    {
        if whole[i] != part[i] {
            assert(part@[i as int] != whole@.take(part@.len() as int)[i as int]);
            return false;
        }
        i += 1;
    }
    assert(part@ =~= whole@.take(part@.len() as int));
    true
}

/// Whether `digits` can stand in an Endpoint ID that is presented.
fn check_digits(digits: &[char]) -> (r: bool)
    ensures
        r == are_presentable(digits@),
{
    if digits.len() < 6 || digits.len() > 64 || digits.len() % 2 != 0 {
        return false;
    }
    let mut i: usize = 0;
    while i < digits.len()
        invariant
            i <= digits@.len(),
            forall|k: int| 0 <= k < i ==> hex::is_lower_hex(#[trigger] digits@[k]),
        decreases digits@.len() - i,
    {
        let c = digits[i];
        if !(('0' <= c && c <= '9') || ('a' <= c && c <= 'f')) {
            assert(!hex::is_lower_hex(digits@[i as int]));
            return false;
        }
        i += 1;
    }
    true
}

/// Whether `presented` is an Endpoint ID, possibly truncated: `"ep:"` and an even number,
/// from 6 to 64, of lower-case hexadecimal digits.
pub fn check_presented(presented: &str) -> (r: bool)
    ensures
        r == is_presentable(presented@),
{
    let chars = text::chars_of(presented);
    let prefix = text::chars_of(ENDPOINT_ID_PREFIX);
    if !starts_with(&chars, &prefix) {
        return false;
    }
    let total: usize = chars.len();
    let digits = slice_subrange(chars.as_slice(), prefix.len(), total);
    assert(digits@ =~= presented@.skip(ENDPOINT_ID_PREFIX@.len() as int));
    check_digits(digits)
}

/// Whether `presented` is an Endpoint ID, possibly truncated, for the digest of a
/// thumbprint.
pub fn presented_identifies(presented: &str, digest: &[u8; 32]) -> (r: bool)
    ensures
        r == identifies(presented@, digest@),
{
    if !check_presented(presented) {
        return false;
    }
    let full = endpoint_id_of_digest(digest);
    starts_with(&text::chars_of(full.as_str()), &text::chars_of(presented))
}

/// Whether what is presented identifies a JWK, or why that cannot be told.
pub open spec fn match_of(presented: Seq<char>, jwk: Value) -> Result<bool, PopErrorView> {
    if !is_presentable(presented) {
        Ok(false)
    } else {
        match endpoint_digest(jwk) {
            Ok(digest) => Ok(identifies(presented, digest)),
            Err(e) => Err(e),
        }
    }
}

/// Check that a presented Endpoint ID identifies the given JWK.
///
/// An Endpoint ID may be presented truncated to its leading 6 to 64 hexadecimal digits, an
/// even number of them. Anything else does not match, whatever the JWK is.
pub fn endpoint_id_matches(presented: &str, jwk: &Value) -> (r: Result<bool, PopError>)
    ensures
        match match_of(presented@, *jwk) {
            Ok(expected) => r matches Ok(b) && b == expected,
            Err(e) => r matches Err(error) && error@ == e,
        },
        endpoint_digest(*jwk) matches Ok(digest) ==> is_presentable(presented@) ==> digest.len()
            == 32,
{
    if !check_presented(presented) {
        return Ok(false);
    }
    let digest = endpoint_digest_of_jwk(jwk)?;
    Ok(presented_identifies(presented, &digest))
}

/// The canonical request string: five lines and the base64url text of the body's digest.
pub open spec fn canonical_request(
    method: Seq<char>,
    path_with_query: Seq<char>,
    endpoint_id: Seq<char>,
    timestamp: Seq<char>,
    nonce: Seq<char>,
    body_digest: Seq<u8>,
) -> Seq<char> {
    method + "\n"@ + path_with_query + "\n"@ + endpoint_id + "\n"@ + timestamp + "\n"@ + nonce
        + "\n"@ + base64url::base64url(body_digest)
}

/// The canonical request string for a request with this body.
pub open spec fn canonical_request_for(
    method: Seq<char>,
    path_with_query: Seq<char>,
    endpoint_id: Seq<char>,
    timestamp: Seq<char>,
    nonce: Seq<char>,
    body: Seq<u8>,
) -> Seq<char> {
    canonical_request(
        method,
        path_with_query,
        endpoint_id,
        timestamp,
        nonce,
        crypto::sha256_of(body),
    )
}

/// The canonical request string for a request whose body has this digest.
pub fn canonical_pop_string_of_digest(
    method: &str,
    path_with_query: &str,
    endpoint_id: &str,
    timestamp: &str,
    nonce: &str,
    body_digest: &[u8; 32],
) -> (r: String)
    ensures
        r@ == canonical_request(
            method@,
            path_with_query@,
            endpoint_id@,
            timestamp@,
            nonce@,
            body_digest@,
        ),
{
    let body_hash = base64url::encode(body_digest);
    let mut canonical = method.to_owned();
    canonical.append("\n");
    canonical.append(path_with_query);
    canonical.append("\n");
    canonical.append(endpoint_id);
    canonical.append("\n");
    canonical.append(timestamp);
    canonical.append("\n");
    canonical.append(nonce);
    canonical.append("\n");
    canonical.append(body_hash.as_str());
    canonical
}

/// Build the canonical request string.
///
/// ```text
/// <HTTP-METHOD>\n
/// <path-with-query>\n
/// <X-Endpoint-Id>\n
/// <X-PoP-Timestamp>\n
/// <X-PoP-Nonce>\n
/// BASE64URL(SHA256(request-body))
/// ```
///
/// `body` is hashed even when empty, and the final line carries no trailing newline.
pub fn canonical_pop_string(
    method: &str,
    path_with_query: &str,
    endpoint_id: &str,
    timestamp: &str,
    nonce: &str,
    body: &[u8],
) -> (r: String)
    ensures
        r@ == canonical_request_for(
            method@,
            path_with_query@,
            endpoint_id@,
            timestamp@,
            nonce@,
            body@,
        ),
        crypto::sha256_of(body@).len() == 32,
        base64url::base64url(crypto::sha256_of(body@)).len() == 43,
{
    let digest = sha256(body);
    proof {
        base64url::base64url_length(digest@);
    }
    canonical_pop_string_of_digest(method, path_with_query, endpoint_id, timestamp, nonce, &digest)
}

/// The signature, in fixed form, that `bytes` stand for, where `der` is what they stand
/// for in ASN.1 DER: the fixed form takes precedence.
pub open spec fn signature_in(bytes: Seq<u8>, der: Option<Seq<u8>>) -> Result<
    Seq<u8>,
    PopErrorView,
> {
    if crypto::is_fixed_signature(bytes) {
        Ok(bytes)
    } else {
        match der {
            Some(signature) => Ok(signature),
            None => Err(PopErrorView::SignatureMalformed),
        }
    }
}

/// The signature, in fixed form, that the base64url text `encoded` stands for.
pub open spec fn signature_of(encoded: Seq<char>) -> Result<Seq<u8>, PopErrorView> {
    match base64url::base64url_bytes(encoded) {
        Some(bytes) => signature_in(bytes, crypto::der_signature_of(bytes)),
        None => Err(PopErrorView::SignatureEncoding),
    }
}

/// What comes of verifying the signature `encoded` of `message` with a JWK.
pub open spec fn pop_verdict(jwk: Value, message: Seq<char>, encoded: Seq<char>) -> Result<
    (),
    PopErrorView,
> {
    match crypto::jwk_public_key(json::json_text(jwk)) {
        Some(key) => verdict(key, message, encoded),
        None => Err(PopErrorView::InvalidPublicKey("crypto error"@)),
    }
}

/// What comes of verifying the signature `encoded` of `message` with a key.
pub open spec fn verdict(key: Seq<u8>, message: Seq<char>, encoded: Seq<char>) -> Result<
    (),
    PopErrorView,
> {
    match signature_of(encoded) {
        Ok(signature) => if crypto::signed_by(key, encode_utf8(message), signature) {
            Ok(())
        } else {
            Err(PopErrorView::VerificationFailed)
        },
        Err(e) => Err(e),
    }
}

/// The value of optional bytes.
pub open spec fn bytes_view(bytes: Option<Vec<u8>>) -> Option<Seq<u8>> {
    match bytes {
        Some(b) => Some(b@),
        None => None,
    }
}

/// The signature, in fixed form, that `bytes` stand for, where `der` is what they stand
/// for in ASN.1 DER.
pub fn select_signature(bytes: &[u8], der: Option<Vec<u8>>) -> (r: Result<Vec<u8>, PopError>)
    ensures
        match signature_in(bytes@, bytes_view(der)) {
            Ok(expected) => r matches Ok(signature) && signature@ == expected,
            Err(e) => r matches Err(error) && error@ == e,
        },
{
    match fixed_signature(bytes) {
        Some(signature) => Ok(signature),
        None => match der {
            Some(signature) => Ok(signature),
            None => Err(PopError::SignatureMalformed),
        },
    }
}

/// Verify a PoP signature over `canonical` using a public key in SEC1 form.
pub fn verify_with_key(key: &[u8], canonical: &str, signature_b64url: &str) -> (r: Result<
    (),
    PopError,
>)
    ensures
        match verdict(key@, canonical@, signature_b64url@) {
            Ok(_) => r is Ok,
            Err(e) => r matches Err(error) && error@ == e,
        },
{
    let sig_bytes = match base64url::decode(signature_b64url) {
        Some(bytes) => bytes,
        None => return Err(PopError::SignatureEncoding),
    };
    proof {
        base64url::base64url_round_trip(sig_bytes@);
    }
    let signature = select_signature(&sig_bytes, der_signature(&sig_bytes))?;
    if verify(key, canonical.as_bytes(), &signature) {
        Ok(())
    } else {
        Err(PopError::VerificationFailed)
    }
}

/// Verify a PoP signature over `canonical` using the Endpoint's JWK.
///
/// The signature must be an ECDSA P-256 / SHA-256 signature, base64url-encoded, in either
/// 64-byte fixed (IEEE P1363 `r || s`, as produced by WebCrypto and JWS ES256) or ASN.1 DER
/// form. Returns `Ok(())` on success.
pub fn verify_pop(jwk: &Value, canonical: &str, signature_b64url: &str) -> (r: Result<
    (),
    PopError,
>)
    ensures
        match pop_verdict(*jwk, canonical@, signature_b64url@) {
            Ok(_) => r is Ok,
            Err(e) => r matches Err(error) && error@ == e,
        },
{
    let jwk_json = value_text(jwk);
    match public_key_from_jwk(jwk_json.as_str()) {
        Ok(key) => verify_with_key(&key, canonical, signature_b64url),
        Err(reason) => Err(PopError::InvalidPublicKey(reason)),
    }
}

/// The thumbprint of a JWK depends on its members `kty`, `crv`, `x` and `y` alone.
pub proof fn thumbprint_ignores_other_members(a: Value, b: Value)
    requires
        json::json_is_object(a) == json::json_is_object(b),
        member(a, "kty"@) == member(b, "kty"@),
        member(a, "crv"@) == member(b, "crv"@),
        member(a, "x"@) == member(b, "x"@),
        member(a, "y"@) == member(b, "y"@),
    ensures
        thumbprint_of(a) == thumbprint_of(b),
        endpoint_digest(a) == endpoint_digest(b),
{
}

/// Two keys whose thumbprints are taken of the same bytes are the same: they have the same
/// `x` and the same `y`.
pub proof fn thumbprint_input_is_injective(
    x1: Seq<char>,
    y1: Seq<char>,
    x2: Seq<char>,
    y2: Seq<char>,
)
    requires
        encode_utf8(thumbprint_json(x1, y1)) == encode_utf8(thumbprint_json(x2, y2)),
    ensures
        x1 == x2,
        y1 == y2,
{
    encode_utf8_decode_utf8(thumbprint_json(x1, y1));
    encode_utf8_decode_utf8(thumbprint_json(x2, y2));
    let front = "{\"crv\":"@ + json::quoted("P-256"@) + ",\"kty\":"@ + json::quoted("EC"@)
        + ",\"x\":"@;
    let n = front.len() as int;
    let mid = ",\"y\":"@;
    let left = json::quoted(x1) + (mid + (json::quoted(y1) + "}"@));
    let right = json::quoted(x2) + (mid + (json::quoted(y2) + "}"@));
    assert(thumbprint_json(x1, y1).skip(n) =~= left);
    assert(thumbprint_json(x2, y2).skip(n) =~= right);
    json::quoted_can_be_read_back(
        x1,
        x2,
        mid + (json::quoted(y1) + "}"@),
        mid + (json::quoted(y2) + "}"@),
    );
    let m = mid.len() as int;
    assert((mid + (json::quoted(y1) + "}"@)).skip(m) =~= json::quoted(y1) + "}"@);
    assert((mid + (json::quoted(y2) + "}"@)).skip(m) =~= json::quoted(y2) + "}"@);
    json::quoted_can_be_read_back(y1, y2, "}"@, "}"@);
}

/// An Endpoint ID identifies its digest, and so does each truncation of it to an even
/// number of digits, 6 at least. Nothing else does.
pub proof fn truncations_identify(digest: Seq<u8>, presented: Seq<char>)
    requires
        digest.len() == 32,
    ensures
        identifies(endpoint_id(digest), digest),
        forall|n: int|
            6 <= n <= 64 && n % 2 == 0 ==> identifies(
                #[trigger] endpoint_id(digest).take(ENDPOINT_ID_PREFIX@.len() + n),
                digest,
            ),
        identifies(presented, digest) ==> exists|n: int|
            6 <= n <= 64 && n % 2 == 0 && presented == #[trigger] endpoint_id(digest).take(
                ENDPOINT_ID_PREFIX@.len() + n,
            ),
{
    let full = endpoint_id(digest);
    let p = ENDPOINT_ID_PREFIX@.len() as int;
    hex::hex_shape(digest);
    assert forall|n: int| 6 <= n <= 64 && n % 2 == 0 implies identifies(
        #[trigger] full.take(p + n),
        digest,
    ) by {
        let digits = full.take(p + n).skip(p);
        assert(digits =~= hex::hex(digest).take(n));
        assert forall|i: int| 0 <= i < digits.len() implies hex::is_lower_hex(
            #[trigger] digits[i],
        ) by {
            assert(digits[i] == hex::hex(digest)[i]);
        }
        assert(ENDPOINT_ID_PREFIX@ =~= full.take(p + n).take(p));
        assert(full.take(p + n) =~= full.take(full.take(p + n).len() as int));
    }
    assert(full.take(p + 64) =~= full);
    if identifies(presented, digest) {
        let n = presented.len() - p;
        assert(presented =~= full.take(p + n));
    }
}

/// Different digests have different Endpoint IDs.
pub proof fn endpoint_id_is_injective(a: Seq<u8>, b: Seq<u8>)
    requires
        endpoint_id(a) == endpoint_id(b),
    ensures
        a == b,
{
    let p = ENDPOINT_ID_PREFIX@.len() as int;
    assert(endpoint_id(a).skip(p) =~= hex::hex(a));
    assert(endpoint_id(b).skip(p) =~= hex::hex(b));
    hex::hex_is_injective(a, b);
}

/// Where no field holds a newline, a canonical request string has six lines, which are the
/// five fields and the text of the body's digest. The last line ends without a newline.
pub proof fn canonical_request_has_six_lines(
    method: Seq<char>,
    path_with_query: Seq<char>,
    endpoint_id: Seq<char>,
    timestamp: Seq<char>,
    nonce: Seq<char>,
    body_digest: Seq<u8>,
)
    requires
        !method.contains('\n'),
        !path_with_query.contains('\n'),
        !endpoint_id.contains('\n'),
        !timestamp.contains('\n'),
        !nonce.contains('\n'),
    ensures
        text::split(
            canonical_request(method, path_with_query, endpoint_id, timestamp, nonce, body_digest),
            '\n',
        ) == seq![
            method,
            path_with_query,
            endpoint_id,
            timestamp,
            nonce,
            base64url::base64url(body_digest),
        ],
        body_digest.len() > 0 ==> canonical_request(
            method,
            path_with_query,
            endpoint_id,
            timestamp,
            nonce,
            body_digest,
        ).last() != '\n',
{
    reveal_strlit("\n");
    let nl = seq!['\n'];
    assert("\n"@ =~= nl);
    let hash = base64url::base64url(body_digest);
    assert forall|i: int| 0 <= i < hash.len() implies #[trigger] hash[i] != '\n' by {
        base64url::base64url_symbols(body_digest, i);
    }
    base64url::base64url_length(body_digest);
    let r5 = nonce + nl + hash;
    let r4 = timestamp + nl + r5;
    let r3 = endpoint_id + nl + r4;
    let r2 = path_with_query + nl + r3;
    let r1 = method + nl + r2;
    let whole = canonical_request(
        method,
        path_with_query,
        endpoint_id,
        timestamp,
        nonce,
        body_digest,
    );
    assert(whole =~= r1);
    text::lemma_split_piece(method, '\n', r2);
    text::lemma_split_piece(path_with_query, '\n', r3);
    text::lemma_split_piece(endpoint_id, '\n', r4);
    text::lemma_split_piece(timestamp, '\n', r5);
    text::lemma_split_piece(nonce, '\n', hash);
    text::lemma_split_single(hash, '\n');
    assert(text::split(whole, '\n') =~= seq![
        method,
        path_with_query,
        endpoint_id,
        timestamp,
        nonce,
        hash,
    ]);
    if body_digest.len() > 0 {
        assert(whole.last() == hash.last());
    }
}

/// Two requests without newlines in their fields for which the same bytes are signed are
/// the same in every field, and their bodies have the same digest.
pub proof fn signed_bytes_fix_the_request(
    a: (Seq<char>, Seq<char>, Seq<char>, Seq<char>, Seq<char>, Seq<u8>),
    b: (Seq<char>, Seq<char>, Seq<char>, Seq<char>, Seq<char>, Seq<u8>),
)
    requires
        !a.0.contains('\n') && !b.0.contains('\n'),
        !a.1.contains('\n') && !b.1.contains('\n'),
        !a.2.contains('\n') && !b.2.contains('\n'),
        !a.3.contains('\n') && !b.3.contains('\n'),
        !a.4.contains('\n') && !b.4.contains('\n'),
        encode_utf8(canonical_request(a.0, a.1, a.2, a.3, a.4, a.5)) == encode_utf8(
            canonical_request(b.0, b.1, b.2, b.3, b.4, b.5),
        ),
    ensures
        a == b,
{
    encode_utf8_decode_utf8(canonical_request(a.0, a.1, a.2, a.3, a.4, a.5));
    encode_utf8_decode_utf8(canonical_request(b.0, b.1, b.2, b.3, b.4, b.5));
    canonical_request_has_six_lines(a.0, a.1, a.2, a.3, a.4, a.5);
    canonical_request_has_six_lines(b.0, b.1, b.2, b.3, b.4, b.5);
    let lines = seq![a.0, a.1, a.2, a.3, a.4, base64url::base64url(a.5)];
    let others = seq![b.0, b.1, b.2, b.3, b.4, base64url::base64url(b.5)];
    assert(lines == others);
    assert(lines[0] == others[0] && lines[1] == others[1] && lines[2] == others[2] && lines[3]
        == others[3] && lines[4] == others[4] && lines[5] == others[5]);
    base64url::base64url_is_injective(a.5, b.5);
}

/// A signature is accepted in its fixed form exactly where it is accepted in a DER form.
pub proof fn both_signature_forms_are_accepted(
    key: Seq<u8>,
    message: Seq<char>,
    fixed: Seq<u8>,
    der: Seq<u8>,
)
    requires
        crypto::is_fixed_signature(fixed),
        !crypto::is_fixed_signature(der),
        crypto::der_signature_of(der) == Some(fixed),
    ensures
        verdict(key, message, base64url::base64url(der)) == verdict(
            key,
            message,
            base64url::base64url(fixed),
        ),
        verdict(key, message, base64url::base64url(fixed)) is Ok <==> crypto::signed_by(
            key,
            encode_utf8(message),
            fixed,
        ),
{
    base64url::base64url_round_trip(fixed);
    base64url::base64url_round_trip(der);
}

} // verus!
