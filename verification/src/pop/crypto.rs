//! SHA-256, and ECDSA signatures over the curve P-256.
use p256::ecdsa::signature::Verifier;
use p256::elliptic_curve::sec1::ToEncodedPoint;
use sha2::{Digest, Sha256};
use vstd::prelude::*;

verus! {

/// The SHA-256 digest of `data`, as `Sha256::digest` of the crate sha2 computes it.
pub uninterp spec fn sha256_of(data: Seq<u8>) -> Seq<u8>;

/// `Sha256::digest` of the crate sha2. The digest is a function of the data; nothing is
/// claimed of that function but that its values have 32 bytes.
#[verifier::external_body]
pub(crate) fn sha256(data: &[u8]) -> (r: [u8; 32])
    ensures
        r@ == sha256_of(data@),
{
    Sha256::digest(data).into()
}

/// The public key, in uncompressed SEC1 form, that `PublicKey::from_jwk_str` of the crate
/// p256 reads from the text of a JWK, if it reads one.
pub uninterp spec fn jwk_public_key(text: Seq<char>) -> Option<Seq<u8>>;

/// `PublicKey::from_jwk_str` of the crate p256. Which key it reads is a function of the
/// text; nothing is claimed of that function. Its error says nothing of the reason.
#[verifier::external_body]
pub(crate) fn public_key_from_jwk(text: &str) -> (r: Result<Vec<u8>, String>)
    ensures
        match r {
            Ok(key) => jwk_public_key(text@) == Some(key@),
            Err(reason) => jwk_public_key(text@) is None && reason@ == "crypto error"@,
        },
{
    match p256::PublicKey::from_jwk_str(text) {
        Ok(key) => Ok(key.to_encoded_point(false).as_bytes().to_vec()),
        Err(e) => Err(e.to_string()),
    }
}

/// The number that `bytes` stand for, the most significant byte first.
pub open spec fn big_endian(bytes: Seq<u8>) -> int
    decreases bytes.len(),
{
    if bytes.len() == 0 {
        0
    } else {
        big_endian(bytes.drop_last()) * 256 + bytes.last()
    }
}

/// The order of the group of the curve P-256.
pub open spec fn p256_order() -> int {
    0xffffffff00000000ffffffffffffffff * (u128::MAX + 1) + 0xbce6faada7179e84f3b9cac2fc632551
}

/// Whether `bytes` are a signature in fixed form: two numbers of 32 bytes, neither of
/// them zero and both below the order of the group.
pub open spec fn is_fixed_signature(bytes: Seq<u8>) -> bool {
    &&& bytes.len() == 64
    &&& 0 < big_endian(bytes.take(32)) < p256_order()
    &&& 0 < big_endian(bytes.skip(32)) < p256_order()
}

/// `Signature::from_slice` of the crate p256 accepts 64 bytes whose two halves, read as
/// big-endian numbers, are both from 1 up to the order of the group, exclusive. The
/// signature is handed on as those bytes.
#[verifier::external_body]
pub(crate) fn fixed_signature(bytes: &[u8]) -> (r: Option<Vec<u8>>)
    ensures
        match r {
            Some(signature) => is_fixed_signature(bytes@) && signature@ == bytes@,
            None => !is_fixed_signature(bytes@),
        },
{
    p256::ecdsa::Signature::from_slice(bytes).ok().map(|signature| signature.to_bytes().to_vec())
}

/// The signature, in fixed form, that `Signature::from_der` of the crate p256 reads from
/// ASN.1 DER bytes, if it reads one.
pub uninterp spec fn der_signature_of(bytes: Seq<u8>) -> Option<Seq<u8>>;

/// `Signature::from_der` of the crate p256. Which signature it reads is a function of the
/// bytes; of that function it is only claimed that its values are signatures.
#[verifier::external_body]
pub(crate) fn der_signature(bytes: &[u8]) -> (r: Option<Vec<u8>>)
    ensures
        match r {
            Some(signature) => der_signature_of(bytes@) == Some(signature@) && is_fixed_signature(
                signature@,
            ),
            None => der_signature_of(bytes@) is None,
        },
{
    p256::ecdsa::Signature::from_der(bytes).ok().map(|signature| signature.to_bytes().to_vec())
}

/// Whether `key` is the SEC1 form of a public key under which `signature`, in fixed form,
/// is a signature of `message`, according to `VerifyingKey::verify` of the crate p256.
pub uninterp spec fn signed_by(key: Seq<u8>, message: Seq<u8>, signature: Seq<u8>) -> bool;

/// `VerifyingKey::verify` of the crate p256, for a key in SEC1 form and a signature in
/// fixed form. Whether it accepts is a function of the three; nothing is claimed of that
/// function.
#[verifier::external_body]
pub(crate) fn verify(key: &[u8], message: &[u8], signature: &[u8]) -> (r: bool)
    requires
        is_fixed_signature(signature@),
    ensures
        r == signed_by(key@, message@, signature@),
{
    match (
        p256::ecdsa::VerifyingKey::from_sec1_bytes(key),
        p256::ecdsa::Signature::from_slice(signature),
    ) {
        (Ok(key), Ok(signature)) => key.verify(message, &signature).is_ok(),
        _ => false,
    }
}

} // verus!
