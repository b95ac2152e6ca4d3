//! The PKCS#12 bundle of a private key and its certificate.
use crate::text;
use openssl::pkcs12::Pkcs12;
use openssl::pkey::PKey;
use openssl::x509::X509;
use vstd::prelude::*;
use vstd::string::*;
use vstd::utf8::*;

verus! {

/// Whether `outcome` is one that may come out when the crate openssl reads the first
/// certificate of `chain` with `X509::from_pem` and the key in `key` with
/// `PKey::private_key_from_pem`, and puts both into one bundle protected by `password` with
/// `Pkcs12Builder::build2`: the bytes of the bundle, or the text of the error of the first
/// of these calls that fails.
pub uninterp spec fn may_bundle(
    outcome: Result<Seq<u8>, Seq<char>>,
    chain: Seq<char>,
    key: Seq<char>,
    password: Seq<char>,
) -> bool;

/// The value of what came of bundling.
pub open spec fn outcome_view(r: Result<Vec<u8>, String>) -> Result<Seq<u8>, Seq<char>> {
    match r {
        Ok(bundle) => Ok(bundle@),
        Err(reason) => Err(reason@),
    }
}

/// Whether `pem` may hold something encrypted: an encrypted PEM block says so in its label or
/// in a header.
pub open spec fn may_be_encrypted(pem: Seq<char>) -> bool {
    text::is_substring(pem, "ENCRYPTED"@)
}

/// `X509::from_pem`, `PKey::private_key_from_pem` and `Pkcs12Builder::build2` of the
/// crate openssl. The bundle is salted at random, and what is accepted depends on the
/// installed OpenSSL, so the outcome is no function of the arguments: it is only said to be
/// one that may come out. When the calls succeed is left unsaid. A password with a NUL in it
/// and texts whose length no C `int` can hold are left out, since the calls panic on them.
/// So is what may be encrypted, since OpenSSL waits at the terminal for its passphrase.
#[verifier::external_body]
fn build_pkcs12(chain: &str, key: &str, password: &str) -> (r: Result<Vec<u8>, String>)
    requires
        encode_utf8(chain@).len() <= i32::MAX,
        encode_utf8(key@).len() <= i32::MAX,
        !may_be_encrypted(chain@),
        !may_be_encrypted(key@),
        !password@.contains('\0'),
    ensures
        may_bundle(outcome_view(r), chain@, key@, password@),
{
    let cert = X509::from_pem(chain.as_bytes()).map_err(|e| e.to_string())?;
    let pkey = PKey::private_key_from_pem(key.as_bytes()).map_err(|e| e.to_string())?;
    let pfx = Pkcs12::builder().pkey(&pkey).cert(&cert).build2(password).map_err(
        |e| e.to_string(),
    )?;
    pfx.to_der().map_err(|e| e.to_string())
}

/// Whether `outcome` may come of bundling the first certificate of `chain` and `key`.
pub open spec fn bundles(
    chain: Seq<char>,
    key: Seq<char>,
    outcome: Result<Seq<u8>, Seq<char>>,
) -> bool {
    if may_be_encrypted(chain) || may_be_encrypted(key) {
        outcome == Err::<Seq<u8>, Seq<char>>("the key or the certificate is encrypted"@)
    } else {
        may_bundle(outcome, chain, key, ""@)
    }
}

/// Bundle a private key and the first certificate of a chain, both in PEM form, without
/// a password. Nothing that may be encrypted is bundled.
///
/// Whether there is a bundle otherwise is for the installed OpenSSL to decide. Its answer is
/// handed on as it is.
pub fn pkcs12_bundle(chain_pem: &str, key_pem: &str) -> (r: Result<Vec<u8>, String>)
    requires
        encode_utf8(chain_pem@).len() <= i32::MAX,
        encode_utf8(key_pem@).len() <= i32::MAX,
    ensures
        bundles(chain_pem@, key_pem@, outcome_view(r)),
{
    if text::contains_text(chain_pem, "ENCRYPTED") || text::contains_text(key_pem, "ENCRYPTED") {
        return Err("the key or the certificate is encrypted".to_owned());
    }
    proof {
        reveal_strlit("");
    }
    build_pkcs12(chain_pem, key_pem, "")
}

/// What is bundled is the chain that is given as the chain and the key that is given as the
/// key, without a password, and nothing in which the word `ENCRYPTED` stands.
pub proof fn bundle_is_of_the_chain_and_the_key(
    chain: Seq<char>,
    key: Seq<char>,
    outcome: Result<Seq<u8>, Seq<char>>,
)
    requires
        bundles(chain, key, outcome),
    ensures
        outcome is Ok ==> may_bundle(outcome, chain, key, Seq::empty()),
        outcome is Ok ==> !(exists|before: Seq<char>, after: Seq<char>|
            #[trigger] (before + "ENCRYPTED"@ + after) == key),
        outcome is Ok ==> !(exists|before: Seq<char>, after: Seq<char>|
            #[trigger] (before + "ENCRYPTED"@ + after) == chain),
        outcome is Err && !may_bundle(outcome, chain, key, Seq::empty()) ==> (exists|
            before: Seq<char>,
            after: Seq<char>,
        |
            #[trigger] (before + "ENCRYPTED"@ + after) == key) || (exists|
            before: Seq<char>,
            after: Seq<char>,
        |
            #[trigger] (before + "ENCRYPTED"@ + after) == chain),
{
    reveal_strlit("");
    assert(""@ =~= Seq::<char>::empty());
    text::substring_is_a_part(key, "ENCRYPTED"@);
    text::substring_is_a_part(chain, "ENCRYPTED"@);
}

} // verus!
