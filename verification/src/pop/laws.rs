//! What the proof-of-possession primitives promise, in terms of their inputs.
use crate::pop;
use crate::pop::base64url;
use crate::pop::crypto;
use crate::pop::hex;
use crate::pop::json;
use crate::pop::{PopError, PopErrorView};
use serde_json::Value;
use vstd::prelude::*;
use vstd::string::*;
use vstd::utf8::*;

verus! {

/// The `n`-th half of a byte string's bytes, the high half of each byte first.
pub open spec fn nibble(bytes: Seq<u8>, n: int) -> int {
    if n % 2 == 0 {
        bytes[n / 2] as int / 16
    } else {
        bytes[n / 2] as int % 16
    }
}

/// Whether the character `c` is the lower-case hexadecimal digit with this value.
pub open spec fn is_digit_for(c: char, value: int) -> bool {
    ('0' <= c <= '9' && c as int - '0' as int == value) || ('a' <= c <= 'f' && c as int - 'a' as int
        + 10 == value)
}

proof fn lemma_hex_nibbles(digest: Seq<u8>)
    ensures
        hex::hex(digest).len() == 2 * digest.len(),
        forall|n: int|
            0 <= n < 2 * digest.len() ==> is_digit_for(
                #[trigger] hex::hex(digest)[n],
                nibble(digest, n),
            ),
{
    hex::hex_reads_back_in_order(digest);
    assert forall|n: int| 0 <= n < 2 * digest.len() implies is_digit_for(
        #[trigger] hex::hex(digest)[n],
        nibble(digest, n),
    ) by {
        let i = n / 2;
        assert(0 <= digest[i] as int / 16 < 16 && 0 <= digest[i] as int % 16 < 16);
        if n % 2 == 0 {
            assert(n == 2 * i);
        } else {
            assert(n == 2 * i + 1);
        }
    }
}

/// An Endpoint ID is `ep:` and the halves of the digest's bytes, from the first to the last,
/// as lower-case hexadecimal digits.
pub proof fn endpoint_id_spells_the_digest(digest: Seq<u8>)
    ensures
        pop::endpoint_id(digest).len() == 3 + 2 * digest.len(),
        pop::endpoint_id(digest)[0] == 'e',
        pop::endpoint_id(digest)[1] == 'p',
        pop::endpoint_id(digest)[2] == ':',
        forall|n: int|
            0 <= n < 2 * digest.len() ==> is_digit_for(
                #[trigger] pop::endpoint_id(digest)[3 + n],
                nibble(digest, n),
            ),
{
    reveal_strlit("ep:");
    lemma_hex_nibbles(digest);
    assert forall|n: int| 0 <= n < 2 * digest.len() implies is_digit_for(
        #[trigger] pop::endpoint_id(digest)[3 + n],
        nibble(digest, n),
    ) by {
        assert(pop::endpoint_id(digest)[3 + n] == hex::hex(digest)[n]);
    }
}

/// What is presented identifies a digest of 32 bytes exactly where it is `ep:` and an even
/// number of digits, from 6 to 64, that are the first halves of the digest's bytes, in order.
pub proof fn presented_digits_are_the_leading_ones(presented: Seq<char>, digest: Seq<u8>)
    requires
        digest.len() == 32,
    ensures
        pop::identifies(presented, digest) <==> {
            &&& 9 <= presented.len() <= 67
            &&& presented.len() % 2 == 1
            &&& presented[0] == 'e' && presented[1] == 'p' && presented[2] == ':'
            &&& forall|n: int|
                0 <= n < presented.len() - 3 ==> is_digit_for(
                    #[trigger] presented[3 + n],
                    nibble(digest, n),
                )
        },
{
    reveal_strlit("ep:");
    endpoint_id_spells_the_digest(digest);
    let full = pop::endpoint_id(digest);
    let right = {
        &&& 9 <= presented.len() <= 67
        &&& presented.len() % 2 == 1
        &&& presented[0] == 'e' && presented[1] == 'p' && presented[2] == ':'
        &&& forall|n: int|
            0 <= n < presented.len() - 3 ==> is_digit_for(
                #[trigger] presented[3 + n],
                nibble(digest, n),
            )
    };
    if pop::identifies(presented, digest) {
        assert(presented =~= full.take(presented.len() as int));
        assert forall|n: int| 0 <= n < presented.len() - 3 implies is_digit_for(
            #[trigger] presented[3 + n],
            nibble(digest, n),
        ) by {
            assert(presented[3 + n] == full[3 + n]);
        }
        assert(presented.skip(3).len() == presented.len() - 3);
    }
    if right {
        assert forall|i: int| 0 <= i < presented.len() implies #[trigger] presented[i] == full[i] by {
            if i >= 3 {
                let n = i - 3;
                assert(is_digit_for(presented[3 + n], nibble(digest, n)));
                assert(is_digit_for(full[3 + n], nibble(digest, n)));
            }
        }
        assert(presented =~= full.take(presented.len() as int));
        let digits = presented.skip(3);
        assert forall|i: int| 0 <= i < digits.len() implies hex::is_lower_hex(#[trigger] digits[i]) by {
            assert(digits[i] == presented[3 + i]);
            assert(is_digit_for(presented[3 + i], nibble(digest, i)));
        }
        assert("ep:"@ =~= presented.take(3));
        assert(pop::are_presentable(digits));
    }
}

/// What may be presented is `ep:` and an even number, from 6 to 64, of digits `0` to `9` and
/// `a` to `f`.
pub proof fn presentable_ids(presented: Seq<char>)
    ensures
        pop::is_presentable(presented) <==> {
            &&& 9 <= presented.len() <= 67
            &&& presented.len() % 2 == 1
            &&& presented[0] == 'e' && presented[1] == 'p' && presented[2] == ':'
            &&& forall|i: int|
                3 <= i < presented.len() ==> ('0' <= #[trigger] presented[i] && presented[i] <= '9')
                    || ('a' <= presented[i] && presented[i] <= 'f')
        },
{
    reveal_strlit("ep:");
    let digits = presented.skip(3);
    let right = {
        &&& 9 <= presented.len() <= 67
        &&& presented.len() % 2 == 1
        &&& presented[0] == 'e' && presented[1] == 'p' && presented[2] == ':'
        &&& forall|i: int|
            3 <= i < presented.len() ==> ('0' <= #[trigger] presented[i] && presented[i] <= '9') || (
            'a' <= presented[i] && presented[i] <= 'f')
    };
    if pop::is_presentable(presented) {
        assert("ep:"@ == presented.take(3));
        assert(presented[0] == presented.take(3)[0] && presented[1] == presented.take(3)[1]
            && presented[2] == presented.take(3)[2]);
        assert forall|i: int| 3 <= i < presented.len() implies ('0' <= #[trigger] presented[i]
            && presented[i] <= '9') || ('a' <= presented[i] && presented[i] <= 'f') by {
            assert(hex::is_lower_hex(digits[i - 3]));
        }
    }
    if right {
        assert("ep:"@ =~= presented.take(3));
        assert forall|i: int| 0 <= i < digits.len() implies hex::is_lower_hex(#[trigger] digits[i]) by {
            assert(digits[i] == presented[i + 3]);
        }
        assert(pop::are_presentable(digits));
    }
}

/// A JWK has a thumbprint exactly where it is an object whose members `kty` and `crv` are `EC`
/// and `P-256` and whose members `x` and `y` are strings.
pub proof fn thumbprint_needs_a_p256_key(
    is_object: bool,
    kty: Option<Seq<char>>,
    crv: Option<Seq<char>>,
    x: Option<Seq<char>>,
    y: Option<Seq<char>>,
)
    ensures
        pop::thumbprint_text(is_object, kty, crv, x, y) is Ok <==> is_object && kty == Some("EC"@)
            && crv == Some("P-256"@) && x is Some && y is Some,
        !is_object ==> pop::thumbprint_text(is_object, kty, crv, x, y) == Err::<
            Seq<char>,
            PopErrorView,
        >(PopErrorView::JwkNotObject),
        is_object && kty is Some && kty != Some("EC"@) ==> pop::thumbprint_text(
            is_object,
            kty,
            crv,
            x,
            y,
        ) == Err::<Seq<char>, PopErrorView>(PopErrorView::UnsupportedKey),
        is_object && kty == Some("EC"@) && crv is Some && crv != Some("P-256"@)
            ==> pop::thumbprint_text(is_object, kty, crv, x, y) == Err::<Seq<char>, PopErrorView>(
            PopErrorView::UnsupportedKey,
        ),
        is_object && kty is None ==> pop::thumbprint_text(is_object, kty, crv, x, y) == Err::<
            Seq<char>,
            PopErrorView,
        >(PopErrorView::JwkMissingField("kty"@)),
        is_object && kty == Some("EC"@) && crv is None ==> pop::thumbprint_text(
            is_object,
            kty,
            crv,
            x,
            y,
        ) == Err::<Seq<char>, PopErrorView>(PopErrorView::JwkMissingField("crv"@)),
        is_object && kty == Some("EC"@) && crv == Some("P-256"@) && x is None
            ==> pop::thumbprint_text(is_object, kty, crv, x, y) == Err::<Seq<char>, PopErrorView>(
            PopErrorView::JwkMissingField("x"@),
        ),
        is_object && kty == Some("EC"@) && crv == Some("P-256"@) && x is Some && y is None
            ==> pop::thumbprint_text(is_object, kty, crv, x, y) == Err::<Seq<char>, PopErrorView>(
            PopErrorView::JwkMissingField("y"@),
        ),
{
}

/// Whether a JSON string literal holds `c` as it is.
pub open spec fn is_plain(c: char) -> bool {
    ' ' <= c && c != '"' && c != '\\'
}

proof fn lemma_plain_is_not_escaped(s: Seq<char>)
    requires
        forall|i: int| 0 <= i < s.len() ==> is_plain(#[trigger] s[i]),
    ensures
        json::escaped(s) == s,
    decreases s.len(),
{
    if s.len() > 0 {
        let rest = s.skip(1);
        assert forall|i: int| 0 <= i < rest.len() implies is_plain(#[trigger] rest[i]) by {
            assert(rest[i] == s[i + 1]);
        }
        lemma_plain_is_not_escaped(rest);
        assert(is_plain(s[0]));
        assert(seq![s[0]] + rest =~= s);
    }
}

/// The text that is hashed for a key holds the curve, the key type, `x` and `y`, in this order
/// and without anything else, for every `x` and `y`.
pub proof fn thumbprint_input_names_all_members(x: Seq<char>, y: Seq<char>)
    ensures
        pop::thumbprint_json(x, y) == "{\"crv\":\"P-256\",\"kty\":\"EC\",\"x\":"@ + json::quoted(x)
            + ",\"y\":"@ + json::quoted(y) + "}"@,
        (forall|i: int| 0 <= i < x.len() ==> is_plain(#[trigger] x[i])) && (forall|i: int|
            0 <= i < y.len() ==> is_plain(#[trigger] y[i])) ==> pop::thumbprint_json(x, y)
            == "{\"crv\":\"P-256\",\"kty\":\"EC\",\"x\":\""@ + x + "\",\"y\":\""@ + y + "\"}"@,
{
    reveal_strlit("{\"crv\":");
    reveal_strlit("P-256");
    reveal_strlit(",\"kty\":");
    reveal_strlit("EC");
    reveal_strlit(",\"x\":");
    reveal_strlit("{\"crv\":\"P-256\",\"kty\":\"EC\",\"x\":");
    reveal_strlit("{\"crv\":\"P-256\",\"kty\":\"EC\",\"x\":\"");
    reveal_strlit(",\"y\":");
    reveal_strlit("\",\"y\":\"");
    reveal_strlit("}");
    reveal_strlit("\"}");
    lemma_plain_is_not_escaped("P-256"@);
    lemma_plain_is_not_escaped("EC"@);
    let front = "{\"crv\":"@ + json::quoted("P-256"@) + ",\"kty\":"@ + json::quoted("EC"@)
        + ",\"x\":"@;
    assert(front =~= "{\"crv\":\"P-256\",\"kty\":\"EC\",\"x\":"@);
    if (forall|i: int| 0 <= i < x.len() ==> is_plain(#[trigger] x[i])) && (forall|i: int|
        0 <= i < y.len() ==> is_plain(#[trigger] y[i])) {
        lemma_plain_is_not_escaped(x);
        lemma_plain_is_not_escaped(y);
        assert(pop::thumbprint_json(x, y) =~= "{\"crv\":\"P-256\",\"kty\":\"EC\",\"x\":\""@ + x
            + "\",\"y\":\""@ + y + "\"}"@);
    }
}

/// The Endpoint ID of an EC P-256 key is taken of the digest of the digest of the key's
/// members, whatever else the JWK holds.
pub proof fn endpoint_id_hashes_the_key_twice(jwk: Value, x: Seq<char>, y: Seq<char>)
    requires
        json::json_is_object(jwk),
        json::json_strings(jwk).contains_pair("kty"@, "EC"@),
        json::json_strings(jwk).contains_pair("crv"@, "P-256"@),
        json::json_strings(jwk).contains_pair("x"@, x),
        json::json_strings(jwk).contains_pair("y"@, y),
        forall|i: int| 0 <= i < x.len() ==> is_plain(#[trigger] x[i]),
        forall|i: int| 0 <= i < y.len() ==> is_plain(#[trigger] y[i]),
    ensures
        ({
            let input = encode_utf8(
                "{\"crv\":\"P-256\",\"kty\":\"EC\",\"x\":\""@ + x + "\",\"y\":\""@ + y + "\"}"@,
            );
            &&& pop::thumbprint_of(jwk) == Ok::<Seq<u8>, PopErrorView>(crypto::sha256_of(input))
            &&& pop::endpoint_digest(jwk) == Ok::<Seq<u8>, PopErrorView>(
                crypto::sha256_of(crypto::sha256_of(input)),
            )
            &&& pop::endpoint_id_of_jwk(jwk) == Ok::<Seq<char>, PopErrorView>(
                seq!['e', 'p', ':'] + hex::hex(crypto::sha256_of(crypto::sha256_of(input))),
            )
        }),
{
    reveal_strlit("ep:");
    assert("ep:"@ =~= seq!['e', 'p', ':']);
    thumbprint_input_names_all_members(x, y);
}

/// The canonical request string holds the five fields one after the other, each followed by a
/// newline, and then the base64url text of the body's digest, for all fields.
pub proof fn canonical_request_holds_every_field(
    method: Seq<char>,
    path_with_query: Seq<char>,
    endpoint_id: Seq<char>,
    timestamp: Seq<char>,
    nonce: Seq<char>,
    body_digest: Seq<u8>,
)
    ensures
        ({
            let whole = pop::canonical_request(
                method,
                path_with_query,
                endpoint_id,
                timestamp,
                nonce,
                body_digest,
            );
            let a = method.len() as int;
            let b = a + 1 + path_with_query.len();
            let c = b + 1 + endpoint_id.len();
            let d = c + 1 + timestamp.len();
            let e = d + 1 + nonce.len();
            &&& whole.len() == e + 1 + base64url::base64url(body_digest).len()
            &&& whole[a] == '\n' && whole[b] == '\n' && whole[c] == '\n' && whole[d] == '\n'
                && whole[e] == '\n'
            &&& whole.subrange(0, a) == method
            &&& whole.subrange(a + 1, b) == path_with_query
            &&& whole.subrange(b + 1, c) == endpoint_id
            &&& whole.subrange(c + 1, d) == timestamp
            &&& whole.subrange(d + 1, e) == nonce
            &&& whole.skip(e + 1) == base64url::base64url(body_digest)
        }),
{
    reveal_strlit("\n");
    let whole = pop::canonical_request(
        method,
        path_with_query,
        endpoint_id,
        timestamp,
        nonce,
        body_digest,
    );
    let a = method.len() as int;
    let b = a + 1 + path_with_query.len();
    let c = b + 1 + endpoint_id.len();
    let d = c + 1 + timestamp.len();
    let e = d + 1 + nonce.len();
    assert(whole.subrange(0, a) =~= method);
    assert(whole.subrange(a + 1, b) =~= path_with_query);
    assert(whole.subrange(b + 1, c) =~= endpoint_id);
    assert(whole.subrange(c + 1, d) =~= timestamp);
    assert(whole.subrange(d + 1, e) =~= nonce);
    assert(whole.skip(e + 1) =~= base64url::base64url(body_digest));
}

/// A request is accepted exactly where its signature is the base64url text of bytes that are,
/// in fixed form or else in DER form, a signature of the very message under the very key.
pub proof fn accepted_requests_are_signed(key: Seq<u8>, message: Seq<char>, encoded: Seq<char>)
    ensures
        pop::verdict(key, message, encoded) is Ok <==> exists|bytes: Seq<u8>|
            #[trigger] base64url::base64url(bytes) == encoded && if crypto::is_fixed_signature(
                bytes,
            ) {
                crypto::signed_by(key, encode_utf8(message), bytes)
            } else {
                crypto::der_signature_of(bytes) is Some && crypto::signed_by(
                    key,
                    encode_utf8(message),
                    crypto::der_signature_of(bytes)->0,
                )
            },
        (forall|bytes: Seq<u8>| #[trigger] base64url::base64url(bytes) != encoded) ==> pop::verdict(
            key,
            message,
            encoded,
        ) == Err::<(), PopErrorView>(PopErrorView::SignatureEncoding),
        forall|bytes: Seq<u8>| #[trigger]
            base64url::base64url(bytes) == encoded && !crypto::is_fixed_signature(bytes)
                && crypto::der_signature_of(bytes) is None ==> pop::verdict(key, message, encoded)
                == Err::<(), PopErrorView>(PopErrorView::SignatureMalformed),
        pop::verdict(key, message, encoded) is Err ==> pop::verdict(key, message, encoded) == Err::<
            (),
            PopErrorView,
        >(PopErrorView::SignatureEncoding) || pop::verdict(key, message, encoded) == Err::<
            (),
            PopErrorView,
        >(PopErrorView::SignatureMalformed) || pop::verdict(key, message, encoded) == Err::<
            (),
            PopErrorView,
        >(PopErrorView::VerificationFailed),
        pop::verdict(key, message, encoded) == Err::<(), PopErrorView>(
            PopErrorView::VerificationFailed,
        ) ==> exists|bytes: Seq<u8>|
            #[trigger] base64url::base64url(bytes) == encoded && (crypto::is_fixed_signature(bytes)
                || crypto::der_signature_of(bytes) is Some),
{
    if base64url::is_base64url(encoded) {
        let bytes = choose|bytes: Seq<u8>| #[trigger] base64url::base64url(bytes) == encoded;
        base64url::base64url_round_trip(bytes);
        assert forall|other: Seq<u8>| #[trigger] base64url::base64url(other) == encoded implies other
            == bytes by {
            base64url::base64url_is_injective(other, bytes);
        }
    }
}

/// The last line of a canonical request string is the base64url text of the SHA-256 digest of
/// the whole body, and the lines before it are the fields.
pub proof fn canonical_request_ends_with_the_body_hash(
    method: Seq<char>,
    path_with_query: Seq<char>,
    endpoint_id: Seq<char>,
    timestamp: Seq<char>,
    nonce: Seq<char>,
    body: Seq<u8>,
)
    ensures
        pop::canonical_request_for(method, path_with_query, endpoint_id, timestamp, nonce, body)
            == method + seq!['\n'] + path_with_query + seq!['\n'] + endpoint_id + seq!['\n']
            + timestamp + seq!['\n'] + nonce + seq!['\n'] + base64url::base64url(
            crypto::sha256_of(body),
        ),
{
    reveal_strlit("\n");
    assert("\n"@ =~= seq!['\n']);
}

/// A JWK without a usable public key is refused whatever the signature is; with one, a request
/// is accepted exactly where that key signed the very message.
pub proof fn accepted_requests_are_signed_by_the_jwk(
    jwk: Value,
    message: Seq<char>,
    encoded: Seq<char>,
)
    ensures
        pop::pop_verdict(jwk, message, encoded) is Ok <==> exists|bytes: Seq<u8>|
            #[trigger] base64url::base64url(bytes) == encoded && crypto::jwk_public_key(
                json::json_text(jwk),
            ) is Some && if crypto::is_fixed_signature(bytes) {
                crypto::signed_by(
                    crypto::jwk_public_key(json::json_text(jwk))->0,
                    encode_utf8(message),
                    bytes,
                )
            } else {
                crypto::der_signature_of(bytes) is Some && crypto::signed_by(
                    crypto::jwk_public_key(json::json_text(jwk))->0,
                    encode_utf8(message),
                    crypto::der_signature_of(bytes)->0,
                )
            },
        crypto::jwk_public_key(json::json_text(jwk)) is None ==> pop::pop_verdict(
            jwk,
            message,
            encoded,
        ) == Err::<(), PopErrorView>(PopErrorView::InvalidPublicKey("crypto error"@)),
        crypto::jwk_public_key(json::json_text(jwk)) is Some ==> pop::pop_verdict(
            jwk,
            message,
            encoded,
        ) != Err::<(), PopErrorView>(PopErrorView::InvalidPublicKey("crypto error"@)),
{
    if let Some(key) = crypto::jwk_public_key(json::json_text(jwk)) {
        accepted_requests_are_signed(key, message, encoded);
    }
}

/// What is presented matches a JWK exactly where it spells the first 3 to 32 bytes of the
/// JWK's digest. What could not be presented does not match, whatever the JWK is; what could is
/// refused with the JWK's error where that has no digest.
pub proof fn matching_ids_spell_the_digest(presented: Seq<char>, jwk: Value)
    requires
        pop::endpoint_digest(jwk) matches Ok(digest) ==> digest.len() == 32,
    ensures
        pop::match_of(presented, jwk) == Ok::<bool, PopErrorView>(true) <==> (
        pop::endpoint_digest(jwk) matches Ok(digest) && {
            &&& 9 <= presented.len() <= 67
            &&& presented.len() % 2 == 1
            &&& presented[0] == 'e' && presented[1] == 'p' && presented[2] == ':'
            &&& forall|n: int|
                0 <= n < presented.len() - 3 ==> is_digit_for(
                    #[trigger] presented[3 + n],
                    nibble(digest, n),
                )
        }),
        !pop::is_presentable(presented) ==> pop::match_of(presented, jwk) == Ok::<
            bool,
            PopErrorView,
        >(false),
        pop::is_presentable(presented) ==> (pop::match_of(presented, jwk) is Err
            <==> pop::endpoint_digest(jwk) is Err),
        pop::match_of(presented, jwk) matches Err(e) ==> pop::endpoint_digest(jwk) == Err::<
            Seq<u8>,
            PopErrorView,
        >(e),
{
    if let Ok(digest) = pop::endpoint_digest(jwk) {
        presented_digits_are_the_leading_ones(presented, digest);
    }
}

/// The Endpoint ID of a JWK with a digest of 32 bytes matches that JWK, and so does each
/// truncation of it to an even number of digits, 6 at least.
pub proof fn own_endpoint_id_matches(jwk: Value, id: Seq<char>, n: int)
    requires
        pop::endpoint_digest(jwk) matches Ok(digest) && digest.len() == 32,
        pop::endpoint_id_of_jwk(jwk) == Ok::<Seq<char>, PopErrorView>(id),
        6 <= n <= 64,
        n % 2 == 0,
    ensures
        id.len() == 67,
        pop::match_of(id, jwk) == Ok::<bool, PopErrorView>(true),
        pop::match_of(id.take(3 + n), jwk) == Ok::<bool, PopErrorView>(true),
{
    let digest = pop::endpoint_digest(jwk)->Ok_0;
    endpoint_id_spells_the_digest(digest);
    let cut = id.take(3 + n);
    assert forall|k: int| 0 <= k < cut.len() - 3 implies is_digit_for(
        #[trigger] cut[3 + k],
        nibble(digest, k),
    ) by {
        assert(cut[3 + k] == id[3 + k]);
    }
    matching_ids_spell_the_digest(id, jwk);
    matching_ids_spell_the_digest(cut, jwk);
}

/// An error is seen as it is, with the very member or reason that it gives, and its message
/// holds that.
pub proof fn errors_are_seen_as_they_are(error: PopError)
    ensures
        match error {
            PopError::JwkNotObject => error@ is JwkNotObject,
            PopError::JwkMissingField(field) => error@ == PopErrorView::JwkMissingField(field@)
                && error@.text().len() == 33 + field@.len() && error@.text().subrange(
                32,
                32 + field@.len() as int,
            ) == field@,
            PopError::UnsupportedKey => error@ is UnsupportedKey,
            PopError::InvalidPublicKey(reason) => error@ == PopErrorView::InvalidPublicKey(reason@)
                && error@.text().skip(error@.text().len() - reason@.len()) == reason@,
            PopError::SignatureEncoding => error@ is SignatureEncoding,
            PopError::SignatureMalformed => error@ is SignatureMalformed,
            PopError::VerificationFailed => error@ is VerificationFailed,
        },
{
    reveal_strlit("JWK is missing required member `");
    reveal_strlit("`");
    match error {
        PopError::JwkMissingField(field) => {
            assert(error@.text().subrange(32, 32 + field@.len() as int) =~= field@);
        },
        PopError::InvalidPublicKey(reason) => {
            assert(error@.text().skip(error@.text().len() - reason@.len()) =~= reason@);
        },
        _ => {},
    }
}

} // verus!
