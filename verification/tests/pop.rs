use base64::engine::general_purpose::URL_SAFE_NO_PAD;
use base64::Engine;
use isekai_util::pop::{
    canonical_pop_string, canonical_pop_string_of_digest, check_presented, endpoint_id_from_jwk,
    endpoint_id_matches, endpoint_id_of_digest, hex_encode, jwk_thumbprint, presented_identifies,
    select_signature, thumbprint_input, thumbprint_of_members, verify_pop, verify_with_key,
    PopError, ENDPOINT_ID_PREFIX,
};
use p256::ecdsa::signature::Signer;
use serde_json::Value;
use sha2::{Digest, Sha256};

/// Build a deterministic signing key and its `cnf`-shaped public JWK.
fn test_key() -> (p256::ecdsa::SigningKey, Value) {
    // Fixed non-zero scalar → deterministic (RFC 6979) signatures, so the
    // whole test is reproducible without an RNG.
    let signing_key = p256::ecdsa::SigningKey::from_slice(&[7u8; 32]).unwrap();
    let public_key = p256::PublicKey::from(*signing_key.verifying_key());
    let jwk: Value = serde_json::from_str(&public_key.to_jwk_string()).unwrap();
    (signing_key, jwk)
}

fn value(text: &str) -> Value {
    serde_json::from_str(text).unwrap()
}

#[test]
fn sha256_empty_body_matches_known_vector() {
    // The last line of the canonical string for an empty body is a fixed,
    // well-known value; this pins the base64url(SHA256("")) encoding.
    let canonical = canonical_pop_string("GET", "/", "ep:abc", "t", "n", b"");
    let last = canonical.rsplit('\n').next().unwrap();
    assert_eq!(last, "47DEQpj8HBSa-_TImW-5JCeuQeRkm5NMpJWZG3hSuFU");
}

#[test]
fn canonical_string_has_six_lines_and_no_trailing_newline() {
    let s = canonical_pop_string(
        "POST",
        "/v1/peer/connect?x=1",
        "ep:f4d9c3",
        "2026-07-13T08:10:00Z",
        "4mQx",
        b"{}",
    );
    assert_eq!(s.lines().count(), 6);
    assert!(!s.ends_with('\n'));
    assert!(s.starts_with("POST\n/v1/peer/connect?x=1\nep:f4d9c3\n"));
}

#[test]
fn canonical_string_is_made_of_its_fields() {
    assert_eq!(
        canonical_pop_string_of_digest("GET", "/p", "ep:abc", "t", "n", &[0; 32]),
        "GET\n/p\nep:abc\nt\nn\nAAAAAAAAAAAAAAAAAAAAAAAAAAAAAAAAAAAAAAAAAAA"
    );
    assert_eq!(
        canonical_pop_string_of_digest("", "", "", "", "", &[255; 32]),
        "\n\n\n\n\n__________________________________________8"
    );
}

#[test]
fn thumbprint_uses_rfc7638_canonical_ordering() {
    let (_sk, jwk) = test_key();
    let crv = jwk["crv"].as_str().unwrap();
    let kty = jwk["kty"].as_str().unwrap();
    let x = jwk["x"].as_str().unwrap();
    let y = jwk["y"].as_str().unwrap();
    // Independently constructed canonical form (members in lexicographic
    // order, no whitespace) must hash to the same digest.
    let expected_canonical = format!(r#"{{"crv":"{crv}","kty":"{kty}","x":"{x}","y":"{y}"}}"#);
    let expected: [u8; 32] = Sha256::digest(expected_canonical.as_bytes()).into();
    assert_eq!(jwk_thumbprint(&jwk).unwrap(), expected);
}

#[test]
fn thumbprint_rejects_non_ec_key() {
    let rsa = value(r#"{ "kty": "RSA", "n": "aa", "e": "AQAB" }"#);
    assert!(matches!(
        jwk_thumbprint(&rsa),
        Err(PopError::UnsupportedKey)
    ));
    let missing = value(r#"{ "kty": "EC", "crv": "P-256", "x": "aa" }"#);
    assert!(matches!(
        jwk_thumbprint(&missing),
        Err(PopError::JwkMissingField("y"))
    ));
}

#[test]
fn thumbprint_tells_what_is_wrong() {
    let wrong = |text: &str| jwk_thumbprint(&value(text)).unwrap_err().message();
    assert_eq!(wrong("[]"), "JWK is not a JSON object");
    assert_eq!(wrong("{}"), "JWK is missing required member `kty`");
    assert_eq!(
        wrong(r#"{"kty":1}"#),
        "JWK is missing required member `kty`"
    );
    assert_eq!(
        wrong(r#"{"kty":"EC"}"#),
        "JWK is missing required member `crv`"
    );
    assert_eq!(
        wrong(r#"{"kty":"EC","crv":"P-384"}"#),
        "unsupported key: expected an EC P-256 JWK"
    );
    assert_eq!(
        wrong(r#"{"kty":"EC","crv":"P-256","y":"b"}"#),
        "JWK is missing required member `x`"
    );
}

#[test]
fn thumbprint_members_decide() {
    assert_eq!(
        thumbprint_of_members(true, Some("EC"), Some("P-256"), Some("a"), Some("b")).unwrap(),
        r#"{"crv":"P-256","kty":"EC","x":"a","y":"b"}"#
    );
    assert!(matches!(
        thumbprint_of_members(false, Some("EC"), Some("P-256"), Some("a"), Some("b")),
        Err(PopError::JwkNotObject)
    ));
    assert!(matches!(
        thumbprint_of_members(true, Some("oct"), None, None, None),
        Err(PopError::UnsupportedKey)
    ));
}

#[test]
fn thumbprint_values_are_escaped() {
    assert_eq!(
        thumbprint_input("\"\\\u{8}\t\n\u{c}\r\u{0}\u{1f}\u{7f}é", "/"),
        "{\"crv\":\"P-256\",\"kty\":\"EC\",\"x\":\"\\\"\\\\\\b\\t\\n\\f\\r\\u0000\\u001f\u{7f}é\",\"y\":\"/\"}"
    );
}

#[test]
fn thumbprint_ignores_other_members() {
    let plain = value(r#"{"kty":"EC","crv":"P-256","x":"a","y":"b"}"#);
    let more = value(r#"{"y":"b","kid":"k","x":"a","crv":"P-256","use":"sig","kty":"EC"}"#);
    assert_eq!(
        jwk_thumbprint(&plain).unwrap(),
        jwk_thumbprint(&more).unwrap()
    );
}

#[test]
fn endpoint_id_is_stable_and_prefixed() {
    let (_sk, jwk) = test_key();
    let id = endpoint_id_from_jwk(&jwk).unwrap();
    assert!(id.starts_with("ep:"));
    assert_eq!(id.len(), ENDPOINT_ID_PREFIX.len() + 64); // hex of SHA-256
    assert_eq!(endpoint_id_from_jwk(&jwk).unwrap(), id); // deterministic
}

#[test]
fn endpoint_id_is_the_digest_of_the_thumbprint() {
    let (_sk, jwk) = test_key();
    let digest: [u8; 32] = Sha256::digest(jwk_thumbprint(&jwk).unwrap()).into();
    assert_eq!(
        endpoint_id_from_jwk(&jwk).unwrap(),
        format!("ep:{}", hex_encode(&digest))
    );
    assert_eq!(
        endpoint_id_of_digest(&[0xa9; 32]),
        format!("ep:{}", "a9".repeat(32))
    );
}

#[test]
fn endpoint_id_matches_truncated_prefix() {
    let (_sk, jwk) = test_key();
    let full = endpoint_id_from_jwk(&jwk).unwrap();
    let hex = &full[ENDPOINT_ID_PREFIX.len()..];

    assert!(endpoint_id_matches(&full, &jwk).unwrap());
    assert!(endpoint_id_matches(&format!("ep:{}", &hex[..12]), &jwk).unwrap());
    // Too short (< 6 hex), wrong prefix, and uppercase are all rejected.
    assert!(!endpoint_id_matches("ep:ab", &jwk).unwrap());
    assert!(!endpoint_id_matches("ep:ffffffffffff", &jwk).unwrap());
    assert!(!endpoint_id_matches(&hex[..12], &jwk).unwrap()); // no "ep:"
}

#[test]
fn endpoint_id_matches_every_even_truncation() {
    let digest = [0x3c; 32];
    let full = endpoint_id_of_digest(&digest);
    for n in 0..=64 {
        let presented = &full[..3 + n];
        assert_eq!(
            presented_identifies(presented, &digest),
            n >= 6 && n % 2 == 0,
            "{presented}"
        );
    }
    assert!(!presented_identifies(&format!("{full}3c"), &digest));
    assert!(!presented_identifies("ep:3C3C3C", &digest));
    assert!(!presented_identifies("ep:3c3c3d", &digest));
}

#[test]
fn presented_id_is_checked_before_the_key() {
    let no_key = value("[]");
    assert!(!endpoint_id_matches("ep:ab", &no_key).unwrap());
    assert!(!endpoint_id_matches("ep:ééé", &no_key).unwrap());
    assert!(matches!(
        endpoint_id_matches("ep:abcdef", &no_key),
        Err(PopError::JwkNotObject)
    ));
    assert!(check_presented("ep:abcdef"));
    assert!(!check_presented("abcdef"));
    assert!(!check_presented("ep"));
}

#[test]
fn hex_has_two_digits_per_byte() {
    assert_eq!(hex_encode(&[0x00, 0x0f, 0xa0, 0xff]), "000fa0ff");
    assert_eq!(hex_encode(&[]), "");
}

#[test]
fn verify_pop_accepts_valid_p1363_signature() {
    let (signing_key, jwk) = test_key();
    let endpoint_id = endpoint_id_from_jwk(&jwk).unwrap();
    let canonical = canonical_pop_string(
        "POST",
        "/v1/peer/connect",
        &endpoint_id,
        "2026-07-13T08:40:00Z",
        "nonce-abc",
        b"{\"capability\":\"cap_x\"}",
    );
    let signature: p256::ecdsa::Signature = signing_key.sign(canonical.as_bytes());
    let sig_b64 = URL_SAFE_NO_PAD.encode(signature.to_bytes());

    assert!(verify_pop(&jwk, &canonical, &sig_b64).is_ok());
}

#[test]
fn verify_pop_accepts_der_signature() {
    let (signing_key, jwk) = test_key();
    let canonical = canonical_pop_string("GET", "/v1/peer/connections/x", "ep:a", "t", "n", b"");
    let signature: p256::ecdsa::Signature = signing_key.sign(canonical.as_bytes());
    let sig_b64 = URL_SAFE_NO_PAD.encode(signature.to_der().as_bytes());

    assert!(verify_pop(&jwk, &canonical, &sig_b64).is_ok());
}

#[test]
fn verify_pop_rejects_tampered_message_and_signature() {
    let (signing_key, jwk) = test_key();
    let canonical = canonical_pop_string("POST", "/v1/peer/connect", "ep:a", "t", "n", b"body");
    let signature: p256::ecdsa::Signature = signing_key.sign(canonical.as_bytes());
    let sig_b64 = URL_SAFE_NO_PAD.encode(signature.to_bytes());

    // Tampered canonical string → verification fails.
    let tampered = canonical.replacen("POST", "GET", 1);
    assert!(matches!(
        verify_pop(&jwk, &tampered, &sig_b64),
        Err(PopError::VerificationFailed)
    ));

    // Flipped signature byte → still fails (as verification, not a parse
    // error, since the length stays valid).
    let mut raw = signature.to_bytes();
    raw[0] ^= 0x01;
    let bad_b64 = URL_SAFE_NO_PAD.encode(raw);
    assert!(verify_pop(&jwk, &canonical, &bad_b64).is_err());

    // Non-base64url signature.
    assert!(matches!(
        verify_pop(&jwk, &canonical, "not*base64*"),
        Err(PopError::SignatureEncoding)
    ));
}

#[test]
fn verify_pop_rejects_what_is_no_key() {
    let err = verify_pop(&value(r#"{"kty":"EC"}"#), "text", "not*base64*").unwrap_err();
    assert_eq!(err.message(), "invalid JWK public key: crypto error");
    assert!(matches!(err, PopError::InvalidPublicKey(_)));
}

#[test]
fn verify_pop_rejects_what_is_no_signature() {
    let (_sk, jwk) = test_key();
    let refused = |bytes: &[u8]| {
        verify_pop(&jwk, "text", &URL_SAFE_NO_PAD.encode(bytes))
            .unwrap_err()
            .message()
    };
    assert_eq!(refused(b""), "PoP signature is malformed");
    // 64 bytes, but both numbers are zero, or beyond the order of the group.
    assert_eq!(refused(&[0; 64]), "PoP signature is malformed");
    assert_eq!(refused(&[255; 64]), "PoP signature is malformed");
    assert_eq!(refused(&[1; 64]), "PoP signature verification failed");
    assert_eq!(refused(&[1; 63]), "PoP signature is malformed");
}

#[test]
fn signature_numbers_are_below_the_order_of_the_group() {
    let order: [u8; 32] = [
        0xff, 0xff, 0xff, 0xff, 0x00, 0x00, 0x00, 0x00, 0xff, 0xff, 0xff, 0xff, 0xff, 0xff, 0xff,
        0xff, 0xbc, 0xe6, 0xfa, 0xad, 0xa7, 0x17, 0x9e, 0x84, 0xf3, 0xb9, 0xca, 0xc2, 0xfc, 0x63,
        0x25, 0x51,
    ];
    let mut signature = [order, order].concat();
    assert!(select_signature(&signature, None).is_err());
    signature[31] -= 1;
    assert!(select_signature(&signature, None).is_err());
    signature[63] -= 1;
    assert_eq!(select_signature(&signature, None).unwrap(), signature);
}

#[test]
fn fixed_form_takes_precedence() {
    let fixed = [1u8; 64];
    let der = vec![2u8; 64];
    assert_eq!(
        select_signature(&fixed, Some(der.clone())).unwrap(),
        fixed.to_vec()
    );
    assert_eq!(select_signature(&[1; 63], Some(der.clone())).unwrap(), der);
    assert!(matches!(
        select_signature(&[1; 63], None),
        Err(PopError::SignatureMalformed)
    ));
}

#[test]
fn signature_text_is_strict_base64url() {
    let (signing_key, _) = test_key();
    let key = signing_key.verifying_key().to_encoded_point(false);
    let signature: p256::ecdsa::Signature = signing_key.sign(b"text");
    let good = URL_SAFE_NO_PAD.encode(signature.to_bytes());
    assert!(verify_with_key(key.as_bytes(), "text", &good).is_ok());
    // Padding, and a last character with stray bits.
    assert!(matches!(
        verify_with_key(key.as_bytes(), "text", &format!("{good}==")),
        Err(PopError::SignatureEncoding)
    ));
    assert!(matches!(
        verify_with_key(key.as_bytes(), "text", "AB"),
        Err(PopError::SignatureEncoding)
    ));
    assert!(matches!(
        verify_with_key(key.as_bytes(), "text", "AA"),
        Err(PopError::SignatureMalformed)
    ));
    assert_eq!(
        PopError::SignatureEncoding.message(),
        "PoP signature is not valid base64url"
    );
}

#[test]
fn different_requests_have_different_canonical_strings() {
    let fields = ["GET", "/p", "ep:abc", "t", "n"];
    let plain = |f: [&str; 5], body: &[u8]| canonical_pop_string(f[0], f[1], f[2], f[3], f[4], body);
    let whole = plain(fields, b"body");
    for i in 0..5 {
        let mut other = fields;
        other[i] = "x";
        assert_ne!(plain(other, b"body"), whole);
    }
    assert_ne!(plain(fields, b"other"), whole);
}

#[test]
fn different_keys_have_different_inputs() {
    // The quotation marks inside a value cannot be taken for those around it.
    assert_ne!(
        thumbprint_input("a\",\"y\":\"b", "c"),
        thumbprint_input("a", "b\",\"y\":\"c")
    );
    assert_ne!(thumbprint_input("a", "b"), thumbprint_input("b", "a"));
    assert_ne!(endpoint_id_of_digest(&[1; 32]), endpoint_id_of_digest(&[2; 32]));
}
