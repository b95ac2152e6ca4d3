//! Base64url without padding.
use base64::engine::general_purpose::URL_SAFE_NO_PAD;
use base64::Engine;
use vstd::prelude::*;

verus! {

/// The character for a number below 64.
pub open spec fn symbol(n: int) -> char {
    if n < 26 {
        ('A' as int + n) as char
    } else if n < 52 {
        ('a' as int + (n - 26)) as char
    } else if n < 62 {
        ('0' as int + (n - 52)) as char
    } else if n == 62 {
        '-'
    } else {
        '_'
    }
}

/// The base64url text of `bytes`, without padding: four characters for three bytes, and
/// as many as it takes for what is left.
pub open spec fn base64url(bytes: Seq<u8>) -> Seq<char>
    decreases bytes.len(),
{
    if bytes.len() == 0 {
        seq![]
    } else if bytes.len() == 1 {
        seq![symbol(bytes[0] as int / 4), symbol(bytes[0] as int % 4 * 16)]
    } else if bytes.len() == 2 {
        seq![
            symbol(bytes[0] as int / 4),
            symbol(bytes[0] % 4 * 16 + bytes[1] / 16),
            symbol(bytes[1] % 16 * 4),
        ]
    } else {
        seq![
            symbol(bytes[0] as int / 4),
            symbol(bytes[0] % 4 * 16 + bytes[1] / 16),
            symbol(bytes[1] % 16 * 4 + bytes[2] / 64),
            symbol(bytes[2] as int % 64),
        ] + base64url(bytes.skip(3))
    }
}

/// Whether `text` is the base64url text of some bytes.
pub open spec fn is_base64url(text: Seq<char>) -> bool {
    exists|bytes: Seq<u8>| #[trigger] base64url(bytes) == text
}

/// The bytes whose base64url text is `text`, if there are any.
pub open spec fn base64url_bytes(text: Seq<char>) -> Option<Seq<u8>> {
    if is_base64url(text) {
        Some(choose|bytes: Seq<u8>| #[trigger] base64url(bytes) == text)
    } else {
        None
    }
}

/// `Engine::encode` of the crate base64 with its engine `URL_SAFE_NO_PAD`: the base64url
/// text of the bytes, without padding.
#[verifier::external_body]
pub(crate) fn encode(bytes: &[u8; 32]) -> (r: String)
    ensures
        r@ == base64url(bytes@),
{
    URL_SAFE_NO_PAD.encode(bytes)
}

/// `Engine::decode` of the crate base64 with its engine `URL_SAFE_NO_PAD`: the bytes
/// whose base64url text this is, if there are any. Padding, other characters and stray
/// bits at the end are refused.
#[verifier::external_body]
pub(crate) fn decode(text: &str) -> (r: Option<Vec<u8>>)
    ensures
        match r {
            Some(bytes) => base64url(bytes@) == text@,
            None => !is_base64url(text@),
        },
{
    URL_SAFE_NO_PAD.decode(text).ok()
}

/// Two numbers below 64 with the same character are the same.
proof fn lemma_symbol_injective(m: int, n: int)
    requires
        0 <= m < 64,
        0 <= n < 64,
        symbol(m) == symbol(n),
    ensures
        m == n,
{
}

/// The number behind the character at `i` in the first four of a base64url text.
spec fn sextet(bytes: Seq<u8>, i: int) -> int {
    let a = bytes[0] as int;
    let b = if bytes.len() > 1 {
        bytes[1] as int
    } else {
        0
    };
    let c = if bytes.len() > 2 {
        bytes[2] as int
    } else {
        0
    };
    if i == 0 {
        a / 4
    } else if i == 1 {
        a % 4 * 16 + b / 16
    } else if i == 2 {
        b % 16 * 4 + c / 64
    } else {
        c % 64
    }
}

proof fn lemma_first_symbols(bytes: Seq<u8>)
    requires
        bytes.len() > 0,
    ensures
        base64url(bytes)[0] == symbol(sextet(bytes, 0)),
        base64url(bytes)[1] == symbol(sextet(bytes, 1)),
        bytes.len() > 1 ==> base64url(bytes)[2] == symbol(sextet(bytes, 2)),
        bytes.len() > 2 ==> base64url(bytes)[3] == symbol(sextet(bytes, 3)),
        bytes.len() > 2 ==> base64url(bytes).skip(4) == base64url(bytes.skip(3)),
        forall|i: int| 0 <= i < 4 ==> 0 <= #[trigger] sextet(bytes, i) < 64,
{
    if bytes.len() > 2 {
        assert(base64url(bytes).skip(4) =~= base64url(bytes.skip(3)));
    }
}

/// Different bytes have different base64url texts.
pub proof fn base64url_is_injective(a: Seq<u8>, b: Seq<u8>)
    requires
        base64url(a) == base64url(b),
    ensures
        a == b,
    decreases a.len(),
{
    base64url_length(a);
    base64url_length(b);
    assert(a.len() == b.len());
    if a.len() > 0 {
        lemma_first_symbols(a);
        lemma_first_symbols(b);
        lemma_symbol_injective(sextet(a, 0), sextet(b, 0));
        lemma_symbol_injective(sextet(a, 1), sextet(b, 1));
        if a.len() > 1 {
            lemma_symbol_injective(sextet(a, 2), sextet(b, 2));
        }
        if a.len() > 2 {
            lemma_symbol_injective(sextet(a, 3), sextet(b, 3));
            base64url_is_injective(a.skip(3), b.skip(3));
        }
        assert forall|i: int| 0 <= i < a.len() implies a[i] == b[i] by {
            if i >= 3 {
                assert(a.skip(3)[i - 3] == b.skip(3)[i - 3]);
            }
        }
    }
    assert(a =~= b);
}

/// What was encoded is what is decoded.
pub proof fn base64url_round_trip(bytes: Seq<u8>)
    ensures
        base64url_bytes(base64url(bytes)) == Some(bytes),
{
    let text = base64url(bytes);
    let read = choose|b: Seq<u8>| #[trigger] base64url(b) == text;
    base64url_is_injective(bytes, read);
}

/// The length of a base64url text: a character for each six bits, rounded up.
pub proof fn base64url_length(bytes: Seq<u8>)
    ensures
        base64url(bytes).len() == (bytes.len() * 8 + 5) / 6,
    decreases bytes.len(),
{
    if bytes.len() >= 3 {
        base64url_length(bytes.skip(3));
    }
}

/// A base64url text holds letters, digits, `-` and `_` only.
pub proof fn base64url_symbols(bytes: Seq<u8>, i: int)
    requires
        0 <= i < base64url(bytes).len(),
    ensures
        ({
            let c = base64url(bytes)[i];
            'A' <= c <= 'Z' || 'a' <= c <= 'z' || '0' <= c <= '9' || c == '-' || c == '_'
        }),
    decreases bytes.len(),
{
    if bytes.len() >= 3 && i >= 4 {
        base64url_symbols(bytes.skip(3), i - 4);
    }
}

} // verus!
