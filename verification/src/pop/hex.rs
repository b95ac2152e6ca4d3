//! Lower-case hexadecimal.
use vstd::prelude::*;

verus! {

/// The lower-case hexadecimal digit of `n`.
pub open spec fn hex_digit(n: int) -> char {
    if n < 10 {
        ('0' as int + n) as char
    } else {
        ('a' as int + (n - 10)) as char
    }
}

/// Two lower-case hexadecimal digits per byte, the high half first.
pub open spec fn hex(bytes: Seq<u8>) -> Seq<char> {
    Seq::new(
        2 * bytes.len(),
        |i: int|
            if i % 2 == 0 {
                hex_digit(bytes[i / 2] as int / 16)
            } else {
                hex_digit(bytes[i / 2] as int % 16)
            },
    )
}

/// The lower-case hexadecimal digit of `n`.
fn digit(n: u8) -> (r: char)
    requires
        n < 16,
    ensures
        r == hex_digit(n as int),
{
    if n < 10 {
        (48 + n) as char
    } else {
        (87 + n) as char
    }
}

/// The lower-case hexadecimal form of `bytes`.
pub fn hex_encode(bytes: &[u8]) -> (r: String)
    ensures
        r@ == hex(bytes@),
{
    let mut out = String::new();
    let mut i: usize = 0;
    while i < bytes.len()
        invariant
            i <= bytes@.len(),
            out@ == hex(bytes@.take(i as int)),
        decreases bytes@.len() - i,
    {
        let b = bytes[i];
        out.push(digit(b / 16));
        out.push(digit(b % 16));
        proof {
            let before = hex(bytes@.take(i as int));
            let after = hex(bytes@.take(i + 1));
            assert(after =~= before.push(hex_digit(b as int / 16)).push(hex_digit(b as int % 16)));
        }
        i += 1;
    }
    proof {
        assert(bytes@.take(bytes@.len() as int) =~= bytes@);
    }
    out
}

/// Whether `c` is a lower-case hexadecimal digit.
pub open spec fn is_lower_hex(c: char) -> bool {
    '0' <= c <= '9' || 'a' <= c <= 'f'
}

/// Hexadecimal text consists of lower-case digits, two for each byte.
pub proof fn hex_shape(bytes: Seq<u8>)
    ensures
        hex(bytes).len() == 2 * bytes.len(),
        forall|i: int| 0 <= i < hex(bytes).len() ==> is_lower_hex(#[trigger] hex(bytes)[i]),
{
}

proof fn lemma_hex_digit_injective(m: int, n: int)
    requires
        0 <= m < 16,
        0 <= n < 16,
        hex_digit(m) == hex_digit(n),
    ensures
        m == n,
{
}

/// Different byte strings have different hexadecimal forms.
pub proof fn hex_is_injective(a: Seq<u8>, b: Seq<u8>)
    requires
        hex(a) == hex(b),
    ensures
        a == b,
{
    assert(2 * a.len() == hex(a).len() == hex(b).len() == 2 * b.len());
    assert forall|i: int| 0 <= i < a.len() implies a[i] == b[i] by {
        assert((2 * i + 1) / 2 == i && (2 * i) / 2 == i);
        assert(hex(a)[2 * i] == hex_digit(a[i] as int / 16));
        assert(hex(b)[2 * i] == hex_digit(b[i] as int / 16));
        assert(hex(a)[2 * i + 1] == hex_digit(a[i] as int % 16));
        assert(hex(b)[2 * i + 1] == hex_digit(b[i] as int % 16));
        lemma_hex_digit_injective(a[i] as int / 16, b[i] as int / 16);
        lemma_hex_digit_injective(a[i] as int % 16, b[i] as int % 16);
    }
    assert(a =~= b);
}

/// The value of a lower-case hexadecimal digit: its place among all of them.
pub open spec fn lower_hex_value(c: char) -> int {
    if '0' <= c <= '9' {
        c as int - '0' as int
    } else {
        10 + (c as int - 'a' as int)
    }
}

/// Hexadecimal text is read back byte by byte, in their order: the digits at an even position
/// and behind it are lower-case digits, whose values are the high and the low half of the
/// byte with that number.
pub proof fn hex_reads_back_in_order(bytes: Seq<u8>)
    ensures
        hex(bytes).len() == 2 * bytes.len(),
        forall|i: int|
            0 <= i < bytes.len() ==> {
                let high = hex(bytes)[2 * i];
                let low = hex(bytes)[2 * i + 1];
                &&& '0' <= high <= '9' || 'a' <= high <= 'f'
                &&& '0' <= low <= '9' || 'a' <= low <= 'f'
                &&& lower_hex_value(high) == #[trigger] bytes[i] as int / 16
                &&& lower_hex_value(low) == bytes[i] as int % 16
            },
{
    assert forall|i: int| 0 <= i < bytes.len() implies {
        let high = hex(bytes)[2 * i];
        let low = hex(bytes)[2 * i + 1];
        &&& '0' <= high <= '9' || 'a' <= high <= 'f'
        &&& '0' <= low <= '9' || 'a' <= low <= 'f'
        &&& lower_hex_value(high) == #[trigger] bytes[i] as int / 16
        &&& lower_hex_value(low) == bytes[i] as int % 16
    } by {
        assert((2 * i) / 2 == i && (2 * i + 1) / 2 == i);
        assert(hex(bytes)[2 * i] == hex_digit(bytes[i] as int / 16));
        assert(hex(bytes)[2 * i + 1] == hex_digit(bytes[i] as int % 16));
    }
}

/// The text of one byte string behind another is the text of the first followed by that of
/// the second.
pub proof fn hex_of_concatenation(a: Seq<u8>, b: Seq<u8>)
    ensures
        hex(a + b) == hex(a) + hex(b),
{
    let whole = hex(a + b);
    let parts = hex(a) + hex(b);
    assert forall|i: int| 0 <= i < whole.len() implies #[trigger] whole[i] == parts[i] by {
        if i < 2 * a.len() {
            assert((a + b)[i / 2] == a[i / 2]);
        } else {
            let j = i - 2 * a.len();
            assert(j / 2 == i / 2 - a.len() && j % 2 == i % 2);
            assert((a + b)[i / 2] == b[j / 2]);
            assert(parts[i] == hex(b)[j]);
        }
    }
    assert(whole =~= parts);
}

} // verus!
