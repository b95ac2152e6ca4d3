//! IP addresses and their text forms.
//!
//! An IPv4 address is written as four decimal octets without leading zeros,
//! separated by dots. An IPv6 address is written as eight groups of one to four
//! hexadecimal digits separated by colons, of which one run of zero groups may be
//! left out as `::` and the last two may be written as an IPv4 address (RFC 4291,
//! section 2.2).
pub mod laws;

use crate::text;
use vstd::arithmetic::power::*;
use vstd::prelude::*;
use vstd::slice::*;

verus! {

/// An IP address, as the big-endian number that its octets form.
#[derive(Clone, Copy, Debug, PartialEq, Eq, Structural)]
pub enum IpAddress {
    V4(u32),
    V6(u128),
}

/// The number that `digits` form in `base`, the most significant first.
pub open spec fn radix(digits: Seq<int>, base: int) -> int
    decreases digits.len(),
{
    if digits.len() == 0 {
        0
    } else {
        radix(digits.drop_last(), base) * base + digits.last()
    }
}

/// The value of a hexadecimal digit of either case; -1 for any other character.
pub open spec fn digit_value(c: char) -> int {
    if '0' <= c <= '9' {
        c as int - '0' as int
    } else if 'a' <= c <= 'f' {
        c as int - 'a' as int + 10
    } else if 'A' <= c <= 'F' {
        c as int - 'A' as int + 10
    } else {
        -1
    }
}

/// The digit values of `s`.
pub open spec fn digits(s: Seq<char>) -> Seq<int> {
    s.map_values(|c: char| digit_value(c))
}

/// Whether every character of `s` is a digit in `base`.
pub open spec fn all_digits(s: Seq<char>, base: int) -> bool {
    forall|i: int| 0 <= i < s.len() ==> 0 <= digit_value(#[trigger] s[i]) < base
}

/// The octet that `s` writes in decimal: one to three digits, no leading zero.
pub open spec fn octet(s: Seq<char>) -> Option<int> {
    if 1 <= s.len() <= 3 && all_digits(s, 10) && (s.len() > 1 ==> s[0] != '0') && radix(
        digits(s),
        10,
    ) <= 255 {
        Some(radix(digits(s), 10))
    } else {
        None
    }
}

/// The address that `s` writes as four decimal octets.
pub open spec fn ipv4(s: Seq<char>) -> Option<int> {
    let p = text::split(s, '.');
    if p.len() == 4 && (forall|i: int| 0 <= i < 4 ==> octet(#[trigger] p[i]) is Some) {
        Some(radix(p.map_values(|piece: Seq<char>| octet(piece)->0), 256))
    } else {
        None
    }
}

/// The sixteen-bit group that `s` writes: one to four hexadecimal digits.
pub open spec fn group(s: Seq<char>) -> Option<int> {
    if 1 <= s.len() <= 4 && all_digits(s, 16) {
        Some(radix(digits(s), 16))
    } else {
        None
    }
}

/// The groups that the last piece of an IPv6 text writes: one group, or two where
/// an IPv4 address may stand there and does.
pub open spec fn last_groups(s: Seq<char>, v4_tail: bool) -> Option<Seq<int>> {
    if group(s) is Some {
        Some(seq![group(s)->0])
    } else if v4_tail && ipv4(s) is Some {
        Some(seq![ipv4(s)->0 / 65536, ipv4(s)->0 % 65536])
    } else {
        None
    }
}

/// The groups that the pieces `p` write.
pub open spec fn piece_groups(p: Seq<Seq<char>>, v4_tail: bool) -> Option<Seq<int>> {
    if (forall|i: int| 0 <= i < p.len() - 1 ==> group(#[trigger] p[i]) is Some) && last_groups(
        p.last(),
        v4_tail,
    ) is Some {
        Some(
            p.drop_last().map_values(|piece: Seq<char>| group(piece)->0) + last_groups(
                p.last(),
                v4_tail,
            )->0,
        )
    } else {
        None
    }
}

/// The groups that `s` writes, separated by colons; none for the empty text.
pub open spec fn groups(s: Seq<char>, v4_tail: bool) -> Option<Seq<int>> {
    if s.len() == 0 {
        Some(Seq::empty())
    } else {
        piece_groups(text::split(s, ':'), v4_tail)
    }
}

/// The position of the first `::` in `s`, or the length of `s` where there is none.
pub open spec fn first_gap(s: Seq<char>) -> int
    decreases s.len(),
{
    if s.len() == 0 || (s.len() >= 2 && s[0] == ':' && s[1] == ':') {
        0
    } else {
        1 + first_gap(s.drop_first())
    }
}

/// The eight groups that `s` writes as an IPv6 address.
pub open spec fn ipv6_groups(s: Seq<char>) -> Option<Seq<int>> {
    let gap = first_gap(s);
    if gap >= s.len() {
        match groups(s, true) {
            Some(g) => if g.len() == 8 {
                Some(g)
            } else {
                None
            },
            None => None,
        }
    } else {
        match (groups(s.take(gap), false), groups(s.skip(gap + 2), true)) {
            (Some(head), Some(tail)) => if head.len() + tail.len() <= 7 {
                Some(head + Seq::new((8 - head.len() - tail.len()) as nat, |i: int| 0int) + tail)
            } else {
                None
            },
            _ => None,
        }
    }
}

/// The address that `s` writes as IPv6.
pub open spec fn ipv6(s: Seq<char>) -> Option<int> {
    match ipv6_groups(s) {
        Some(g) => Some(radix(g, 65536)),
        None => None,
    }
}

/// The address that `s` writes, in either family.
pub open spec fn ip_literal(s: Seq<char>) -> Option<IpAddress> {
    if ipv4(s) is Some {
        Some(IpAddress::V4(ipv4(s)->0 as u32))
    } else if ipv6(s) is Some {
        Some(IpAddress::V6(ipv6(s)->0 as u128))
    } else {
        None
    }
}

/// The value of a hexadecimal digit of either case.
fn digit_of(c: char) -> (r: Option<u8>)
    ensures
        digit_value(c) >= 0 ==> r == Some(digit_value(c) as u8),
        digit_value(c) < 0 ==> r is None,
        digit_value(c) < 16,
{
    if '0' <= c && c <= '9' {
        Some(c as u8 - 48)
    } else if 'a' <= c && c <= 'f' {
        Some(c as u8 - 87)
    } else if 'A' <= c && c <= 'F' {
        Some(c as u8 - 55)
    } else {
        None
    }
}

proof fn lemma_digits_step(s: Seq<char>, i: int, base: int)
    requires
        0 <= i < s.len(),
    ensures
        radix(digits(s.take(i + 1)), base) == radix(digits(s.take(i)), base) * base + digit_value(
            s[i],
        ),
{
    assert(digits(s.take(i + 1)).drop_last() =~= digits(s.take(i)));
    assert(digits(s.take(i + 1)).last() == digit_value(s[i]));
}

/// The octet that `s` writes in decimal.
fn parse_octet(s: &[char]) -> (r: Option<u8>)
    ensures
        match r {
            Some(v) => octet(s@) == Some(v as int),
            None => octet(s@) is None,
        },
{
    if s.len() == 0 || s.len() > 3 || (s.len() > 1 && s[0] == '0') {
        return None;
    }
    let mut acc: u32 = 0;
    let mut i: usize = 0;
    while i < s.len()
        invariant
            i <= s@.len() <= 3,
            acc == radix(digits(s@.take(i as int)), 10),
            forall|k: int| 0 <= k < i ==> 0 <= digit_value(#[trigger] s@[k]) < 10,
            i == 0 ==> acc == 0,
            i == 1 ==> acc < 10,
            i == 2 ==> acc < 100,
            acc < 1000,
        decreases s@.len() - i,
    {
        match digit_of(s[i]) {
            Some(d) if d < 10 => {
                proof {
                    lemma_digits_step(s@, i as int, 10);
                }
                acc = acc * 10 + d as u32;
            },
            _ => {
                return None;
            },
        }
        i += 1;
    }
    proof {
        assert(s@.take(s@.len() as int) =~= s@);
    }
    if acc > 255 {
        None
    } else {
        Some(acc as u8)
    }
}

/// The sixteen-bit group that `s` writes.
fn parse_group(s: &[char]) -> (r: Option<u16>)
    ensures
        match r {
            Some(v) => group(s@) == Some(v as int),
            None => group(s@) is None,
        },
{
    if s.len() == 0 || s.len() > 4 {
        return None;
    }
    let mut acc: u32 = 0;
    let mut i: usize = 0;
    while i < s.len()
        invariant
            i <= s@.len() <= 4,
            acc == radix(digits(s@.take(i as int)), 16),
            forall|k: int| 0 <= k < i ==> 0 <= digit_value(#[trigger] s@[k]) < 16,
            i == 0 ==> acc == 0,
            i == 1 ==> acc < 16,
            i == 2 ==> acc < 256,
            i == 3 ==> acc < 4096,
            acc < 65536,
        decreases s@.len() - i,
    {
        match digit_of(s[i]) {
            Some(d) => {
                proof {
                    lemma_digits_step(s@, i as int, 16);
                }
                acc = acc * 16 + d as u32;
            },
            None => {
                return None;
            },
        }
        i += 1;
    }
    proof {
        assert(s@.take(s@.len() as int) =~= s@);
    }
    Some(acc as u16)
}

/// The address that `s` writes as four decimal octets.
fn parse_ipv4(s: &[char]) -> (r: Option<u32>)
    ensures
        match r {
            Some(v) => ipv4(s@) == Some(v as int),
            None => ipv4(s@) is None,
        },
{
    let pieces = text::split_chars(s, '.');
    let ghost p = text::split(s@, '.');
    proof {
        assert(p.len() == pieces@.len());
        assert forall|i: int| 0 <= i < p.len() implies p[i] == #[trigger] pieces@[i]@ by {
            assert(text::views(pieces@)[i] == pieces@[i]@);
        }
    }
    if pieces.len() != 4 {
        return None;
    }
    match (
        parse_octet(&pieces[0]),
        parse_octet(&pieces[1]),
        parse_octet(&pieces[2]),
        parse_octet(&pieces[3]),
    ) {
        (Some(a), Some(b), Some(c), Some(d)) => {
            proof {
                let q = p.map_values(|piece: Seq<char>| octet(piece)->0);
                assert(q =~= seq![a as int, b as int, c as int, d as int]);
                lemma_radix4(a as int, b as int, c as int, d as int, 256);
            }
            Some(((a as u32 * 256 + b as u32) * 256 + c as u32) * 256 + d as u32)
        },
        _ => {
            proof {
                assert(octet(p[0]) is None || octet(p[1]) is None || octet(p[2]) is None || octet(
                    p[3],
                ) is None);
            }
            None
        },
    }
}

/// The number that four digits form.
pub proof fn lemma_radix4(a: int, b: int, c: int, d: int, base: int)
    ensures
        radix(seq![a, b, c, d], base) == ((a * base + b) * base + c) * base + d,
{
    reveal_with_fuel(radix, 5);
    let s = seq![a, b, c, d];
    assert(s.drop_last() =~= seq![a, b, c]);
    assert(seq![a, b, c].drop_last() =~= seq![a, b]);
    assert(seq![a, b].drop_last() =~= seq![a]);
    assert(seq![a].drop_last() =~= Seq::<int>::empty());
    assert(radix(Seq::<int>::empty(), base) == 0);
    assert(0 * base == 0);
}

/// The values of a list of groups.
pub open spec fn group_values(v: Seq<u16>) -> Seq<int> {
    v.map_values(|g: u16| g as int)
}

/// The values of a list of octets.
pub open spec fn octet_values(v: Seq<u8>) -> Seq<int> {
    v.map_values(|b: u8| b as int)
}

/// Digits below the base form a number below the power with their count.
pub proof fn lemma_radix_bound(d: Seq<int>, base: int)
    requires
        base > 0,
        forall|i: int| 0 <= i < d.len() ==> 0 <= #[trigger] d[i] < base,
    ensures
        0 <= radix(d, base) < pow(base, d.len()),
    decreases d.len(),
{
    reveal(pow);
    if d.len() > 0 {
        lemma_radix_bound(d.drop_last(), base);
        let high = radix(d.drop_last(), base);
        let low = d.last();
        let cap = pow(base, (d.len() - 1) as nat);
        assert(0 <= high * base + low < base * cap) by (nonlinear_arith)
            requires
                0 <= high < cap,
                0 <= low < base,
        ;
    }
}

/// Sixteen octets, or eight groups, form a number of 128 bits.
pub proof fn lemma_radix_cap(d: Seq<int>, base: int)
    requires
        base == 256 && d.len() <= 16 || base == 65536 && d.len() <= 8,
        forall|i: int| 0 <= i < d.len() ==> 0 <= #[trigger] d[i] < base,
    ensures
        0 <= radix(d, base) <= u128::MAX,
{
    lemma_radix_bound(d, base);
    if base == 256 {
        lemma_pow_increases(256, d.len(), 16);
        reveal_with_fuel(pow, 17);
        assert(pow(256, 16) == 0x1_0000_0000_0000_0000_0000_0000_0000_0000int);
    } else {
        lemma_pow_increases(65536, d.len(), 8);
        reveal_with_fuel(pow, 9);
        assert(pow(65536, 8) == 0x1_0000_0000_0000_0000_0000_0000_0000_0000int);
    }
}

/// The number that up to eight sixteen-bit groups form.
fn number_of_groups(v: &[u16]) -> (r: u128)
    requires
        v@.len() <= 8,
    ensures
        r == radix(group_values(v@), 65536),
{
    let mut acc: u128 = 0;
    let mut i: usize = 0;
    while i < v.len()
        invariant
            i <= v@.len() <= 8,
            acc == radix(group_values(v@.take(i as int)), 65536),
        decreases v@.len() - i,
    {
        proof {
            let next = group_values(v@.take(i + 1));
            assert(next.drop_last() =~= group_values(v@.take(i as int)));
            lemma_radix_cap(next, 65536);
        }
        acc = acc * 65536 + v[i] as u128;
        i += 1;
    }
    proof {
        assert(v@.take(v@.len() as int) =~= v@);
    }
    acc
}

/// The number that up to sixteen octets form.
fn number_of_octets(v: &[u8]) -> (r: u128)
    requires
        v@.len() <= 16,
    ensures
        r == radix(octet_values(v@), 256),
{
    let mut acc: u128 = 0;
    let mut i: usize = 0;
    while i < v.len()
        invariant
            i <= v@.len() <= 16,
            acc == radix(octet_values(v@.take(i as int)), 256),
        decreases v@.len() - i,
    {
        proof {
            let next = octet_values(v@.take(i + 1));
            assert(next.drop_last() =~= octet_values(v@.take(i as int)));
            lemma_radix_cap(next, 256);
        }
        acc = acc * 256 + v[i] as u128;
        i += 1;
    }
    proof {
        assert(v@.take(v@.len() as int) =~= v@);
    }
    acc
}

/// The groups that the last piece of an IPv6 text writes, appended to `out`.
fn push_last_groups(out: &mut Vec<u16>, s: &[char], v4_tail: bool) -> (r: bool)
    ensures
        r == (last_groups(s@, v4_tail) is Some),
        r ==> group_values(final(out)@) == group_values(old(out)@) + last_groups(s@, v4_tail)->0,
{
    if let Some(g) = parse_group(s) {
        out.push(g);
        proof {
            assert(group_values(out@) =~= group_values(old(out)@) + seq![g as int]);
        }
        return true;
    }
    if v4_tail {
        if let Some(v4) = parse_ipv4(s) {
            out.push((v4 / 65536) as u16);
            out.push((v4 % 65536) as u16);
            proof {
                assert(group_values(out@) =~= group_values(old(out)@) + seq![
                    v4 as int / 65536,
                    v4 as int % 65536,
                ]);
            }
            return true;
        }
    }
    false
}

/// The groups that `s` writes, separated by colons.
fn parse_groups(s: &[char], v4_tail: bool) -> (r: Option<Vec<u16>>)
    ensures
        match r {
            Some(v) => groups(s@, v4_tail) == Some(group_values(v@)),
            None => groups(s@, v4_tail) is None,
        },
{
    let mut out: Vec<u16> = Vec::new();
    if s.len() == 0 {
        proof {
            assert(group_values(out@) =~= Seq::<int>::empty());
        }
        return Some(out);
    }
    let pieces = text::split_chars(s, ':');
    let ghost p = text::split(s@, ':');
    proof {
        assert(p.len() == pieces@.len());
        assert forall|i: int| 0 <= i < p.len() implies p[i] == #[trigger] pieces@[i]@ by {
            assert(text::views(pieces@)[i] == pieces@[i]@);
        }
    }
    let last: usize = pieces.len() - 1;
    let mut i: usize = 0;
    while i < last
        invariant
            i <= last,
            last + 1 == pieces@.len(),
            p.len() == pieces@.len(),
            p == text::split(s@, ':'),
            s@.len() > 0,
            forall|k: int| 0 <= k < p.len() ==> p[k] == #[trigger] pieces@[k]@,
            forall|k: int| 0 <= k < i ==> group(#[trigger] p[k]) is Some,
            group_values(out@) == p.take(i as int).map_values(|piece: Seq<char>| group(piece)->0),
        decreases last - i,
    {
        match parse_group(&pieces[i]) {
            Some(g) => {
                let ghost before = group_values(out@);
                out.push(g);
                proof {
                    assert(group_values(out@) =~= before.push(g as int));
                    assert(p.take(i + 1).map_values(|piece: Seq<char>| group(piece)->0)
                        =~= before.push(g as int));
                }
            },
            None => {
                proof {
                    assert(group(p[i as int]) is None);
                }
                return None;
            },
        }
        i += 1;
    }
    proof {
        assert(p.take(last as int) =~= p.drop_last());
        assert(p.last() == pieces@[last as int]@);
    }
    if push_last_groups(&mut out, &pieces[last], v4_tail) {
        Some(out)
    } else {
        None
    }
}

/// What `first_gap` says of the characters before and at the position.
pub proof fn lemma_first_gap(s: Seq<char>)
    ensures
        0 <= first_gap(s) <= s.len(),
        forall|k: int|
            0 <= k < first_gap(s) && k + 1 < s.len() ==> !(#[trigger] s[k] == ':' && s[k + 1] == ':'),
        first_gap(s) < s.len() ==> first_gap(s) + 1 < s.len() && s[first_gap(s)] == ':' && s[
            first_gap(s) + 1] == ':',
    decreases s.len(),
{
    if s.len() == 0 || (s.len() >= 2 && s[0] == ':' && s[1] == ':') {
    } else {
        let rest = s.drop_first();
        lemma_first_gap(rest);
        assert forall|k: int| 0 <= k < first_gap(s) && k + 1 < s.len() implies !(#[trigger] s[k]
            == ':' && s[k + 1] == ':') by {
            if k > 0 {
                assert(rest[k - 1] == s[k]);
                assert(rest[k] == s[k + 1]);
            }
        }
    }
}

/// The position of the first `::` in `s`, or the length of `s` where there is none.
fn find_gap(s: &[char]) -> (r: usize)
    ensures
        r == first_gap(s@),
        r <= s@.len(),
        r < s@.len() ==> r + 2 <= s@.len(),
{
    proof {
        lemma_first_gap(s@);
    }
    let mut i: usize = 0;
    while i < s.len()
        invariant
            i <= s@.len(),
            forall|k: int|
                0 <= k < i && k + 1 < s@.len() ==> !(#[trigger] s@[k] == ':' && s@[k + 1] == ':'),
            first_gap(s@) < s@.len() ==> first_gap(s@) + 1 < s@.len() && s@[first_gap(s@)] == ':'
                && s@[first_gap(s@) + 1] == ':',
            forall|k: int|
                0 <= k < first_gap(s@) && k + 1 < s@.len() ==> !(#[trigger] s@[k] == ':' && s@[k
                    + 1] == ':'),
            0 <= first_gap(s@) <= s@.len(),
        decreases s@.len() - i,
    {
        if i + 1 < s.len() && s[i] == ':' && s[i + 1] == ':' {
            return i;
        }
        i += 1;
    }
    i
}

/// The address that `s` writes as IPv6.
fn parse_ipv6(s: &[char]) -> (r: Option<u128>)
    ensures
        match r {
            Some(v) => ipv6(s@) == Some(v as int),
            None => ipv6(s@) is None,
        },
{
    let gap = find_gap(s);
    if gap == s.len() {
        return match parse_groups(s, true) {
            Some(g) => if g.len() == 8 {
                Some(number_of_groups(&g))
            } else {
                None
            },
            None => None,
        };
    }
    let front = slice_subrange(s, 0, gap);
    let back = slice_subrange(s, gap + 2, s.len());
    proof {
        assert(front@ =~= s@.take(gap as int));
        assert(back@ =~= s@.skip(gap + 2));
    }
    match (parse_groups(front, false), parse_groups(back, true)) {
        (Some(head), Some(tail)) => {
            if head.len() > 7 || tail.len() > 7 - head.len() {
                return None;
            }
            let zeros: usize = 8 - head.len() - tail.len();
            let mut all = head;
            let ghost h = head@;
            let mut i: usize = 0;
            while i < zeros
                invariant
                    i <= zeros,
                    all@ == h + Seq::new(i as nat, |k: int| 0u16),
                decreases zeros - i,
            {
                all.push(0);
                i += 1;
                proof {
                    assert(all@ =~= h + Seq::new(i as nat, |k: int| 0u16));
                }
            }
            let mut rest = tail;
            let ghost t = tail@;
            all.append(&mut rest);
            proof {
                assert(group_values(all@) =~= group_values(h) + Seq::new(
                    (8 - h.len() - t.len()) as nat,
                    |k: int| 0int,
                ) + group_values(t));
            }
            Some(number_of_groups(&all))
        },
        _ => None,
    }
}

/// The address that `s` writes, in either family.
pub fn parse_ip(s: &str) -> (r: Option<IpAddress>)
    ensures
        r == ip_literal(s@),
{
    let chars = text::chars_of(s);
    if let Some(v4) = parse_ipv4(&chars) {
        return Some(IpAddress::V4(v4));
    }
    if let Some(v6) = parse_ipv6(&chars) {
        return Some(IpAddress::V6(v6));
    }
    None
}

/// The address that a list of octets forms: IPv4 for four, IPv6 for sixteen.
pub open spec fn ip_of_octets(octets: Seq<u8>) -> Option<IpAddress> {
    if octets.len() == 4 {
        Some(IpAddress::V4(radix(octet_values(octets), 256) as u32))
    } else if octets.len() == 16 {
        Some(IpAddress::V6(radix(octet_values(octets), 256) as u128))
    } else {
        None
    }
}

/// The address that a list of octets forms: IPv4 for four, IPv6 for sixteen.
pub fn ip_from_octets(octets: &[u8]) -> (r: Option<IpAddress>)
    ensures
        r == ip_of_octets(octets@),
{
    if octets.len() == 4 {
        proof {
            let d = octet_values(octets@);
            assert(d =~= seq![d[0], d[1], d[2], d[3]]);
            lemma_radix4(d[0], d[1], d[2], d[3], 256);
        }
        Some(IpAddress::V4(number_of_octets(octets) as u32))
    } else if octets.len() == 16 {
        Some(IpAddress::V6(number_of_octets(octets)))
    } else {
        None
    }
}

proof fn lemma_lower_char(c: char)
    ensures
        digit_value(text::lower_char(c)) == digit_value(c),
        (text::lower_char(c) == '.') == (c == '.'),
        (text::lower_char(c) == ':') == (c == ':'),
        (text::lower_char(c) == '0') == (c == '0'),
{
}

proof fn lemma_lower_first_index(s: Seq<char>, sep: char)
    requires
        sep == '.' || sep == ':',
    ensures
        text::first_index(text::lowercase(s), sep) == text::first_index(s, sep),
{
    let low = text::lowercase(s);
    text::lemma_first_index(s, sep);
    let at = text::first_index(s, sep);
    assert forall|k: int| 0 <= k < at implies #[trigger] low[k] != sep by {
        lemma_lower_char(s[k]);
    }
    if at < s.len() {
        lemma_lower_char(s[at]);
    }
    text::lemma_first_index_is(low, sep, at);
}

proof fn lemma_lower_split(s: Seq<char>, sep: char)
    requires
        sep == '.' || sep == ':',
    ensures
        text::split(text::lowercase(s), sep) == text::split(s, sep).map_values(
            |p: Seq<char>| text::lowercase(p),
        ),
    decreases s.len(),
{
    let low = text::lowercase(s);
    let f = |p: Seq<char>| text::lowercase(p);
    let at = text::first_index(s, sep);
    text::lemma_first_index(s, sep);
    lemma_lower_first_index(s, sep);
    if at >= s.len() {
        assert(text::split(low, sep) =~= text::split(s, sep).map_values(f));
    } else {
        lemma_lower_split(s.skip(at + 1), sep);
        assert(low.skip(at + 1) =~= text::lowercase(s.skip(at + 1)));
        assert(low.take(at) =~= text::lowercase(s.take(at)));
        assert(text::split(low, sep) =~= text::split(s, sep).map_values(f));
    }
}

proof fn lemma_lower_digits(s: Seq<char>)
    ensures
        digits(text::lowercase(s)) == digits(s),
        all_digits(text::lowercase(s), 10) == all_digits(s, 10),
        all_digits(text::lowercase(s), 16) == all_digits(s, 16),
        octet(text::lowercase(s)) == octet(s),
        group(text::lowercase(s)) == group(s),
{
    let low = text::lowercase(s);
    assert forall|i: int| 0 <= i < s.len() implies digit_value(#[trigger] low[i]) == digit_value(
        s[i],
    ) by {
        lemma_lower_char(s[i]);
    }
    assert(digits(low) =~= digits(s));
    assert forall|i: int| 0 <= i < s.len() implies digit_value(#[trigger] s[i]) == digit_value(
        low[i],
    ) by {
        assert(digits(low)[i] == digits(s)[i]);
    }
    if s.len() > 0 {
        lemma_lower_char(s[0]);
    }
}

proof fn lemma_lower_ipv4(s: Seq<char>)
    ensures
        ipv4(text::lowercase(s)) == ipv4(s),
{
    let p = text::split(s, '.');
    let q = text::split(text::lowercase(s), '.');
    lemma_lower_split(s, '.');
    assert forall|i: int| 0 <= i < p.len() implies octet(#[trigger] q[i]) == octet(p[i]) by {
        lemma_lower_digits(p[i]);
    }
    assert forall|i: int| 0 <= i < p.len() implies octet(#[trigger] p[i]) == octet(q[i]) by {
    }
    assert(q.map_values(|piece: Seq<char>| octet(piece)->0) =~= p.map_values(
        |piece: Seq<char>| octet(piece)->0,
    ));
}

proof fn lemma_lower_groups(s: Seq<char>, v4_tail: bool)
    ensures
        groups(text::lowercase(s), v4_tail) == groups(s, v4_tail),
{
    let p = text::split(s, ':');
    let q = text::split(text::lowercase(s), ':');
    lemma_lower_split(s, ':');
    text::lemma_first_index(s, ':');
    assert(p.len() >= 1);
    assert forall|i: int| 0 <= i < p.len() implies group(#[trigger] q[i]) == group(p[i]) by {
        lemma_lower_digits(p[i]);
    }
    assert forall|i: int| 0 <= i < p.len() implies group(#[trigger] p[i]) == group(q[i]) by {
    }
    lemma_lower_ipv4(p.last());
    assert(q.last() == text::lowercase(p.last()));
    assert(group(q.last()) == group(p.last()));
    assert(q.drop_last().map_values(|piece: Seq<char>| group(piece)->0)
        =~= p.drop_last().map_values(|piece: Seq<char>| group(piece)->0));
}

proof fn lemma_lower_first_gap(s: Seq<char>)
    ensures
        first_gap(text::lowercase(s)) == first_gap(s),
    decreases s.len(),
{
    let low = text::lowercase(s);
    if s.len() > 0 {
        lemma_lower_char(s[0]);
        if s.len() >= 2 {
            lemma_lower_char(s[1]);
        }
        lemma_lower_first_gap(s.drop_first());
        assert(low.drop_first() =~= text::lowercase(s.drop_first()));
    }
}

/// The case of the letters in an IP address literal does not matter.
pub proof fn lemma_ip_literal_ignores_case(s: Seq<char>)
    ensures
        ip_literal(text::lowercase(s)) == ip_literal(s),
{
    let low = text::lowercase(s);
    let gap = first_gap(s);
    lemma_lower_ipv4(s);
    lemma_lower_first_gap(s);
    lemma_first_gap(s);
    lemma_lower_groups(s, true);
    if gap < s.len() {
        lemma_lower_groups(s.take(gap), false);
        lemma_lower_groups(s.skip(gap + 2), true);
        assert(low.take(gap) =~= text::lowercase(s.take(gap)));
        assert(low.skip(gap + 2) =~= text::lowercase(s.skip(gap + 2)));
    }
}

proof fn lemma_radix_leading_zero(digits: Seq<int>, base: int)
    ensures
        radix(seq![0int] + digits, base) == radix(digits, base),
    decreases digits.len(),
{
    let whole = seq![0int] + digits;
    if digits.len() == 0 {
        assert(whole.drop_last() =~= Seq::<int>::empty());
        assert(radix(whole.drop_last(), base) == 0);
        assert(0 * base == 0);
    } else {
        assert(whole.drop_last() =~= seq![0int] + digits.drop_last());
        lemma_radix_leading_zero(digits.drop_last(), base);
    }
}

/// A leading zero does not change the group that is written.
pub proof fn group_ignores_leading_zero(s: Seq<char>)
    requires
        1 <= s.len() < 4,
    ensures
        group(seq!['0'] + s) == group(s),
{
    let longer = seq!['0'] + s;
    assert(all_digits(longer, 16) <==> all_digits(s, 16)) by {
        if all_digits(longer, 16) {
            assert forall|i: int| 0 <= i < s.len() implies 0 <= digit_value(#[trigger] s[i])
                < 16 by {
                assert(longer[i + 1] == s[i]);
            }
        }
    }
    assert(digits(longer) =~= seq![0int] + digits(s));
    lemma_radix_leading_zero(digits(s), 16);
}

} // verus!
