//! What the reading of addresses promises, in terms of the octets and the texts.
use crate::ip;
use crate::ip::IpAddress;
use crate::text;
use vstd::arithmetic::div_mod::*;
use vstd::arithmetic::power::*;
use vstd::prelude::*;

verus! {

/// The digit of `value` in `base` that has `places` digits behind it.
pub open spec fn place(value: int, base: int, places: int) -> int {
    value / pow(base, places as nat) % base
}

proof fn lemma_places(d: Seq<int>, base: int, i: int)
    requires
        base > 1,
        0 <= i < d.len(),
        forall|k: int| 0 <= k < d.len() ==> 0 <= #[trigger] d[k] < base,
    ensures
        place(ip::radix(d, base), base, d.len() - 1 - i) == d[i],
        0 <= ip::radix(d, base),
    decreases d.len(),
{
    reveal(pow);
    let high = ip::radix(d.drop_last(), base);
    let low = d.last();
    let value = ip::radix(d, base);
    assert(value == high * base + low);
    lemma_fundamental_div_mod_converse(value, base, high, low);
    lemma_radix_nonnegative(d, base);
    if i == d.len() - 1 {
        assert(pow(base, 0) == 1);
        assert(value / 1 == value);
    } else {
        let front = d.drop_last();
        assert forall|k: int| 0 <= k < front.len() implies 0 <= #[trigger] front[k] < base by {
            assert(front[k] == d[k]);
        }
        lemma_places(front, base, i);
        let p = (front.len() - 1 - i) as nat;
        lemma_pow_positive(base, p);
        assert(pow(base, p + 1) == base * pow(base, p));
        lemma_div_denominator(value, base, pow(base, p));
        assert(value / pow(base, p + 1) == high / pow(base, p));
        assert((d.len() - 1 - i) as nat == p + 1);
    }
}

proof fn lemma_radix_nonnegative(d: Seq<int>, base: int)
    requires
        base > 0,
        forall|k: int| 0 <= k < d.len() ==> 0 <= #[trigger] d[k],
    ensures
        0 <= ip::radix(d, base),
    decreases d.len(),
{
    if d.len() > 0 {
        let front = d.drop_last();
        assert forall|k: int| 0 <= k < front.len() implies 0 <= #[trigger] front[k] by {
            assert(front[k] == d[k]);
        }
        lemma_radix_nonnegative(front, base);
        let high = ip::radix(front, base);
        assert(0 <= high * base) by (nonlinear_arith)
            requires
                0 <= high,
                base > 0,
        ;
    }
}

proof fn lemma_octets_fit(octets: Seq<u8>)
    requires
        octets.len() == 4 || octets.len() == 16,
    ensures
        octets.len() == 4 ==> 0 <= ip::radix(ip::octet_values(octets), 256) <= u32::MAX,
        octets.len() == 16 ==> 0 <= ip::radix(ip::octet_values(octets), 256) <= u128::MAX,
{
    ip::lemma_radix_bound(ip::octet_values(octets), 256);
    if octets.len() == 4 {
        reveal_with_fuel(pow, 5);
        assert(pow(256, 4) == 0x1_0000_0000int);
    } else {
        ip::lemma_radix_cap(ip::octet_values(octets), 256);
    }
}

/// An address that is read from octets keeps every octet in its place: four make an IPv4
/// address, sixteen an IPv6 address, and no other number makes one.
pub proof fn octets_are_kept(octets: Seq<u8>)
    ensures
        octets.len() == 4 ==> (ip::ip_of_octets(octets) matches Some(IpAddress::V4(v)) && forall|
            i: int,
        |
            0 <= i < 4 ==> place(v as int, 256, 3 - i) == #[trigger] octets[i]),
        octets.len() == 16 ==> (ip::ip_of_octets(octets) matches Some(IpAddress::V6(v)) && forall|
            i: int,
        |
            0 <= i < 16 ==> place(v as int, 256, 15 - i) == #[trigger] octets[i]),
        octets.len() != 4 && octets.len() != 16 ==> ip::ip_of_octets(octets) is None,
{
    if octets.len() == 4 || octets.len() == 16 {
        lemma_octets_fit(octets);
        let d = ip::octet_values(octets);
        assert forall|i: int| 0 <= i < octets.len() implies place(
            ip::radix(d, 256),
            256,
            octets.len() - 1 - i,
        ) == #[trigger] octets[i] by {
            lemma_places(d, 256, i);
        }
    }
}

/// Different octets make different addresses.
pub proof fn octets_are_told_apart(a: Seq<u8>, b: Seq<u8>)
    requires
        ip::ip_of_octets(a) is Some,
        ip::ip_of_octets(a) == ip::ip_of_octets(b),
    ensures
        a == b,
{
    octets_are_kept(a);
    octets_are_kept(b);
    assert(a.len() == b.len());
    assert forall|i: int| 0 <= i < a.len() implies a[i] == b[i] by {
        let x = a[i];
        let y = b[i];
    }
    assert(a =~= b);
}

/// The decimal text of a number below 1000, without leading zeros.
pub open spec fn decimal(n: int) -> Seq<char> {
    if n < 10 {
        seq![decimal_digit(n)]
    } else if n < 100 {
        seq![decimal_digit(n / 10), decimal_digit(n % 10)]
    } else {
        seq![decimal_digit(n / 100), decimal_digit(n / 10 % 10), decimal_digit(n % 10)]
    }
}

/// The decimal digit for a number below 10.
pub open spec fn decimal_digit(n: int) -> char {
    ('0' as int + n) as char
}

/// The dotted text of four octets.
pub open spec fn dotted(octets: Seq<u8>) -> Seq<char> {
    decimal(octets[0] as int) + seq!['.'] + decimal(octets[1] as int) + seq!['.'] + decimal(
        octets[2] as int,
    ) + seq!['.'] + decimal(octets[3] as int)
}

proof fn lemma_radix_of(s: Seq<char>, base: int)
    requires
        1 <= s.len() <= 3,
    ensures
        s.len() == 1 ==> ip::radix(ip::digits(s), base) == ip::digit_value(s[0]),
        s.len() == 2 ==> ip::radix(ip::digits(s), base) == ip::digit_value(s[0]) * base
            + ip::digit_value(s[1]),
        s.len() == 3 ==> ip::radix(ip::digits(s), base) == (ip::digit_value(s[0]) * base
            + ip::digit_value(s[1])) * base + ip::digit_value(s[2]),
{
    let d = ip::digits(s);
    reveal_with_fuel(ip::radix, 4);
    assert(0 * base == 0);
}

/// The text of an octet is its decimal text, and no other.
proof fn lemma_octet_text(s: Seq<char>, n: int)
    requires
        0 <= n <= 255,
    ensures
        ip::octet(s) == Some(n) <==> s == decimal(n),
{
    if s == decimal(n) {
        lemma_radix_of(s, 10);
        assert(ip::octet(s) == Some(n));
    }
    if ip::octet(s) == Some(n) {
        lemma_radix_of(s, 10);
        assert(0 <= ip::digit_value(s[0]) < 10);
        if s.len() > 1 {
            assert(0 <= ip::digit_value(s[1]) < 10);
        }
        if s.len() > 2 {
            assert(0 <= ip::digit_value(s[2]) < 10);
        }
        assert(s =~= decimal(n));
    }
}

proof fn lemma_decimal_has_digits_only(n: int)
    requires
        0 <= n <= 255,
    ensures
        decimal(n).len() >= 1,
        forall|i: int| 0 <= i < decimal(n).len() ==> '0' <= #[trigger] decimal(n)[i] && decimal(
            n,
        )[i] <= '9',
        !decimal(n).contains('.'),
        !decimal(n).contains(':'),
{
}

spec fn decimals(octets: Seq<u8>) -> Seq<Seq<char>> {
    octets.map_values(|b: u8| decimal(b as int))
}

proof fn lemma_dotted(octets: Seq<u8>)
    requires
        octets.len() == 4,
    ensures
        dotted(octets) == text::join(decimals(octets), '.'),
        text::split(dotted(octets), '.') == decimals(octets),
        ip::ipv4(dotted(octets)) == Some(ip::radix(ip::octet_values(octets), 256)),
        !dotted(octets).contains(':'),
        dotted(octets).contains('.'),
{
    let p = decimals(octets);
    assert forall|i: int| 0 <= i < p.len() implies !(#[trigger] p[i]).contains('.') && !p[i].contains(
        ':',
    ) by {
        lemma_decimal_has_digits_only(octets[i] as int);
    }
    assert(p.len() == 4);
    reveal_with_fuel(text::join, 5);
    let p1 = p.skip(1);
    let p2 = p1.skip(1);
    let p3 = p2.skip(1);
    assert(p1[0] == p[1] && p2[0] == p[2] && p3[0] == p[3]);
    assert(text::join(p3, '.') == p[3]);
    assert(text::join(p2, '.') == p[2] + seq!['.'] + p[3]);
    assert(text::join(p1, '.') == p[1] + seq!['.'] + (p[2] + seq!['.'] + p[3]));
    assert(dotted(octets) =~= text::join(p, '.'));
    text::joined_pieces_split_again(p, '.');
    assert forall|i: int| 0 <= i < 4 implies ip::octet(#[trigger] p[i]) == Some(octets[i] as int) by {
        lemma_octet_text(p[i], octets[i] as int);
    }
    assert(p.map_values(|piece: Seq<char>| ip::octet(piece)->0) =~= ip::octet_values(octets));
    let s = dotted(octets);
    assert(s[p[0].len() as int] == '.');
    assert forall|k: int| 0 <= k < s.len() implies #[trigger] s[k] != ':' by {
        lemma_decimal_has_digits_only(octets[0] as int);
        lemma_decimal_has_digits_only(octets[1] as int);
        lemma_decimal_has_digits_only(octets[2] as int);
        lemma_decimal_has_digits_only(octets[3] as int);
    }
}

/// The dotted text of four octets is read as the address that these octets make.
pub proof fn dotted_text_is_read(octets: Seq<u8>)
    requires
        octets.len() == 4,
    ensures
        ip::ip_literal(dotted(octets)) == ip::ip_of_octets(octets),
{
    lemma_dotted(octets);
}

/// A text is read as an IPv4 address only where it is the dotted text of four octets.
pub proof fn ipv4_literals_are_dotted(s: Seq<char>)
    requires
        ip::ip_literal(s) matches Some(IpAddress::V4(_)),
    ensures
        exists|octets: Seq<u8>| octets.len() == 4 && #[trigger] dotted(octets) == s,
{
    let p = text::split(s, '.');
    text::split_pieces_make_the_text(s, '.');
    assert(ip::ipv4(s) is Some);
    let octets = p.map_values(|piece: Seq<char>| ip::octet(piece)->0 as u8);
    assert forall|i: int| 0 <= i < 4 implies #[trigger] p[i] == decimal(octets[i] as int) by {
        lemma_octet_bounds(p[i]);
        lemma_octet_text(p[i], ip::octet(p[i])->0);
    }
    assert(decimals(octets) =~= p);
    lemma_dotted(octets);
}

proof fn lemma_octet_bounds(s: Seq<char>)
    requires
        ip::octet(s) is Some,
    ensures
        0 <= ip::octet(s)->0 <= 255,
{
    let d = ip::digits(s);
    assert forall|k: int| 0 <= k < d.len() implies 0 <= #[trigger] d[k] by {
        assert(0 <= ip::digit_value(s[k]));
    }
    lemma_radix_nonnegative(d, 10);
}

/// Whether `s` is the text of a group: one to four hexadecimal digits of either case.
pub open spec fn is_group_text(s: Seq<char>) -> bool {
    &&& 1 <= s.len() <= 4
    &&& forall|i: int|
        0 <= i < s.len() ==> ('0' <= #[trigger] s[i] && s[i] <= '9') || ('a' <= s[i] && s[i] <= 'f')
            || ('A' <= s[i] && s[i] <= 'F')
}

/// Whether all of `pieces` are texts of groups.
pub open spec fn are_group_texts(pieces: Seq<Seq<char>>) -> bool {
    forall|i: int| 0 <= i < pieces.len() ==> is_group_text(#[trigger] pieces[i])
}

/// The number that hexadecimal digits of either case write.
pub open spec fn hex_number(s: Seq<char>) -> int
    decreases s.len(),
{
    if s.len() == 0 {
        0
    } else {
        let c = s.last();
        16 * hex_number(s.drop_last()) + if c <= '9' {
            c as int - '0' as int
        } else if c <= 'F' {
            c as int - 'A' as int + 10
        } else {
            c as int - 'a' as int + 10
        }
    }
}

/// `pieces` with the dotted text of `quad` behind them, where there is one.
pub open spec fn with_quad(pieces: Seq<Seq<char>>, quad: Seq<u8>) -> Seq<Seq<char>> {
    if quad.len() == 4 {
        pieces.push(dotted(quad))
    } else {
        pieces
    }
}

/// Whether `octets` are those that the groups in `pieces` write, two each, and those of
/// `quad`.
pub open spec fn spells(octets: Seq<u8>, pieces: Seq<Seq<char>>, quad: Seq<u8>) -> bool {
    &&& octets.len() == 2 * pieces.len() + quad.len()
    &&& forall|i: int|
        0 <= i < pieces.len() ==> hex_number(#[trigger] pieces[i]) == octets[2 * i] * 256 + octets[2
            * i + 1]
    &&& forall|i: int| 0 <= i < quad.len() ==> octets[2 * pieces.len() + i] == #[trigger] quad[i]
}

proof fn lemma_hex_number(s: Seq<char>)
    requires
        forall|i: int|
            0 <= i < s.len() ==> ('0' <= #[trigger] s[i] && s[i] <= '9') || ('a' <= s[i] && s[i]
                <= 'f') || ('A' <= s[i] && s[i] <= 'F'),
    ensures
        ip::radix(ip::digits(s), 16) == hex_number(s),
    decreases s.len(),
{
    if s.len() > 0 {
        let front = s.drop_last();
        assert forall|i: int| 0 <= i < front.len() implies ('0' <= #[trigger] front[i] && front[i]
            <= '9') || ('a' <= front[i] && front[i] <= 'f') || ('A' <= front[i] && front[i] <= 'F') by {
            assert(front[i] == s[i]);
        }
        lemma_hex_number(front);
        assert(ip::digits(s).drop_last() =~= ip::digits(front));
        assert(ip::digits(s).last() == ip::digit_value(s.last()));
        let last = s[s.len() - 1];
        assert(last == s.last());
    }
}

proof fn lemma_group_text(s: Seq<char>)
    ensures
        ip::group(s) is Some <==> is_group_text(s),
        is_group_text(s) ==> ip::group(s) == Some(hex_number(s)) && !s.contains(':') && !s.contains(
            '.',
        ),
{
    if is_group_text(s) {
        assert forall|i: int| 0 <= i < s.len() implies 0 <= ip::digit_value(#[trigger] s[i]) < 16 by {
        }
        lemma_hex_number(s);
    }
    if ip::group(s) is Some {
        assert forall|i: int| 0 <= i < s.len() implies ('0' <= #[trigger] s[i] && s[i] <= '9') || (
        'a' <= s[i] && s[i] <= 'f') || ('A' <= s[i] && s[i] <= 'F') by {
            assert(0 <= ip::digit_value(s[i]) < 16);
        }
    }
}

/// Pairs of octets form the same number as the groups that they make.
proof fn lemma_groups_of_octets(g: Seq<int>, o: Seq<u8>)
    requires
        o.len() == 2 * g.len(),
        forall|i: int| 0 <= i < g.len() ==> #[trigger] g[i] == o[2 * i] * 256 + o[2 * i + 1],
    ensures
        ip::radix(g, 65536) == ip::radix(ip::octet_values(o), 256),
    decreases g.len(),
{
    let v = ip::octet_values(o);
    if g.len() > 0 {
        let front = o.take(o.len() - 2);
        let gf = g.drop_last();
        assert forall|i: int| 0 <= i < gf.len() implies #[trigger] gf[i] == front[2 * i] * 256
            + front[2 * i + 1] by {
            assert(g[i] == o[2 * i] * 256 + o[2 * i + 1]);
        }
        lemma_groups_of_octets(gf, front);
        let w = v.drop_last();
        assert(w.drop_last() =~= ip::octet_values(front));
        let n = g.len() - 1;
        assert(g[n] == o[2 * n] * 256 + o[2 * n + 1]);
        assert(w.last() == o[2 * n] && v.last() == o[2 * n + 1]);
        let high = ip::radix(gf, 65536);
        assert((high * 256 + o[2 * n]) * 256 + o[2 * n + 1] == high * 65536 + (o[2 * n] * 256 + o[2
            * n + 1]));
        assert(ip::radix(w, 256) == high * 256 + o[2 * n]);
    } else {
        assert(v.len() == 0);
    }
}

/// What is said of pieces that stand between single colons.
proof fn lemma_pieces(p: Seq<Seq<char>>)
    requires
        p.len() >= 1,
        forall|i: int| 0 <= i < p.len() ==> (#[trigger] p[i]).len() > 0 && !p[i].contains(':'),
    ensures
        ({
            let s = text::join(p, ':');
            &&& s.len() > 0
            &&& s[0] != ':'
            &&& s.last() != ':'
            &&& forall|k: int| 0 <= k && k + 1 < s.len() ==> !(#[trigger] s[k] == ':' && s[k + 1] == ':')
            &&& p.len() > 1 ==> s.contains(':')
            &&& text::split(s, ':') == p
        }),
    decreases p.len(),
{
    let s = text::join(p, ':');
    text::joined_pieces_split_again(p, ':');
    let head = p[0];
    assert(head.len() > 0 && !head.contains(':'));
    assert forall|k: int| 0 <= k < head.len() implies #[trigger] head[k] != ':' by {
        assert(head.contains(head[k]));
    }
    if p.len() == 1 {
        assert(s == head);
        assert(head[0] != ':');
        assert(head[head.len() - 1] != ':');
    } else {
        let rest = p.skip(1);
        assert forall|i: int| 0 <= i < rest.len() implies (#[trigger] rest[i]).len() > 0
            && !rest[i].contains(':') by {
            assert(rest[i] == p[i + 1]);
        }
        lemma_pieces(rest);
        let t = text::join(rest, ':');
        assert(s == head + seq![':'] + t);
        let n = head.len() as int;
        assert(s[n] == ':');
        assert(s[0] == head[0]);
        assert(s.last() == t.last());
        assert forall|k: int| 0 <= k && k + 1 < s.len() implies !(#[trigger] s[k] == ':' && s[k + 1]
            == ':') by {
            if k < n {
                assert(s[k] == head[k]);
            } else if k == n {
                assert(s[k + 1] == t[0]);
            } else {
                assert(s[k] == t[k - n - 1] && s[k + 1] == t[k - n]);
            }
        }
    }
}

proof fn lemma_colon_is_no_ipv4(s: Seq<char>)
    requires
        s.contains(':'),
    ensures
        ip::ipv4(s) is None,
{
    if ip::ipv4(s) is Some {
        assert(ip::ip_literal(s) matches Some(IpAddress::V4(_)));
        ipv4_literals_are_dotted(s);
        let octets = choose|octets: Seq<u8>| octets.len() == 4 && #[trigger] dotted(octets) == s;
        lemma_dotted(octets);
    }
}

proof fn lemma_quad_pieces(p: Seq<Seq<char>>, quad: Seq<u8>)
    requires
        are_group_texts(p),
        quad.len() == 0 || quad.len() == 4,
    ensures
        forall|i: int|
            0 <= i < with_quad(p, quad).len() ==> (#[trigger] with_quad(p, quad)[i]).len() > 0
                && !with_quad(p, quad)[i].contains(':'),
{
    let w = with_quad(p, quad);
    assert forall|i: int| 0 <= i < w.len() implies (#[trigger] w[i]).len() > 0 && !w[i].contains(
        ':',
    ) by {
        if i < p.len() {
            assert(w[i] == p[i]);
            lemma_group_text(p[i]);
        } else {
            lemma_dotted(quad);
        }
    }
}

/// The groups that pieces and a quad write are the pairs of the octets.
proof fn lemma_groups_written(p: Seq<Seq<char>>, quad: Seq<u8>, o: Seq<u8>, v4: bool) -> (g: Seq<int>)
    requires
        are_group_texts(p),
        quad.len() == 0 || (quad.len() == 4 && v4),
        spells(o, p, quad),
    ensures
        ip::groups(text::join(with_quad(p, quad), ':'), v4) == Some(g),
        2 * g.len() == o.len(),
        forall|i: int| 0 <= i < g.len() ==> #[trigger] g[i] == o[2 * i] * 256 + o[2 * i + 1],
{
    let w = with_quad(p, quad);
    let s = text::join(w, ':');
    lemma_quad_pieces(p, quad);
    if w.len() == 0 {
        assert(s.len() == 0);
        Seq::<int>::empty()
    } else {
        lemma_pieces(w);
        assert forall|i: int| 0 <= i < p.len() implies ip::group(#[trigger] p[i]) == Some(
            hex_number(p[i]),
        ) by {
            lemma_group_text(p[i]);
        }
        let f = |piece: Seq<char>| ip::group(piece)->0;
        let last = w.last();
        if quad.len() == 4 {
            lemma_dotted(quad);
            lemma_group_text(last);
            assert(w.drop_last() =~= p);
            let v = ip::ipv4(last)->0;
            let q = ip::octet_values(quad);
            assert(q =~= seq![q[0], q[1], q[2], q[3]]);
            ip::lemma_radix4(q[0], q[1], q[2], q[3], 256);
            assert(v / 65536 == quad[0] * 256 + quad[1]);
            assert(v % 65536 == quad[2] * 256 + quad[3]);
            let g = p.map_values(f) + seq![v / 65536, v % 65536];
            let n = p.len() as int;
            assert(o[2 * n] == quad[0] && o[2 * n + 1] == quad[1] && o[2 * n + 2] == quad[2] && o[2
                * n + 3] == quad[3]) by {
                assert(o[2 * n + 0] == quad[0]);
                assert(o[2 * n + 1] == quad[1]);
                assert(o[2 * n + 2] == quad[2]);
                assert(o[2 * n + 3] == quad[3]);
            }
            assert forall|i: int| 0 <= i < g.len() implies #[trigger] g[i] == o[2 * i] * 256 + o[2
                * i + 1] by {
                if i < n {
                    assert(g[i] == hex_number(p[i]));
                } else if i == n {
                    assert(g[i] == v / 65536);
                } else {
                    assert(i == n + 1);
                    assert(2 * i == 2 * n + 2);
                    assert(g[i] == v % 65536);
                }
            }
            assert forall|i: int| 0 <= i < w.len() - 1 implies ip::group(#[trigger] w[i]) is Some by {
                assert(w[i] == p[i]);
            }
            g
        } else {
            assert(w == p);
            let g = p.drop_last().map_values(f) + seq![ip::group(last)->0];
            assert(last == p[p.len() - 1]);
            assert forall|i: int| 0 <= i < g.len() implies #[trigger] g[i] == o[2 * i] * 256 + o[2
                * i + 1] by {
                assert(g[i] == hex_number(p[i]));
            }
            g
        }
    }
}

/// A text with eight groups between colons, of which the last two may be written as four
/// decimal octets, is read as the address that the octets make.
pub proof fn full_ipv6_text_is_read(pieces: Seq<Seq<char>>, quad: Seq<u8>, octets: Seq<u8>)
    requires
        are_group_texts(pieces),
        quad.len() == 0 || quad.len() == 4,
        octets.len() == 16,
        spells(octets, pieces, quad),
    ensures
        ip::ip_literal(text::join(with_quad(pieces, quad), ':')) == ip::ip_of_octets(octets),
{
    let w = with_quad(pieces, quad);
    let s = text::join(w, ':');
    let g = lemma_groups_written(pieces, quad, octets, true);
    lemma_quad_pieces(pieces, quad);
    lemma_pieces(w);
    lemma_colon_is_no_ipv4(s);
    ip::lemma_first_gap(s);
    let gap = ip::first_gap(s);
    if gap < s.len() {
        assert(s[gap] == ':' && s[gap + 1] == ':');
    }
    lemma_groups_of_octets(g, octets);
    lemma_octets_fit(octets);
}

/// The octets of zero groups.
pub open spec fn zeros(n: nat) -> Seq<u8> {
    Seq::new(n, |i: int| 0u8)
}

/// A text with at most seven groups, with `::` at one place, is read as the address that has
/// zero groups at that place.
pub proof fn gapped_ipv6_text_is_read(
    head: Seq<Seq<char>>,
    tail: Seq<Seq<char>>,
    quad: Seq<u8>,
    front: Seq<u8>,
    back: Seq<u8>,
)
    requires
        are_group_texts(head),
        are_group_texts(tail),
        quad.len() == 0 || quad.len() == 4,
        spells(front, head, Seq::empty()),
        spells(back, tail, quad),
        front.len() + back.len() <= 14,
    ensures
        ip::ip_literal(
            text::join(head, ':') + seq![':', ':'] + text::join(with_quad(tail, quad), ':'),
        ) == ip::ip_of_octets(front + zeros((16 - front.len() - back.len()) as nat) + back),
{
    let none = Seq::<u8>::empty();
    let a = text::join(head, ':');
    let b = text::join(with_quad(tail, quad), ':');
    let s = a + seq![':', ':'] + b;
    let h = lemma_groups_written(head, none, front, false);
    let t = lemma_groups_written(tail, quad, back, true);
    assert(with_quad(head, none) == head);
    lemma_gap_place(head, b);
    let k = (8 - h.len() - t.len()) as nat;
    let g = h + Seq::new(k, |i: int| 0int) + t;
    let o = front + zeros((16 - front.len() - back.len()) as nat) + back;
    assert(2 * k == 16 - front.len() - back.len());
    lemma_gap_groups(h, t, front, back, k);
    lemma_groups_of_octets(g, o);
    lemma_octets_fit(o);
    assert(ip::ipv6_groups(s) == Some(g));
}

/// The first gap of a text is behind the groups of its head.
proof fn lemma_gap_place(head: Seq<Seq<char>>, b: Seq<char>)
    requires
        are_group_texts(head),
    ensures
        ({
            let a = text::join(head, ':');
            let s = a + seq![':', ':'] + b;
            &&& ip::first_gap(s) == a.len()
            &&& a.len() < s.len()
            &&& s.take(a.len() as int) == a
            &&& s.skip(a.len() as int + 2) == b
            &&& ip::ipv4(s) is None
        }),
{
    let none = Seq::<u8>::empty();
    let a = text::join(head, ':');
    let s = a + seq![':', ':'] + b;
    let n = a.len() as int;
    assert(s[n] == ':' && s[n + 1] == ':');
    lemma_colon_is_no_ipv4(s);
    ip::lemma_first_gap(s);
    let gap = ip::first_gap(s);
    lemma_quad_pieces(head, none);
    if head.len() > 0 {
        lemma_pieces(head);
    }
    if gap > n {
        assert(!(s[n] == ':' && s[n + 1] == ':'));
    } else if gap < n {
        assert(s[gap] == ':' && s[gap + 1] == ':');
        assert(s[gap] == a[gap]);
        if gap + 1 < n {
            assert(s[gap + 1] == a[gap + 1]);
        } else {
            assert(a[gap] == a.last());
        }
    }
    assert(s.take(n) =~= a);
    assert(s.skip(n + 2) =~= b);
}

/// The groups of the head, zero groups and the groups of the tail are the pairs of the octets.
proof fn lemma_gap_groups(h: Seq<int>, t: Seq<int>, front: Seq<u8>, back: Seq<u8>, k: nat)
    requires
        2 * h.len() == front.len(),
        2 * t.len() == back.len(),
        forall|i: int| 0 <= i < h.len() ==> #[trigger] h[i] == front[2 * i] * 256 + front[2 * i + 1],
        forall|i: int| 0 <= i < t.len() ==> #[trigger] t[i] == back[2 * i] * 256 + back[2 * i + 1],
    ensures
        ({
            let g = h + Seq::new(k, |i: int| 0int) + t;
            let o = front + zeros(2 * k) + back;
            &&& o.len() == 2 * g.len()
            &&& forall|i: int| 0 <= i < g.len() ==> #[trigger] g[i] == o[2 * i] * 256 + o[2 * i + 1]
        }),
{
    let g = h + Seq::new(k, |i: int| 0int) + t;
    let o = front + zeros(2 * k) + back;
    assert forall|i: int| 0 <= i < g.len() implies #[trigger] g[i] == o[2 * i] * 256 + o[2 * i
        + 1] by {
        if i < h.len() {
            assert(g[i] == h[i]);
            assert(o[2 * i] == front[2 * i] && o[2 * i + 1] == front[2 * i + 1]);
        } else if i < h.len() + k {
            assert(g[i] == 0);
            assert(o[2 * i] == 0 && o[2 * i + 1] == 0);
        } else {
            let j = i - h.len() - k;
            assert(g[i] == t[j]);
            assert(o[2 * i] == back[2 * j] && o[2 * i + 1] == back[2 * j + 1]);
        }
    }
}

/// Whether `s` is written with eight groups.
pub open spec fn is_full_text(s: Seq<char>, pieces: Seq<Seq<char>>, quad: Seq<u8>) -> bool {
    &&& are_group_texts(pieces)
    &&& quad.len() == 0 || quad.len() == 4
    &&& 2 * pieces.len() + quad.len() == 16
    &&& s == text::join(with_quad(pieces, quad), ':')
}

/// Whether `s` is written with `::` for one or more zero groups.
pub open spec fn is_gapped_text(
    s: Seq<char>,
    head: Seq<Seq<char>>,
    tail: Seq<Seq<char>>,
    quad: Seq<u8>,
) -> bool {
    &&& are_group_texts(head)
    &&& are_group_texts(tail)
    &&& quad.len() == 0 || quad.len() == 4
    &&& 2 * head.len() + 2 * tail.len() + quad.len() <= 14
    &&& s == text::join(head, ':') + seq![':', ':'] + text::join(with_quad(tail, quad), ':')
}

/// What writes groups are texts of groups, with a quad behind them at most.
proof fn lemma_groups_come_from(s: Seq<char>, v4: bool) -> (r: (Seq<Seq<char>>, Seq<u8>))
    requires
        ip::groups(s, v4) is Some,
    ensures
        are_group_texts(r.0),
        r.1.len() == 0 || (r.1.len() == 4 && v4),
        s == text::join(with_quad(r.0, r.1), ':'),
        2 * (ip::groups(s, v4)->0).len() == 2 * r.0.len() + r.1.len(),
{
    let none = Seq::<u8>::empty();
    if s.len() == 0 {
        let p = Seq::<Seq<char>>::empty();
        assert(s =~= text::join(p, ':'));
        (p, none)
    } else {
        let p = text::split(s, ':');
        text::split_pieces_make_the_text(s, ':');
        let last = p.last();
        let front = p.drop_last();
        assert forall|i: int| 0 <= i < front.len() implies is_group_text(#[trigger] front[i]) by {
            assert(front[i] == p[i]);
            lemma_group_text(p[i]);
        }
        if ip::group(last) is Some {
            lemma_group_text(last);
            assert forall|i: int| 0 <= i < p.len() implies is_group_text(#[trigger] p[i]) by {
                if i < front.len() {
                    assert(front[i] == p[i]);
                }
            }
            (p, none)
        } else {
            assert(ip::ip_literal(last) matches Some(IpAddress::V4(_)));
            ipv4_literals_are_dotted(last);
            let quad = choose|octets: Seq<u8>| octets.len() == 4 && #[trigger] dotted(octets) == last;
            assert(front.push(last) =~= p);
            (front, quad)
        }
    }
}

/// A text is read as an IPv6 address only where it is written with eight groups, or with `::`
/// for one or more zero groups.
pub proof fn ipv6_literals_are_groups(s: Seq<char>)
    requires
        ip::ip_literal(s) matches Some(IpAddress::V6(_)),
    ensures
        (exists|pieces: Seq<Seq<char>>, quad: Seq<u8>| is_full_text(s, pieces, quad)) || (exists|
            head: Seq<Seq<char>>,
            tail: Seq<Seq<char>>,
            quad: Seq<u8>,
        |
            is_gapped_text(s, head, tail, quad)),
{
    ip::lemma_first_gap(s);
    let gap = ip::first_gap(s);
    if gap >= s.len() {
        let (pieces, quad) = lemma_groups_come_from(s, true);
        assert(is_full_text(s, pieces, quad));
    } else {
        let (head, none) = lemma_groups_come_from(s.take(gap), false);
        let (tail, quad) = lemma_groups_come_from(s.skip(gap + 2), true);
        assert(with_quad(head, none) == head);
        assert(s =~= s.take(gap) + seq![':', ':'] + s.skip(gap + 2));
        assert(is_gapped_text(s, head, tail, quad));
    }
}

/// A literal tells its family: every IPv6 literal has a colon in it, and an IPv4 literal has
/// dots and no colon.
pub proof fn literals_tell_their_family(s: Seq<char>)
    requires
        ip::ip_literal(s) is Some,
    ensures
        ip::ip_literal(s) matches Some(IpAddress::V4(_)) <==> s.contains('.') && !s.contains(':'),
        ip::ip_literal(s) matches Some(IpAddress::V6(_)) <==> s.contains(':'),
{
    if ip::ip_literal(s) matches Some(IpAddress::V4(_)) {
        ipv4_literals_are_dotted(s);
        let octets = choose|octets: Seq<u8>| octets.len() == 4 && #[trigger] dotted(octets) == s;
        lemma_dotted(octets);
    } else {
        ipv6_literals_are_groups(s);
        if exists|pieces: Seq<Seq<char>>, quad: Seq<u8>| is_full_text(s, pieces, quad) {
            let (pieces, quad) = choose|pieces: Seq<Seq<char>>, quad: Seq<u8>|
                is_full_text(s, pieces, quad);
            lemma_quad_pieces(pieces, quad);
            lemma_pieces(with_quad(pieces, quad));
        } else {
            let (head, tail, quad) = choose|
                head: Seq<Seq<char>>,
                tail: Seq<Seq<char>>,
                quad: Seq<u8>,
            |
                is_gapped_text(s, head, tail, quad);
            assert(s[text::join(head, ':').len() as int] == ':');
        }
    }
}

} // verus!
