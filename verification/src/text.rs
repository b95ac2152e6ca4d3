//! Text helpers: characters, substrings and ASCII case.
use vstd::prelude::*;
use vstd::slice::*;
use vstd::string::*;

verus! {

/// `String::push` appends one character to the end of the string.
pub assume_specification[ String::push ](s: &mut String, ch: char)
    ensures
        final(s)@ == old(s)@.push(ch),
;

/// The characters of `s`, in order.
pub fn chars_of(s: &str) -> (r: Vec<char>)
    ensures
        r@ == s@,
{
    let mut r: Vec<char> = Vec::new();
    for c in it: s.chars()
        invariant
            it.seq() == s@,
            r@ == s@.take(it.index()),
    {
        r.push(c);
    }
    r
}

/// The string made of `chars`.
pub fn string_of(chars: &[char]) -> (r: String)
    ensures
        r@ == chars@,
{
    let mut r = String::new();
    let mut i: usize = 0;
    while i < chars.len()
        invariant
            i <= chars@.len(),
            r@ == chars@.take(i as int),
        decreases chars@.len() - i,
    {
        r.push(chars[i]);
        i += 1;
    }
    r
}

/// The concatenation of two strings.
pub fn concat2(a: &str, b: &str) -> (r: String)
    ensures
        r@ == a@ + b@,
{
    let mut r = a.to_owned();
    r.append(b);
    r
}

/// The concatenation of three strings.
pub fn concat3(a: &str, b: &str, c: &str) -> (r: String)
    ensures
        r@ == a@ + b@ + c@,
{
    let mut r = a.to_owned();
    r.append(b);
    r.append(c);
    r
}

/// Whether `part` stands at position `at` of `whole`.
pub open spec fn occurs_at(whole: Seq<char>, part: Seq<char>, at: int) -> bool {
    &&& 0 <= at
    &&& at + part.len() <= whole.len()
    &&& whole.subrange(at, at + part.len()) == part
}

/// Whether `part` stands somewhere in `whole`.
pub open spec fn is_substring(whole: Seq<char>, part: Seq<char>) -> bool {
    exists|at: int| occurs_at(whole, part, at)
}

/// Whether `part` stands at position `at` of `whole`.
fn stands_at(whole: &[char], part: &[char], at: usize) -> (r: bool)
    requires
        at + part@.len() <= whole@.len(),
    ensures
        r == occurs_at(whole@, part@, at as int),
{
    let total: usize = whole.len();
    let mut i: usize = 0;
    while i < part.len()
        invariant
            i <= part@.len(),
            total == whole@.len(),
            at + part@.len() <= total,
            forall|k: int| 0 <= k < i ==> whole@[at + k] == part@[k],
        decreases part@.len() - i,
    {
        if whole[at + i] != part[i] {
            assert(whole@.subrange(at as int, at + part@.len())[i as int] != part@[i as int]);
            return false;
        }
        i += 1;
    }
    assert(whole@.subrange(at as int, at + part@.len()) =~= part@);
    true
}

/// Whether `part` occurs in `whole`.
pub fn contains_text(whole: &str, part: &str) -> (r: bool)
    ensures
        r == is_substring(whole@, part@),
{
    let haystack = chars_of(whole);
    let needle = chars_of(part);
    if needle.len() > haystack.len() {
        return false;
    }
    let last: usize = haystack.len() - needle.len();
    let mut at: usize = 0;
    while !stands_at(&haystack, &needle, at)
        invariant
            at <= last,
            haystack@ == whole@,
            needle@ == part@,
            last + needle@.len() == haystack@.len(),
            forall|k: int| 0 <= k < at ==> !occurs_at(whole@, part@, k),
        decreases last - at,
    {
        if at == last {
            return false;
        }
        at += 1;
    }
    assert(occurs_at(whole@, part@, at as int));
    true
}

/// Whether one of `texts` contains `part`.
pub open spec fn some_contains(texts: Seq<String>, part: Seq<char>) -> bool {
    exists|i: int| 0 <= i < texts.len() && is_substring(#[trigger] texts[i]@, part)
}

/// Whether one of `texts` contains `part`.
pub fn any_contains(texts: &Vec<String>, part: &str) -> (r: bool)
    ensures
        r == some_contains(texts@, part@),
{
    let mut i: usize = 0;
    while i < texts.len()
        invariant
            i <= texts@.len(),
            forall|k: int| 0 <= k < i ==> !is_substring(#[trigger] texts@[k]@, part@),
        decreases texts@.len() - i,
    {
        if contains_text(texts[i].as_str(), part) {
            return true;
        }
        i += 1;
    }
    false
}

/// The position of the first `sep` in `s`, or the length of `s` where there is none.
pub open spec fn first_index(s: Seq<char>, sep: char) -> int
    decreases s.len(),
{
    if s.len() == 0 || s[0] == sep {
        0
    } else {
        1 + first_index(s.drop_first(), sep)
    }
}

/// What `first_index` says of the characters before and at the position.
pub proof fn lemma_first_index(s: Seq<char>, sep: char)
    ensures
        0 <= first_index(s, sep) <= s.len(),
        forall|k: int| 0 <= k < first_index(s, sep) ==> #[trigger] s[k] != sep,
        first_index(s, sep) < s.len() ==> s[first_index(s, sep)] == sep,
    decreases s.len(),
{
    if s.len() == 0 || s[0] == sep {
    } else {
        let rest = s.drop_first();
        lemma_first_index(rest, sep);
        assert forall|k: int| 0 <= k < first_index(s, sep) implies #[trigger] s[k] != sep by {
            if k > 0 {
                assert(rest[k - 1] == s[k]);
            }
        }
    }
}

/// `first_index` is the only position with those properties.
pub proof fn lemma_first_index_is(s: Seq<char>, sep: char, at: int)
    requires
        0 <= at <= s.len(),
        forall|k: int| 0 <= k < at ==> #[trigger] s[k] != sep,
        at < s.len() ==> s[at] == sep,
    ensures
        first_index(s, sep) == at,
{
    lemma_first_index(s, sep);
}

/// The position of the first `sep` in `s`, or the length of `s` where there is none.
pub fn find_char(s: &[char], sep: char) -> (r: usize)
    ensures
        r == first_index(s@, sep),
        r <= s@.len(),
{
    let mut i: usize = 0;
    while i < s.len() && s[i] != sep
        invariant
            i <= s@.len(),
            forall|k: int| 0 <= k < i ==> #[trigger] s@[k] != sep,
        decreases s@.len() - i,
    {
        i += 1;
    }
    proof {
        lemma_first_index_is(s@, sep, i as int);
    }
    i
}

/// The pieces of `s` between the occurrences of `sep`: one more than there are of them.
pub open spec fn split(s: Seq<char>, sep: char) -> Seq<Seq<char>>
    decreases s.len(),
    via split_decreases
{
    let at = first_index(s, sep);
    if at >= s.len() {
        seq![s]
    } else {
        seq![s.take(at)] + split(s.skip(at + 1), sep)
    }
}

#[via_fn]
proof fn split_decreases(s: Seq<char>, sep: char) {
    lemma_first_index(s, sep);
}

/// Splitting takes off a piece without `sep` that stands before a `sep`.
pub proof fn lemma_split_piece(piece: Seq<char>, sep: char, rest: Seq<char>)
    requires
        !piece.contains(sep),
    ensures
        split(piece + seq![sep] + rest, sep) == seq![piece] + split(rest, sep),
{
    let s = piece + seq![sep] + rest;
    assert forall|k: int| 0 <= k < piece.len() implies #[trigger] s[k] != sep by {
        assert(piece.contains(piece[k]));
    }
    lemma_first_index_is(s, sep, piece.len() as int);
    assert(s.take(piece.len() as int) =~= piece);
    assert(s.skip(piece.len() as int + 1) =~= rest);
}

/// A text without `sep` is one piece.
pub proof fn lemma_split_single(piece: Seq<char>, sep: char)
    requires
        !piece.contains(sep),
    ensures
        split(piece, sep) == seq![piece],
{
    assert forall|k: int| 0 <= k < piece.len() implies #[trigger] piece[k] != sep by {
        assert(piece.contains(piece[k]));
    }
    lemma_first_index_is(piece, sep, piece.len() as int);
}

/// The views of a list of character vectors.
pub open spec fn views(v: Seq<Vec<char>>) -> Seq<Seq<char>> {
    v.map_values(|piece: Vec<char>| piece@)
}

/// The pieces of `s` between the occurrences of `sep`.
pub fn split_chars(s: &[char], sep: char) -> (r: Vec<Vec<char>>)
    ensures
        views(r@) == split(s@, sep),
        r@.len() >= 1,
{
    let mut pieces: Vec<Vec<char>> = Vec::new();
    let mut start: usize = 0;
    proof {
        assert(s@.skip(0) =~= s@);
        assert(views(pieces@) + split(s@, sep) =~= split(s@, sep));
    }
    loop
        invariant
            start <= s@.len(),
            views(pieces@) + split(s@.skip(start as int), sep) == split(s@, sep),
        decreases s@.len() - start,
    {
        let rest = slice_subrange(s, start, s.len());
        proof {
            assert(rest@ =~= s@.skip(start as int));
            lemma_first_index(rest@, sep);
        }
        let at = find_char(rest, sep);
        let ghost before = views(pieces@);
        let piece = slice_to_vec(slice_subrange(rest, 0, at));
        proof {
            assert(piece@ =~= rest@.take(at as int));
        }
        let last: bool = at == rest.len();
        pieces.push(piece);
        proof {
            assert(views(pieces@) =~= before.push(piece@));
        }
        if last {
            proof {
                assert(rest@.take(at as int) =~= rest@);
                assert(views(pieces@) =~= before + seq![rest@]);
            }
            return pieces;
        }
        start = start + at + 1;
        proof {
            assert(rest@.skip(at + 1) =~= s@.skip(start as int));
            assert(views(pieces@) + split(s@.skip(start as int), sep) =~= before + (seq![
                rest@.take(at as int),
            ] + split(rest@.skip(at + 1), sep)));
        }
    }
}

/// `c` with an upper-case ASCII letter replaced by its lower-case form.
pub open spec fn lower_char(c: char) -> char {
    if 'A' <= c <= 'Z' {
        (c as u8 + 32) as char
    } else {
        c
    }
}

/// `s` with every upper-case ASCII letter replaced by its lower-case form.
pub open spec fn lowercase(s: Seq<char>) -> Seq<char> {
    s.map_values(|c: char| lower_char(c))
}

/// `s` with every upper-case ASCII letter replaced by its lower-case form.
pub fn ascii_lowercase(s: &str) -> (r: String)
    ensures
        r@ == lowercase(s@),
{
    let chars = chars_of(s);
    let mut r = String::new();
    let mut i: usize = 0;
    while i < chars.len()
        invariant
            i <= chars@.len(),
            chars@ == s@,
            r@ == lowercase(s@.take(i as int)),
        decreases chars@.len() - i,
    {
        let c = chars[i];
        let lower = if 'A' <= c && c <= 'Z' {
            (c as u8 + 32) as char
        } else {
            c
        };
        r.push(lower);
        proof {
            assert(lowercase(s@.take(i + 1)) =~= lowercase(s@.take(i as int)).push(lower_char(c)));
        }
        i += 1;
    }
    proof {
        assert(s@.take(s@.len() as int) =~= s@);
    }
    r
}

/// Lower-casing twice is lower-casing once.
pub proof fn lemma_lowercase_idempotent(s: Seq<char>)
    ensures
        lowercase(lowercase(s)) == lowercase(s),
{
    assert(lowercase(lowercase(s)) =~= lowercase(s));
}

/// `pieces` one after the other, with `sep` between them.
pub open spec fn join(pieces: Seq<Seq<char>>, sep: char) -> Seq<char>
    decreases pieces.len(),
{
    if pieces.len() == 0 {
        Seq::empty()
    } else if pieces.len() == 1 {
        pieces[0]
    } else {
        pieces[0] + seq![sep] + join(pieces.skip(1), sep)
    }
}

/// The pieces of a text, put together again, are the text.
pub proof fn split_pieces_make_the_text(s: Seq<char>, sep: char)
    ensures
        split(s, sep).len() >= 1,
        join(split(s, sep), sep) == s,
        forall|i: int| 0 <= i < split(s, sep).len() ==> !(#[trigger] split(s, sep)[i]).contains(sep),
    decreases s.len(),
{
    lemma_first_index(s, sep);
    let at = first_index(s, sep);
    if at < s.len() {
        let rest = s.skip(at + 1);
        split_pieces_make_the_text(rest, sep);
        let whole = split(s, sep);
        assert(whole.skip(1) =~= split(rest, sep));
        assert(whole[0] == s.take(at));
        assert(s.take(at) + seq![sep] + rest =~= s);
        assert forall|i: int| 0 <= i < whole.len() implies !(#[trigger] whole[i]).contains(sep) by {
            if i == 0 {
                assert forall|k: int| 0 <= k < at implies #[trigger] s.take(at)[k] != sep by {
                    assert(s[k] != sep);
                }
            } else {
                assert(whole[i] == split(rest, sep)[i - 1]);
            }
        }
    } else {
        assert forall|k: int| 0 <= k < s.len() implies #[trigger] s[k] != sep by {}
    }
}

/// Pieces without a separator are what splitting gives back.
pub proof fn joined_pieces_split_again(pieces: Seq<Seq<char>>, sep: char)
    requires
        pieces.len() >= 1,
        forall|i: int| 0 <= i < pieces.len() ==> !(#[trigger] pieces[i]).contains(sep),
    ensures
        split(join(pieces, sep), sep) == pieces,
    decreases pieces.len(),
{
    if pieces.len() == 1 {
        lemma_split_single(pieces[0], sep);
        assert(seq![pieces[0]] =~= pieces);
    } else {
        let rest = pieces.skip(1);
        assert forall|i: int| 0 <= i < rest.len() implies !(#[trigger] rest[i]).contains(sep) by {
            assert(rest[i] == pieces[i + 1]);
        }
        joined_pieces_split_again(rest, sep);
        lemma_split_piece(pieces[0], sep, join(rest, sep));
        assert(seq![pieces[0]] + rest =~= pieces);
    }
}

/// A text contains another one exactly where something before it and something after it
/// make up the rest.
pub proof fn substring_is_a_part(whole: Seq<char>, part: Seq<char>)
    ensures
        is_substring(whole, part) <==> exists|before: Seq<char>, after: Seq<char>|
            #[trigger] (before + part + after) == whole,
{
    if is_substring(whole, part) {
        let at = choose|at: int| occurs_at(whole, part, at);
        let before = whole.take(at);
        let after = whole.skip(at + part.len());
        assert(before + part + after =~= whole);
    }
    if exists|before: Seq<char>, after: Seq<char>| #[trigger] (before + part + after) == whole {
        let (before, after) = choose|before: Seq<char>, after: Seq<char>|
            #[trigger] (before + part + after) == whole;
        let at = before.len() as int;
        assert(whole.subrange(at, at + part.len()) =~= part);
        assert(occurs_at(whole, part, at));
    }
}

/// One of several texts contains another one exactly where some character position of some
/// text begins it.
pub proof fn some_text_contains(texts: Seq<String>, part: Seq<char>)
    ensures
        some_contains(texts, part) <==> exists|i: int, at: int|
            0 <= i < texts.len() && 0 <= at && at + part.len() <= (#[trigger] texts[i])@.len()
                && #[trigger] texts[i]@.skip(at).take(part.len() as int) == part,
{
    if some_contains(texts, part) {
        let i = choose|i: int| 0 <= i < texts.len() && is_substring(#[trigger] texts[i]@, part);
        let at = choose|at: int| occurs_at(texts[i]@, part, at);
        assert(texts[i]@.skip(at).take(part.len() as int) =~= texts[i]@.subrange(
            at,
            at + part.len(),
        ));
    }
    if exists|i: int, at: int|
        0 <= i < texts.len() && 0 <= at && at + part.len() <= (#[trigger] texts[i])@.len()
            && #[trigger] texts[i]@.skip(at).take(part.len() as int) == part {
        let (i, at) = choose|i: int, at: int|
            0 <= i < texts.len() && 0 <= at && at + part.len() <= (#[trigger] texts[i])@.len()
                && #[trigger] texts[i]@.skip(at).take(part.len() as int) == part;
        assert(texts[i]@.subrange(at, at + part.len()) =~= texts[i]@.skip(at).take(
            part.len() as int,
        ));
        assert(occurs_at(texts[i]@, part, at));
        assert(is_substring(texts[i]@, part));
    }
}

/// Lower-casing keeps the length and every character but the upper-case ASCII letters, which
/// become the letters with the same place in the lower-case alphabet.
pub proof fn lowercase_changes_letters_only(s: Seq<char>)
    ensures
        lowercase(s).len() == s.len(),
        forall|i: int|
            0 <= i < s.len() ==> if 'A' <= #[trigger] s[i] && s[i] <= 'Z' {
                lowercase(s)[i] as int - 'a' as int == s[i] as int - 'A' as int
            } else {
                lowercase(s)[i] == s[i]
            },
{
}

} // verus!
