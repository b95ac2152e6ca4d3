//! JSON values, as far as a JWK is read, and JSON string literals.
use crate::pop::hex;
use serde_json::Value;
use vstd::prelude::*;

verus! {

/// A JSON value of the crate serde_json.
#[verifier::external_type_specification]
#[verifier::external_body]
pub struct ExValue(serde_json::Value);

/// The members of a JSON value whose own value is a string, with those strings. A value
/// that is no object has none.
pub uninterp spec fn json_strings(value: serde_json::Value) -> Map<Seq<char>, Seq<char>>;

/// Whether a JSON value is an object.
pub uninterp spec fn json_is_object(value: serde_json::Value) -> bool;

/// The text that the crate serde_json writes for a JSON value.
pub uninterp spec fn json_text(value: serde_json::Value) -> Seq<char>;

/// `Value::is_object` of the crate serde_json tells whether the value is an object.
#[verifier::external_body]
pub(crate) fn is_object(value: &Value) -> (r: bool)
    ensures
        r == json_is_object(*value),
{
    value.is_object()
}

/// `Value::get` of the crate serde_json with a string as its argument, and
/// `Value::as_str` on what that gives: the string that the member holds, if the value
/// is an object with this member and the member is a string.
#[verifier::external_body]
pub(crate) fn member_text<'a>(value: &'a Value, key: &str) -> (r: Option<&'a str>)
    ensures
        match r {
            Some(text) => json_is_object(*value) && json_strings(*value).contains_key(key@)
                && text@ == json_strings(*value)[key@],
            None => !json_strings(*value).contains_key(key@),
        },
{
    value.get(key).and_then(Value::as_str)
}

/// `to_string` on a `Value` of the crate serde_json writes the value as compact JSON.
/// What it writes is a function of the value; nothing is claimed of that function.
#[verifier::external_body]
pub(crate) fn value_text(value: &Value) -> (r: String)
    ensures
        r@ == json_text(*value),
{
    value.to_string()
}

/// What stands for a character inside a JSON string literal: itself, unless it is a
/// quotation mark, a backslash or a control character.
pub open spec fn escaped_char(c: char) -> Seq<char> {
    if c == '"' {
        seq!['\\', '"']
    } else if c == '\\' {
        seq!['\\', '\\']
    } else if c == '\x08' {
        seq!['\\', 'b']
    } else if c == '\t' {
        seq!['\\', 't']
    } else if c == '\n' {
        seq!['\\', 'n']
    } else if c == '\x0c' {
        seq!['\\', 'f']
    } else if c == '\r' {
        seq!['\\', 'r']
    } else if ' ' > c {
        seq!['\\', 'u', '0', '0', hex::hex_digit(c as int / 16), hex::hex_digit(c as int % 16)]
    } else {
        seq![c]
    }
}

/// What stands for a text inside a JSON string literal.
pub open spec fn escaped(s: Seq<char>) -> Seq<char>
    decreases s.len(),
{
    if s.len() == 0 {
        seq![]
    } else {
        escaped_char(s[0]) + escaped(s.skip(1))
    }
}

/// The JSON string literal for a text.
pub open spec fn quoted(s: Seq<char>) -> Seq<char> {
    seq!['"'] + escaped(s) + seq!['"']
}

/// `serde_json::to_string` on a string writes it as a JSON string literal: in quotation
/// marks, with quotation marks, backslashes and control characters escaped, and nothing
/// else. It cannot fail on a string.
#[verifier::external_body]
pub(crate) fn json_string(s: &str) -> (r: String)
    ensures
        r@ == quoted(s@),
{
    serde_json::to_string(s).expect("serializing a &str to JSON is infallible")
}

/// What follows a character tells where its escaped form ends, and which it is.
proof fn lemma_escaped_char(c: char, d: char, r: Seq<char>, t: Seq<char>)
    requires
        escaped_char(c) + r == escaped_char(d) + t,
    ensures
        c == d,
        r == t,
{
    let a = escaped_char(c) + r;
    let b = escaped_char(d) + t;
    let x = escaped_char(c);
    let y = escaped_char(d);
    assert(a[0] == x[0] && b[0] == y[0]);
    if x.len() > 1 {
        assert(a[1] == x[1]);
    }
    if y.len() > 1 {
        assert(b[1] == y[1]);
    }
    if x.len() == 6 && y.len() == 6 {
        assert(a[4] == x[4] && a[5] == x[5] && b[4] == y[4] && b[5] == y[5]);
        assert(c as int == d as int);
    }
    assert(c == d);
    assert(r =~= a.skip(x.len() as int));
    assert(t =~= b.skip(y.len() as int));
}

/// The contents of a string literal end at the first quotation mark that is not escaped.
proof fn lemma_escaped(a: Seq<char>, b: Seq<char>, r: Seq<char>, t: Seq<char>)
    requires
        escaped(a) + (seq!['"'] + r) == escaped(b) + (seq!['"'] + t),
    ensures
        a == b,
        r == t,
    decreases a.len(),
{
    let qr = seq!['"'] + r;
    let qt = seq!['"'] + t;
    let left = escaped(a) + qr;
    let right = escaped(b) + qt;
    assert(qr[0] == '"' && qt[0] == '"');
    if a.len() == 0 && b.len() == 0 {
        assert(left =~= qr && right =~= qt);
        assert(r =~= qr.skip(1));
        assert(t =~= qt.skip(1));
        assert(a =~= b);
    } else if a.len() == 0 {
        assert(left =~= qr);
        assert(right[0] == escaped_char(b[0])[0]);
    } else if b.len() == 0 {
        assert(right =~= qt);
        assert(left[0] == escaped_char(a[0])[0]);
    } else {
        assert(left =~= escaped_char(a[0]) + (escaped(a.skip(1)) + qr));
        assert(right =~= escaped_char(b[0]) + (escaped(b.skip(1)) + qt));
        lemma_escaped_char(a[0], b[0], escaped(a.skip(1)) + qr, escaped(b.skip(1)) + qt);
        lemma_escaped(a.skip(1), b.skip(1), r, t);
        assert(a =~= seq![a[0]] + a.skip(1));
        assert(b =~= seq![b[0]] + b.skip(1));
    }
}

/// A string literal at the front of a text can be read back: the text that it stands
/// for and what follows it are certain.
pub proof fn quoted_can_be_read_back(a: Seq<char>, b: Seq<char>, r: Seq<char>, t: Seq<char>)
    requires
        quoted(a) + r == quoted(b) + t,
    ensures
        a == b,
        r == t,
{
    let left = quoted(a) + r;
    let right = quoted(b) + t;
    assert(left.skip(1) =~= escaped(a) + (seq!['"'] + r));
    assert(right.skip(1) =~= escaped(b) + (seq!['"'] + t));
    lemma_escaped(a, b, r, t);
}

} // verus!
