//! The crate's JSON boundary. Reading is delegated to serde_json through a
//! handful of trusted accessors, each addressing a document by a JSON
//! pointer path and returning a plain value; what a given document holds at
//! a given path is given a name, and all navigation of the wire format's
//! shape happens in verified code on top of these. Writing is the verified
//! escape logic here plus the serializers built on it.

use vstd::prelude::*;
use vstd::string::StrSliceExecFns;

verus! {

/// The kind of a JSON value.
#[derive(Clone, Copy, PartialEq, Eq, Structural, Debug)]
pub enum JsonKind {
    Null,
    Bool,
    Number,
    String,
    Array,
    Object,
}

/// The string at a pointer path of a document: what
/// `serde_json::Value::pointer` followed by `as_str` yields, and nothing
/// when the document does not parse, the path leads nowhere, or the value
/// there is not a string.
pub uninterp spec fn spec_json_str_at(doc: Seq<char>, ptr: Seq<char>) -> Option<Seq<char>>;

/// The kind of the value at a pointer path of a document, when the document
/// parses and the path leads to a value.
pub uninterp spec fn spec_json_kind_at(doc: Seq<char>, ptr: Seq<char>) -> Option<JsonKind>;

/// The element count of the array at a pointer path of a document.
pub uninterp spec fn spec_json_len_at(doc: Seq<char>, ptr: Seq<char>) -> Option<usize>;

/// The boolean at a pointer path of a document.
pub uninterp spec fn spec_json_bool_at(doc: Seq<char>, ptr: Seq<char>) -> Option<bool>;

/// The unsigned number at a pointer path of a document.
pub uninterp spec fn spec_json_u64_at(doc: Seq<char>, ptr: Seq<char>) -> Option<u64>;

/// Relies on `serde_json::from_str`, `Value::pointer` and `Value::as_str`:
/// the string value at a pointer path, a pure function of document and path.
#[verifier::external_body]
pub fn json_str_at(doc: &str, ptr: &str) -> (r: Option<String>)
    ensures
        r is Some <==> spec_json_str_at(doc@, ptr@) is Some,
        r matches Some(s) ==> spec_json_str_at(doc@, ptr@) == Some(s@),
{
    let v: serde_json::Value = match serde_json::from_str(doc) {
        Ok(v) => v,
        Err(_) => {
            return None;
        },
    };
    v.pointer(ptr).and_then(|x| x.as_str()).map(|x| x.to_owned())
}

/// Relies on `serde_json::from_str` and `Value::pointer`: which variant of
/// `serde_json::Value` sits at a pointer path, a pure function of document
/// and path.
#[verifier::external_body]
pub fn json_kind_at(doc: &str, ptr: &str) -> (r: Option<JsonKind>)
    ensures
        r == spec_json_kind_at(doc@, ptr@),
{
    let v: serde_json::Value = match serde_json::from_str(doc) {
        Ok(v) => v,
        Err(_) => {
            return None;
        },
    };
    v.pointer(ptr).map(|x| match x {
        serde_json::Value::Null => JsonKind::Null,
        serde_json::Value::Bool(_) => JsonKind::Bool,
        serde_json::Value::Number(_) => JsonKind::Number,
        serde_json::Value::String(_) => JsonKind::String,
        serde_json::Value::Array(_) => JsonKind::Array,
        serde_json::Value::Object(_) => JsonKind::Object,
    })
}

/// Relies on `serde_json::from_str`, `Value::pointer` and `Value::as_array`:
/// how many elements the array at a pointer path has, a pure function of
/// document and path.
#[verifier::external_body]
pub fn json_len_at(doc: &str, ptr: &str) -> (r: Option<usize>)
    ensures
        r == spec_json_len_at(doc@, ptr@),
{
    let v: serde_json::Value = match serde_json::from_str(doc) {
        Ok(v) => v,
        Err(_) => {
            return None;
        },
    };
    v.pointer(ptr).and_then(|x| x.as_array()).map(|a| a.len())
}

/// Relies on `serde_json::from_str`, `Value::pointer` and `Value::as_bool`:
/// the boolean at a pointer path, a pure function of document and path.
#[verifier::external_body]
pub fn json_bool_at(doc: &str, ptr: &str) -> (r: Option<bool>)
    ensures
        r == spec_json_bool_at(doc@, ptr@),
{
    let v: serde_json::Value = match serde_json::from_str(doc) {
        Ok(v) => v,
        Err(_) => {
            return None;
        },
    };
    v.pointer(ptr).and_then(|x| x.as_bool())
}

/// Relies on `serde_json::from_str`, `Value::pointer` and `Value::as_u64`:
/// the unsigned number at a pointer path, a pure function of document and
/// path.
#[verifier::external_body]
pub fn json_u64_at(doc: &str, ptr: &str) -> (r: Option<u64>)
    ensures
        r == spec_json_u64_at(doc@, ptr@),
{
    let v: serde_json::Value = match serde_json::from_str(doc) {
        Ok(v) => v,
        Err(_) => {
            return None;
        },
    };
    v.pointer(ptr).and_then(|x| x.as_u64())
}

/// The hexadecimal digit character for a value below sixteen.
pub open spec fn hex_digit(d: int) -> char {
    if d == 0 {
        '0'
    } else if d == 1 {
        '1'
    } else if d == 2 {
        '2'
    } else if d == 3 {
        '3'
    } else if d == 4 {
        '4'
    } else if d == 5 {
        '5'
    } else if d == 6 {
        '6'
    } else if d == 7 {
        '7'
    } else if d == 8 {
        '8'
    } else if d == 9 {
        '9'
    } else if d == 10 {
        'a'
    } else if d == 11 {
        'b'
    } else if d == 12 {
        'c'
    } else if d == 13 {
        'd'
    } else if d == 14 {
        'e'
    } else {
        'f'
    }
}

/// How one character appears inside a JSON string literal: quote and
/// backslash get a backslash, the named control characters their short
/// escapes, other control characters a `\u00..` escape, and everything else
/// stands as itself.
pub open spec fn escape_char(c: char) -> Seq<char> {
    if c == '"' {
        seq!['\\', '"']
    } else if c == '\\' {
        seq!['\\', '\\']
    } else if c == '\u{8}' {
        seq!['\\', 'b']
    } else if c == '\u{c}' {
        seq!['\\', 'f']
    } else if c == '\n' {
        seq!['\\', 'n']
    } else if c == '\r' {
        seq!['\\', 'r']
    } else if c == '\t' {
        seq!['\\', 't']
    } else if (c as int) < 0x20 {
        seq!['\\', 'u', '0', '0', hex_digit((c as int) / 16), hex_digit((c as int) % 16)]
    } else {
        seq![c]
    }
}

/// A text with every character escaped for a JSON string literal.
pub open spec fn json_escaped(s: Seq<char>) -> Seq<char>
    decreases s.len(),
{
    if s.len() == 0 {
        Seq::empty()
    } else {
        json_escaped(s.drop_last()) + escape_char(s.last())
    }
}

/// A JSON string literal: the escaped text between double quotes.
pub open spec fn json_quoted(s: Seq<char>) -> Seq<char> {
    seq!['"'] + json_escaped(s) + seq!['"']
}

fn hex_digit_char(d: u32) -> (c: char)
    requires
        d < 16,
    ensures
        c == hex_digit(d as int),
{
    if d == 0 {
        '0'
    } else if d == 1 {
        '1'
    } else if d == 2 {
        '2'
    } else if d == 3 {
        '3'
    } else if d == 4 {
        '4'
    } else if d == 5 {
        '5'
    } else if d == 6 {
        '6'
    } else if d == 7 {
        '7'
    } else if d == 8 {
        '8'
    } else if d == 9 {
        '9'
    } else if d == 10 {
        'a'
    } else if d == 11 {
        'b'
    } else if d == 12 {
        'c'
    } else if d == 13 {
        'd'
    } else if d == 14 {
        'e'
    } else {
        'f'
    }
}

/// Appends one character in its JSON-escaped form.
fn push_escaped_char(out: &mut Vec<char>, c: char)
    ensures
        final(out)@ == old(out)@ + escape_char(c),
{
    if c == '"' {
        out.push('\\');
        out.push('"');
    } else if c == '\\' {
        out.push('\\');
        out.push('\\');
    } else if c == '\u{8}' {
        out.push('\\');
        out.push('b');
    } else if c == '\u{c}' {
        out.push('\\');
        out.push('f');
    } else if c == '\n' {
        out.push('\\');
        out.push('n');
    } else if c == '\r' {
        out.push('\\');
        out.push('r');
    } else if c == '\t' {
        out.push('\\');
        out.push('t');
    } else if (c as u32) < 0x20 {
        let d = c as u32;
        out.push('\\');
        out.push('u');
        out.push('0');
        out.push('0');
        out.push(hex_digit_char(d / 16));
        out.push(hex_digit_char(d % 16));
        assert(out@ =~= old(out)@ + escape_char(c));
    } else {
        out.push(c);
        assert(out@ =~= old(out)@ + escape_char(c));
    }
    assert(out@ =~= old(out)@ + escape_char(c));
}

/// Appends the JSON string literal for `s`, quotes included.
pub fn push_json_string(out: &mut Vec<char>, s: &str)
    ensures
        final(out)@ == old(out)@ + json_quoted(s@),
{
    out.push('"');
    let n = s.unicode_len();
    let mut i: usize = 0;
    while i < n
        invariant
            i <= n,
            n == s@.len(),
            out@ == old(out)@ + seq!['"'] + json_escaped(s@.take(i as int)),
        decreases n - i,
    {
        push_escaped_char(out, s.get_char(i));
        proof {
            assert(s@.take(i + 1).drop_last() =~= s@.take(i as int));
            assert(s@.take(i + 1).last() == s@[i as int]);
        }
        i = i + 1;
    }
    out.push('"');
    proof {
        assert(s@.take(n as int) =~= s@);
        assert(out@ =~= old(out)@ + json_quoted(s@));
    }
}

} // verus!
