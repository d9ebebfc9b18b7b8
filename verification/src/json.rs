//! What is read from JSON texts and written into them.

use vstd::prelude::*;

verus! {

/// The string that `serde_json` finds under `key` in the object that `json`
/// spells; none where `json` spells no object, or holds no string there.
pub uninterp spec fn str_member(json: Seq<char>, key: Seq<char>) -> Option<Seq<char>>;

/// The truth value that `serde_json` finds under `key` in the object that `json`
/// spells.
pub uninterp spec fn bool_member(json: Seq<char>, key: Seq<char>) -> Option<bool>;

/// The JSON text of whatever `serde_json` finds under `key` in the object that
/// `json` spells.
pub uninterp spec fn any_member(json: Seq<char>, key: Seq<char>) -> Option<Seq<char>>;

/// The digit of `n` in base sixteen, in lower case.
pub open spec fn hex_digit(n: int) -> char {
    if n < 10 {
        (48 + n) as char
    } else {
        (87 + n) as char
    }
}

/// One character inside a JSON string: quotes, backslashes and control characters
/// are escaped, everything else stands for itself.
pub open spec fn escaped_char(c: char) -> Seq<char> {
    if c == '"' || c == '\\' {
        seq!['\\', c]
    } else if c == '\u{8}' {
        seq!['\\', 'b']
    } else if c == '\t' {
        seq!['\\', 't']
    } else if c == '\n' {
        seq!['\\', 'n']
    } else if c == '\u{c}' {
        seq!['\\', 'f']
    } else if c == '\r' {
        seq!['\\', 'r']
    } else if c <= '\u{1f}' {
        seq!['\\', 'u', '0', '0', hex_digit(c as int / 16), hex_digit(c as int % 16)]
    } else {
        seq![c]
    }
}

/// A text inside a JSON string.
pub open spec fn escaped(s: Seq<char>) -> Seq<char>
    decreases s.len(),
{
    if s.len() == 0 {
        Seq::empty()
    } else {
        escaped(s.drop_last()) + escaped_char(s.last())
    }
}

/// The JSON string of a text.
pub open spec fn quoted(s: Seq<char>) -> Seq<char> {
    seq!['"'] + escaped(s) + seq!['"']
}

/// `serde_json::from_str` into a `Value`, then `Value::get` and `Value::as_str`:
/// the result depends on the text and the key alone.
#[verifier::external_body]
pub(crate) fn get_str(json: &str, key: &str) -> (r: Option<String>)
    ensures
        crate::text::opt_view(r) == str_member(json@, key@),
{
    let v: serde_json::Value = serde_json::from_str(json).ok()?;
    v.get(key)?.as_str().map(str::to_string)
}

/// `serde_json::from_str` into a `Value`, then `Value::get` and `Value::as_bool`:
/// the result depends on the text and the key alone.
#[verifier::external_body]
pub(crate) fn get_bool(json: &str, key: &str) -> (r: Option<bool>)
    ensures
        r == bool_member(json@, key@),
{
    let v: serde_json::Value = serde_json::from_str(json).ok()?;
    v.get(key)?.as_bool()
}

/// `serde_json::from_str` into a `Value`, then `Value::get` and the `Display` of
/// `Value`: the result depends on the text and the key alone.
#[verifier::external_body]
pub(crate) fn get_any(json: &str, key: &str) -> (r: Option<String>)
    ensures
        crate::text::opt_view(r) == any_member(json@, key@),
{
    let v: serde_json::Value = serde_json::from_str(json).ok()?;
    v.get(key).map(|m| m.to_string())
}

/// `serde_json::to_string` of a text, which does not fail on text: the text in
/// quotes, with quotes, backslashes and control characters escaped.
#[verifier::external_body]
pub(crate) fn quote(s: &str) -> (r: String)
    ensures
        r@ == quoted(s@),
{
    serde_json::to_string(s).unwrap_or_else(|_| "\"\"".to_string())
}

} // verus!
