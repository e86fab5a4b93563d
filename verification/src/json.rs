//! The JSON that PipeWire metadata values are written in, read and written
//! by `serde_json`.

use vstd::prelude::*;

use crate::property_store::opt_text;

verus! {

/// The string under the key `name` of the JSON object written as `text`;
/// nothing when `text` is not JSON, not an object, or has no string there.
pub uninterp spec fn json_name_field(text: Seq<char>) -> Option<Seq<char>>;

/// The integer that `text` writes in JSON, when it writes one that fits in
/// an `i64`.
pub uninterp spec fn json_i64(text: Seq<char>) -> Option<i64>;

/// A digit of a number in hexadecimal, in lower case.
pub open spec fn hex_digit(n: int) -> char {
    if n < 10 {
        ('0' as int + n) as char
    } else {
        ('a' as int + n - 10) as char
    }
}

/// How a character is written inside a JSON string: a quote and a backslash
/// after a backslash; backspace, tab, line feed, form feed and carriage
/// return as `\b`, `\t`, `\n`, `\f` and `\r`; the other characters
/// below U+0020 as `\u00` and two hexadecimal digits; all else as itself.
pub open spec fn json_escape_char(c: char) -> Seq<char> {
    if c == '"' {
        seq!['\\', '"']
    } else if c == '\\' {
        seq!['\\', '\\']
    } else if c == '\u{8}' {
        seq!['\\', 'b']
    } else if c == '\t' {
        seq!['\\', 't']
    } else if c == '\n' {
        seq!['\\', 'n']
    } else if c == '\u{c}' {
        seq!['\\', 'f']
    } else if c == '\r' {
        seq!['\\', 'r']
    } else if (c as int) < 0x20 {
        seq!['\\', 'u', '0', '0', hex_digit(c as int / 16), hex_digit(c as int % 16)]
    } else {
        seq![c]
    }
}

/// The characters of `s`, each written as inside a JSON string.
pub open spec fn json_escaped(s: Seq<char>) -> Seq<char>
    decreases s.len(),
{
    if s.len() == 0 {
        seq![]
    } else {
        json_escape_char(s[0]) + json_escaped(s.skip(1))
    }
}

/// The JSON string literal for `s`: its escaped characters between quotes.
pub open spec fn json_quoted(s: Seq<char>) -> Seq<char> {
    seq!['"'] + json_escaped(s) + seq!['"']
}

/// Reads `text` with `serde_json::from_str::<serde_json::Value>` and gives
/// the string that `Value::get("name")` and `Value::as_str` find in it.
/// Claimed: the result is `json_name_field` of the text; what that is, is
/// serde_json's reading of JSON, which is not stated here.
#[verifier::external_body]
pub(crate) fn name_field(text: &str) -> (name: Option<String>)
    ensures
        opt_text(name) == json_name_field(text@),
{
    match serde_json::from_str::<serde_json::Value>(text) {
        Ok(value) => match value.get("name") {
            Some(field) => field.as_str().map(String::from),
            None => None,
        },
        Err(_) => None,
    }
}

/// `serde_json::from_str::<i64>`, with a refusal as `None`. Claimed: the
/// result is `json_i64` of the text.
#[verifier::external_body]
pub(crate) fn parse_i64(text: &str) -> (n: Option<i64>)
    ensures
        n == json_i64(text@),
{
    serde_json::from_str::<i64>(text).ok()
}

/// `serde_json::to_string` of a string slice. Claimed: the result is
/// `json_quoted` of `s`, as serde_json's escape table gives it. Serialising a `str` cannot fail (serde_json writes
/// it into a byte vector), so the error arm is never taken.
#[verifier::external_body]
pub(crate) fn quoted(s: &str) -> (q: String)
    ensures
        q@ == json_quoted(s@),
{
    match serde_json::to_string(s) {
        Ok(q) => q,
        Err(_) => String::new(),
    }
}

} // verus!
