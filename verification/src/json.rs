//! JSON text, read and written by `serde_json`.

use crate::models::opt_chars;
use crate::text::{hex_digit, push_signed_decimal, signed_decimal};
use vstd::prelude::*;
use vstd::string::StringExecFns;

verus! {

/// One character as it stands in a JSON string: a double quote and a backslash
/// behind a backslash; backspace, tab, line feed, form feed and carriage return as
/// `\b`, `\t`, `\n`, `\f` and `\r`; any other character below the space as `\u00`
/// and its two hexadecimal digits; every other character as it is.
pub open spec fn json_escaped_char(c: char) -> Seq<char> {
    if c == '"' {
        seq!['\\', '"']
    } else if c == '\\' {
        seq!['\\', '\\']
    } else if c == '\u{8}' {
        seq!['\\', 'b']
    } else if c == '\t' {
        seq!['\\', 't']
    } else if c == '\n' {
        seq!['\\', 'n']
    } else if c == '\u{c}' {
        seq!['\\', 'f']
    } else if c == '\r' {
        seq!['\\', 'r']
    } else if (c as u32) < 0x20 {
        seq![
            '\\',
            'u',
            '0',
            '0',
            hex_digit(c as u32 as int / 16),
            hex_digit(c as u32 as int % 16),
        ]
    } else {
        seq![c]
    }
}

/// The characters of `text` as they stand in a JSON string.
pub open spec fn json_escaped(text: Seq<char>) -> Seq<char>
    decreases text.len(),
{
    if text.len() == 0 {
        Seq::empty()
    } else {
        json_escaped(text.drop_last()) + json_escaped_char(text.last())
    }
}

/// `text` as a JSON string: its characters, escaped, between double quotes.
pub open spec fn json_string_literal(text: Seq<char>) -> Seq<char> {
    seq!['"'] + json_escaped(text) + seq!['"']
}

/// The value that the JSON text `raw` writes, written again in compact form, where
/// `raw` is JSON.
pub uninterp spec fn json_compact(raw: Seq<char>) -> Option<Seq<char>>;

/// The strings of the JSON array of strings that `raw` writes, where it writes one.
pub uninterp spec fn json_string_array(raw: Seq<char>) -> Option<Seq<Seq<char>>>;

/// The characters of each string of `strings`.
pub open spec fn string_views(strings: Seq<String>) -> Seq<Seq<char>> {
    Seq::new(strings.len(), |i: int| strings[i]@)
}

/// `serde_json::Value::String`, written by its `Display`: the compact JSON form of
/// the string `text`, which is `text` between double quotes with the escapes that
/// the serializer's table gives to quotes, backslashes and control characters.
#[verifier::external_body]
pub(crate) fn quote_json(text: &str) -> (literal: String)
    ensures
        literal@ == json_string_literal(text@),
{
    serde_json::Value::String(text.to_owned()).to_string()
}

/// `serde_json::from_str` into a `serde_json::Value`, written by its `Display`:
/// the compact form of `raw`, or nothing where `raw` is not JSON.
#[verifier::external_body]
pub(crate) fn compact_json_text(raw: &str) -> (compact: Option<String>)
    ensures
        match compact {
            Some(text) => json_compact(raw@) == Some(text@),
            None => json_compact(raw@) is None,
        },
{
    match serde_json::from_str::<serde_json::Value>(raw) {
        Ok(value) => Some(value.to_string()),
        Err(_) => None,
    }
}

/// `serde_json::from_str` into a `Vec<String>`: the strings of the array that `raw`
/// writes, or nothing where `raw` is not a JSON array of strings.
#[verifier::external_body]
pub(crate) fn parse_string_array(raw: &str) -> (strings: Option<Vec<String>>)
    ensures
        match strings {
            Some(list) => json_string_array(raw@) == Some(string_views(list@)),
            None => json_string_array(raw@) is None,
        },
{
    match serde_json::from_str::<Vec<String>>(raw) {
        Ok(list) => Some(list),
        Err(_) => None,
    }
}

/// The JSON form of a string that may be absent: the string, or `null`.
pub open spec fn json_opt_string(value: Option<Seq<char>>) -> Seq<char> {
    match value {
        Some(text) => json_string_literal(text),
        None => "null"@,
    }
}

/// The JSON form of a number that may be absent: the number, or `null`.
pub open spec fn json_opt_number(value: Option<i64>) -> Seq<char> {
    match value {
        Some(number) => signed_decimal(number as int),
        None => "null"@,
    }
}

/// The detail of an event as JSON: the detail itself in compact form where it is
/// JSON text, else the detail as a JSON string.
pub open spec fn detail_json(detail: Seq<char>) -> Seq<char> {
    match json_compact(detail) {
        Some(compact) => compact,
        None => json_string_literal(detail),
    }
}

/// The detail of an event as JSON; see [`detail_json`].
pub fn render_detail(detail: &str) -> (rendered: String)
    ensures
        rendered@ == detail_json(detail@),
{
    match compact_json_text(detail) {
        Some(compact) => compact,
        None => quote_json(detail),
    }
}

/// Appends `text` as a JSON string.
pub fn push_json_string(out: &mut String, text: &str)
    ensures
        final(out)@ == old(out)@ + json_string_literal(text@),
{
    let literal = quote_json(text);
    out.append(literal.as_str());
}

/// Appends a string that may be absent.
pub fn push_json_opt_string(out: &mut String, value: &Option<String>)
    ensures
        final(out)@ == old(out)@ + json_opt_string(opt_chars(*value)),
{
    match value {
        Some(text) => push_json_string(out, text.as_str()),
        None => out.append("null"),
    }
}

/// Appends a number that may be absent.
pub fn push_json_opt_number(out: &mut String, value: Option<i64>)
    ensures
        final(out)@ == old(out)@ + json_opt_number(value),
{
    match value {
        Some(number) => push_signed_decimal(out, number),
        None => out.append("null"),
    }
}

} // verus!
