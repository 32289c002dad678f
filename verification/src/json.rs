//! Reading one field of a JSON object with `serde_json`.

use vstd::prelude::*;

verus! {

/// What a JSON object holds under one key.
#[derive(Debug)]
pub enum JsonField {
    /// The text is no JSON object, or has no such key.
    Missing,
    /// The key holds `null`.
    Null,
    /// The key holds a string.
    Str(String),
    /// The key holds a boolean.
    Bool(bool),
    /// The key holds an object, given back as its JSON text.
    Object(String),
    /// The key holds an array, each element given back as its JSON text.
    Array(Vec<String>),
    /// The key holds a number.
    Other,
}

/// The mathematical form of a [`JsonField`].
pub enum JsonFieldView {
    Missing,
    Null,
    Str(Seq<char>),
    Bool(bool),
    Object(Seq<char>),
    Array(Seq<Seq<char>>),
    Other,
}

impl View for JsonField {
    type V = JsonFieldView;

    open spec fn view(&self) -> JsonFieldView {
        match self {
            JsonField::Missing => JsonFieldView::Missing,
            JsonField::Null => JsonFieldView::Null,
            JsonField::Str(s) => JsonFieldView::Str(s@),
            JsonField::Bool(b) => JsonFieldView::Bool(*b),
            JsonField::Object(t) => JsonFieldView::Object(t@),
            JsonField::Array(items) => JsonFieldView::Array(items@.map_values(|t: String| t@)),
            JsonField::Other => JsonFieldView::Other,
        }
    }
}

/// What `serde_json` finds under `key` when it parses `text` as a JSON value:
/// `Missing` where the text is no valid JSON, no object, or lacks the key.
pub uninterp spec fn json_object_field(text: Seq<char>, key: Seq<char>) -> JsonFieldView;

/// Parses `text` with `serde_json::from_str::<serde_json::Value>` and reads the
/// value under `key` with `Value::get`; an object found there, and each
/// element of an array, is written back with `Value::to_string`. The contract names the result
/// (`json_object_field`); what JSON text holds is `serde_json`'s grammar and is
/// not restated here.
#[verifier::external_body]
pub(crate) fn json_field(text: &str, key: &str) -> (r: JsonField)
    ensures
        r@ == json_object_field(text@, key@),
{
    match serde_json::from_str::<serde_json::Value>(text) {
        Ok(value) => match value.get(key) {
            None => JsonField::Missing,
            Some(serde_json::Value::Null) => JsonField::Null,
            Some(serde_json::Value::String(s)) => JsonField::Str(s.clone()),
            Some(serde_json::Value::Bool(b)) => JsonField::Bool(*b),
            Some(inner @ serde_json::Value::Object(_)) => JsonField::Object(inner.to_string()),
            Some(serde_json::Value::Array(items)) => JsonField::Array(
                items.iter().map(|item| item.to_string()).collect(),
            ),
            Some(_) => JsonField::Other,
        },
        Err(_) => JsonField::Missing,
    }
}

/// A lowercase hexadecimal digit.
pub open spec fn hex_digit(d: nat) -> char {
    if d < 10 {
        (d + 48) as char
    } else {
        (d + 87) as char
    }
}

/// How `serde_json` writes one character inside a string literal: a quote
/// and a backslash are escaped with a backslash, the five control
/// characters with short escapes use them, the other control characters
/// below U+0020 become `\u00xx`, and every other character stands as it is.
pub open spec fn json_char_escape(c: char) -> Seq<char> {
    if c == '"' {
        seq!['\\', '"']
    } else if c == '\\' {
        seq!['\\', '\\']
    } else if c == '\u{8}' {
        seq!['\\', 'b']
    } else if c == '\u{c}' {
        seq!['\\', 'f']
    } else if c == '\n' {
        seq!['\\', 'n']
    } else if c == '\r' {
        seq!['\\', 'r']
    } else if c == '\t' {
        seq!['\\', 't']
    } else if (c as u32) < 0x20 {
        seq!['\\', 'u', '0', '0', hex_digit((c as nat) / 16), hex_digit((c as nat) % 16)]
    } else {
        seq![c]
    }
}

/// The characters of `s`, each written as [`json_char_escape`] says.
pub open spec fn json_escaped(s: Seq<char>) -> Seq<char>
    decreases s.len(),
{
    if s.len() == 0 {
        Seq::empty()
    } else {
        json_escaped(s.drop_last()) + json_char_escape(s.last())
    }
}

/// The JSON string literal of `s`: its escaped characters between quotes.
pub open spec fn json_quoted(s: Seq<char>) -> Seq<char> {
    seq!['"'] + json_escaped(s) + seq!['"']
}

/// Writes `s` as a JSON string literal with `serde_json::to_string`, which
/// escapes as [`json_quoted`] says (its escape table and
/// `Formatter::write_char_escape`).
#[verifier::external_body]
pub(crate) fn json_string(s: &str) -> (r: String)
    ensures
        r@ == json_quoted(s@),
{
    serde_json::to_string(s).unwrap_or_default()
}

} // verus!
