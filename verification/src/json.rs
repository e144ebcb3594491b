//! The JSON text of a string, through `serde_json`.

use vstd::prelude::*;

verus! {

/// `serde_json::Error`, carried through as an opaque value.
#[verifier::external_type_specification]
#[verifier::external_body]
pub struct ExJsonError(serde_json::Error);

/// The string that the JSON text `text` denotes, when `text` is one JSON
/// string literal (surrounding whitespace allowed), as `serde_json` decodes it.
pub uninterp spec fn json_string_decode(text: Seq<char>) -> Option<Seq<char>>;

/// The hexadecimal digit of `d`, in lower case, for `d` below 16.
pub open spec fn hex_digit(d: u32) -> char {
    seq!['0', '1', '2', '3', '4', '5', '6', '7', '8', '9', 'a', 'b', 'c', 'd', 'e', 'f'][d as int]
}

/// How `serde_json` writes one character inside a string: `"` and `\`
/// after a backslash; backspace, tab, line feed, form feed and carriage
/// return as `\b`, `\t`, `\n`, `\f`, `\r`; the other characters below
/// U+0020 as `\u00` and two lowercase hexadecimal digits; every other
/// character as itself.
pub open spec fn json_escape_char(c: char) -> Seq<char> {
    if c == '"' {
        seq!['\\', '"']
    } else if c == '\\' {
        seq!['\\', '\\']
    } else if c == '\u{8}' {
        seq!['\\', 'b']
    } else if c == '\t' {
        seq!['\\', 't']
    } else if c == '\n' {
        seq!['\\', 'n']
    } else if c == '\u{c}' {
        seq!['\\', 'f']
    } else if c == '\r' {
        seq!['\\', 'r']
    } else if (c as u32) < 0x20 {
        seq!['\\', 'u', '0', '0', hex_digit((c as u32) / 16), hex_digit((c as u32) % 16)]
    } else {
        seq![c]
    }
}

/// The characters of `s`, each written as `serde_json` writes it inside a
/// string.
pub open spec fn json_escape(s: Seq<char>) -> Seq<char>
    decreases s.len(),
{
    if s.len() == 0 {
        Seq::empty()
    } else {
        json_escape_char(s[0]) + json_escape(s.drop_first())
    }
}

/// The JSON string literal that `serde_json` writes for `s`: the escaped
/// characters between double quotes.
pub open spec fn json_string_encode(s: Seq<char>) -> Seq<char> {
    seq!['"'] + json_escape(s) + seq!['"']
}

/// Calls `serde_json::from_str::<String>`. Claims that the call succeeds
/// exactly when `json_string_decode` gives a string for the text, and then
/// returns that string; the error value is not described.
#[verifier::external_body]
pub(crate) fn decode_json_string(text: &str) -> (res: Result<String, serde_json::Error>)
    ensures
        match res {
            Ok(s) => json_string_decode(text@) == Some(s@),
            Err(_) => json_string_decode(text@) is None,
        },
{
    serde_json::from_str::<String>(text)
}

/// Calls `serde_json::to_string` on a string slice. Claims that it succeeds
/// (the string is written into a `Vec`, which cannot fail), that it returns
/// `json_string_encode(s)` (the escaping of `format_escaped_str` with the
/// compact formatter), and that decoding that text gives `s` back.
#[verifier::external_body]
pub(crate) fn encode_json_string(s: &str) -> (res: Result<String, serde_json::Error>)
    ensures
        res is Ok,
        res matches Ok(t) ==> t@ == json_string_encode(s@) && json_string_decode(t@) == Some(s@),
{
    serde_json::to_string(s)
}

/// Calls `<serde_json::Error as serde::de::Error>::custom`, which makes an
/// error whose message is `msg`. The error value is opaque here, so nothing
/// is claimed of it.
#[verifier::external_body]
pub(crate) fn json_error_with_message(msg: &str) -> serde_json::Error {
    <serde_json::Error as serde::de::Error>::custom(msg)
}

} // verus!
