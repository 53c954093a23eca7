//! Text encodings: console output (UTF-8, else the Chinese Windows code page
//! GBK) and JSON string literals.

use vstd::prelude::*;
use vstd::utf8::{decode_utf8, valid_utf8};

verus! {

/// Calls `std::str::from_utf8`: the text of `bytes` when they are valid
/// UTF-8, `None` otherwise.
#[verifier::external_body]
pub(crate) fn utf8_text(bytes: &[u8]) -> (res: Option<String>)
    ensures
        res.is_some() == valid_utf8(bytes@),
        res matches Some(s) ==> s@ == decode_utf8(bytes@),
{
    std::str::from_utf8(bytes).ok().map(|s| s.to_string())
}

/// What `encoding_rs::GBK.decode` makes of these bytes (a byte-order mark,
/// when present, selects UTF-8 or UTF-16 instead; malformed input becomes
/// U+FFFD).
pub uninterp spec fn gbk_text(bytes: Seq<u8>) -> Seq<char>;

/// Calls `encoding_rs::Encoding::decode` with the GBK encoding.
#[verifier::external_body]
pub(crate) fn gbk_decode(bytes: &[u8]) -> (res: String)
    ensures
        res@ == gbk_text(bytes@),
{
    let (cow, _, _) = encoding_rs::GBK.decode(bytes);
    cow.into_owned()
}

/// The text a console program printed: UTF-8 when the bytes are valid
/// UTF-8, GBK otherwise.
pub open spec fn console_text(bytes: Seq<u8>) -> Seq<char> {
    if bytes.len() == 0 {
        Seq::empty()
    } else if valid_utf8(bytes) {
        decode_utf8(bytes)
    } else {
        gbk_text(bytes)
    }
}

pub fn decode_console_output(bytes: &[u8]) -> (res: String)
    ensures
        res@ == console_text(bytes@),
{
    if bytes.len() == 0 {
        return String::new();
    }
    match utf8_text(bytes) {
        Some(s) => s,
        None => gbk_decode(bytes),
    }
}

/// A lower-case hexadecimal digit.
pub open spec fn hex_lower(d: int) -> char {
    if d < 10 {
        crate::text::digit_char(d as nat)
    } else if d == 10 {
        'a'
    } else if d == 11 {
        'b'
    } else if d == 12 {
        'c'
    } else if d == 13 {
        'd'
    } else if d == 14 {
        'e'
    } else {
        'f'
    }
}

/// How `serde_json` writes one character inside a string literal: `"` and
/// `\` behind a backslash, the control characters backspace, tab, line
/// feed, form feed and carriage return as `\b \t \n \f \r`, the other
/// characters below U+0020 as `\u00xx` (lower-case hex), everything else
/// as it is.
pub open spec fn json_char_escape(c: char) -> Seq<char> {
    if c == '"' {
        seq!['\\', '"']
    } else if c == '\\' {
        seq!['\\', '\\']
    } else if c == '\x08' {
        seq!['\\', 'b']
    } else if c == '\t' {
        seq!['\\', 't']
    } else if c == '\n' {
        seq!['\\', 'n']
    } else if c == '\x0c' {
        seq!['\\', 'f']
    } else if c == '\r' {
        seq!['\\', 'r']
    } else if (c as int) < 0x20 {
        seq!['\\', 'u', '0', '0', hex_lower(c as int / 16), hex_lower(c as int % 16)]
    } else {
        seq![c]
    }
}

pub open spec fn json_escaped(s: Seq<char>) -> Seq<char>
    decreases s.len(),
{
    if s.len() == 0 {
        Seq::empty()
    } else {
        json_escaped(s.drop_last()) + json_char_escape(s.last())
    }
}

/// The JSON string literal of a text, as `serde_json` writes it.
pub open spec fn json_string_literal(s: Seq<char>) -> Seq<char> {
    seq!['"'] + json_escaped(s) + seq!['"']
}

/// Calls `serde_json::to_string` on a string. For a string its source never
/// fails (it writes into a `Vec`), and it writes the quoted text with the
/// escapes of `json_char_escape`; an error would be returned as its message.
#[verifier::external_body]
pub(crate) fn json_quote(s: &str) -> (res: Result<String, String>)
    ensures
        res is Ok,
        res matches Ok(v) ==> v@ == json_string_literal(s@),
{
    serde_json::to_string(s).map_err(|e| e.to_string())
}

} // verus!
