//! JSON texts of the provenance notes, with string escaping from `serde_json`.
use vstd::prelude::*;

verus! {

#[verifier::external_type_specification]
#[verifier::external_body]
pub struct ExSerdeJsonError(serde_json::Error);

/// How serde_json writes one character inside a string literal: the quote and
/// the backslash behind a backslash; backspace, form feed, line feed, carriage
/// return and tab by their short escapes; the other control characters below
/// U+0020 as `\u00` and two lower-case hexadecimal digits; every other
/// character as itself.
pub open spec fn escaped_char(c: char) -> Seq<char> {
    if c == '"' {
        seq!['\\', '"']
    } else if c == '\\' {
        seq!['\\', '\\']
    } else if c == '\x08' {
        seq!['\\', 'b']
    } else if c == '\x0C' {
        seq!['\\', 'f']
    } else if c == '\n' {
        seq!['\\', 'n']
    } else if c == '\r' {
        seq!['\\', 'r']
    } else if c == '\t' {
        seq!['\\', 't']
    } else if (c as u32) < 0x20 {
        seq!['\\', 'u', '0', '0', "0123456789abcdef"@[(c as u32) as int / 16], "0123456789abcdef"@[(c as u32) as int % 16]]
    } else {
        seq![c]
    }
}

/// The characters of a text, each as serde_json writes it inside a string.
pub open spec fn escaped(s: Seq<char>) -> Seq<char>
    decreases s.len(),
{
    if s.len() == 0 {
        Seq::empty()
    } else {
        escaped(s.drop_last()) + escaped_char(s.last())
    }
}

/// What `serde_json::to_string` writes for a string: the escaped text between
/// double quotes.
pub open spec fn json_string_text(s: Seq<char>) -> Seq<char> {
    seq!['"'] + escaped(s) + seq!['"']
}

/// Calls `serde_json::to_string` on a string: the escape table and
/// `write_char_escape` of its serializer give the text.  Writing a string succeeds:
/// a `str` serializes through `serialize_str`, whose only failure is one of
/// the writer, and the writer is a `Vec<u8>`, which never fails.
#[verifier::external_body]
pub(crate) fn json_string(s: &str) -> (r: Result<String, serde_json::Error>)
    ensures
        r is Ok,
        r matches Ok(t) ==> t@ == json_string_text(s@),
{
    serde_json::to_string(s)
}

} // verus!
