//! Event identifiers: UUIDs from the `uuid` crate.
use vstd::prelude::*;

use uuid::Uuid;

verus! {

pub open spec fn is_lower_hex_digit(c: char) -> bool {
    ('0' <= c && c <= '9') || ('a' <= c && c <= 'f')
}

/// The hyphenated lower-case form a `Uuid` displays as: 8-4-4-4-12 hex digits.
pub open spec fn is_hyphenated_uuid_text(s: Seq<char>) -> bool {
    &&& s.len() == 36
    &&& forall|i: int|
        0 <= i < 36 ==> if i == 8 || i == 13 || i == 18 || i == 23 {
            s[i] == '-'
        } else {
            is_lower_hex_digit(#[trigger] s[i])
        }
}

/// A hexadecimal digit, in either case.
pub open spec fn is_hex_digit(c: char) -> bool {
    ('0' <= c && c <= '9') || ('a' <= c && c <= 'f') || ('A' <= c && c <= 'F')
}

/// 8-4-4-4-12 hexadecimal digits of either case, joined by hyphens.
pub open spec fn is_hyphenated_form(s: Seq<char>) -> bool {
    &&& s.len() == 36
    &&& forall|i: int|
        0 <= i < 36 ==> if i == 8 || i == 13 || i == 18 || i == 23 {
            s[i] == '-'
        } else {
            is_hex_digit(#[trigger] s[i])
        }
}

/// The texts `Uuid::parse_str` accepts: 32 hexadecimal digits; the hyphenated
/// form; the hyphenated form in braces; or `urn:uuid:`, in any case, before the
/// hyphenated form.
#[verifier::opaque]
pub open spec fn uuid_text_parses(s: Seq<char>) -> bool {
    ||| s.len() == 32 && forall|i: int| 0 <= i < 32 ==> is_hex_digit(#[trigger] s[i])
    ||| is_hyphenated_form(s)
    ||| s.len() == 38 && s[0] == '{' && s[37] == '}' && is_hyphenated_form(s.subrange(1, 37))
    ||| s.len() == 45 && (forall|i: int|
        0 <= i < 9 ==> #[trigger] s[i] == "urn:uuid:"@[i] || s[i] == "URN:UUID:"@[i]) && is_hyphenated_form(
        s.subrange(9, 45),
    )
}

/// A blank text is no UUID.
pub proof fn lemma_blank_never_parses(s: Seq<char>)
    requires
        crate::text::is_blank(s),
    ensures
        !uuid_text_parses(s),
{
    reveal(uuid_text_parses);
    reveal_strlit("urn:uuid:");
    reveal_strlit("URN:UUID:");
    if s.len() > 0 {
        assert(crate::text::is_white_space(s[0]));
    }
    if s.len() == 38 {
        assert(s.subrange(1, 37)[0] == s[1]);
        assert(crate::text::is_white_space(s[1]));
    }
    if s.len() == 45 {
        assert(s.subrange(9, 45)[0] == s[9]);
        assert(crate::text::is_white_space(s[9]));
    }
}

/// Calls `Uuid::new_v4` and displays the result.  The value is random; what
/// holds of every outcome is its shape (the `Display` of a `Uuid` is the
/// hyphenated lower-case form) and that `Uuid::parse_str` accepts it (its
/// documentation states that every format this crate generates parses).
/// `Uuid::new_v4` panics when the operating system's random source fails; that
/// comes from the machine, not from an argument, so no `requires` can exclude
/// it.
#[verifier::external_body]
pub(crate) fn new_uuid_text() -> (r: String)
    ensures
        is_hyphenated_uuid_text(r@),
        uuid_text_parses(r@),
{
    Uuid::new_v4().to_string()
}

/// Calls `Uuid::parse_str`: it accepts exactly the forms `uuid_text_parses`
/// lists (its parser matches on the text's length: 32, 36, 38 braced, or 45
/// with the `urn:uuid:` prefix compared without case, and every other byte a
/// hexadecimal digit or a hyphen in place).
#[verifier::external_body]
pub(crate) fn uuid_parses(s: &str) -> (r: bool)
    ensures
        r == uuid_text_parses(s@),
{
    Uuid::parse_str(s).is_ok()
}

} // verus!
