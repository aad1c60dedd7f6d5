//! Entity identifiers in their textual form.

use crate::text::{hex_digits, utf8_len};
use vstd::prelude::*;

verus! {

/// What reading an identifier off a text gives: its value, or the reported
/// reason why the text is none.
pub uninterp spec fn entity_parse(text: Seq<char>) -> Result<u128, Seq<char>>;

/// The hyphenated lower-case text of an identifier: its hexadecimal digits in
/// groups of eight, four, four, four and twelve.
pub open spec fn entity_text(id: u128) -> Seq<char> {
    let digits = hex_digits(id as nat, 32);
    digits.subrange(0, 8) + seq!['-'] + digits.subrange(8, 12) + seq!['-'] + digits.subrange(12, 16)
        + seq!['-'] + digits.subrange(16, 20) + seq!['-'] + digits.subrange(20, 32)
}

/// The outcome of reading off the identifier `id`.
pub open spec fn parsed(id: u128) -> Result<u128, Seq<char>> {
    Ok(id)
}

/// Calls `uuid::Uuid::parse_str`, and `to_string` on its error.
///
/// Claimed of it: the value, or the text of the error, depends on the input
/// alone.
#[verifier::external_body]
pub(crate) fn parse_entity_id(text: &str) -> (result: Result<u128, String>)
    ensures
        match result {
            Ok(id) => entity_parse(text@) == Ok::<u128, Seq<char>>(id),
            Err(reason) => entity_parse(text@) == Err::<u128, Seq<char>>(reason@),
        },
{
    match uuid::Uuid::parse_str(text) {
        Ok(id) => Ok(id.as_u128()),
        Err(error) => Err(error.to_string()),
    }
}

/// Calls `to_string` on `uuid::Uuid::from_u128`.
///
/// Claimed of it: the text is the hyphenated lower-case form of the value, and
/// `parse_str` reads the value back from it.
#[verifier::external_body]
pub(crate) fn render_entity_id(id: u128) -> (text: String)
    ensures
        text@ == entity_text(id),
        entity_parse(text@) == parsed(id),
{
    uuid::Uuid::from_u128(id).to_string()
}

/// The text of every identifier takes 36 bytes.
pub proof fn law_entity_text_takes_36_bytes(id: u128)
    ensures
        entity_text(id).len() == 36,
        utf8_len(entity_text(id)) == 36,
{
    lemma_hex_digits_are_ascii(id as nat, 32);
    let digits = hex_digits(id as nat, 32);
    let text = entity_text(id);
    assert forall|i: int| 0 <= i < text.len() implies '\0' <= #[trigger] text[i] <= '\u{7f}' by {
        let hyphens: int = if i <= 8 {
            0
        } else if i <= 13 {
            1
        } else if i <= 18 {
            2
        } else if i <= 23 {
            3
        } else {
            4
        };
        assert(text[i] == '-' || text[i] == digits[i - hyphens]);
        assert('\0' <= digits[i - hyphens] <= '\u{7f}' || text[i] == '-');
    }
    vstd::utf8::is_ascii_chars_encode_utf8(text);
}

proof fn lemma_hex_digits_are_ascii(n: nat, width: nat)
    ensures
        hex_digits(n, width).len() == width,
        vstd::utf8::is_ascii_chars(hex_digits(n, width)),
    decreases width,
{
    if width > 0 {
        lemma_hex_digits_are_ascii(n / 16, (width - 1) as nat);
        let shorter = hex_digits(n / 16, (width - 1) as nat);
        let digits = hex_digits(n, width);
        assert forall|i: int| 0 <= i < digits.len() implies '\0' <= #[trigger] digits[i]
            <= '\u{7f}' by {
            if i < width - 1 {
                assert(digits[i] == shorter[i]);
            }
        }
    }
}

} // verus!
