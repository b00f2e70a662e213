//! What is left to chance: an index into a list, and the name of a new stream.

use vstd::prelude::*;

verus! {

/// Calls `rand::random_range` on the range from 0 up to `len`, which it panics
/// on where the range is empty. Which index comes is left to chance; that it
/// lies in the range holds of every outcome.
#[verifier::external_body]
pub(crate) fn random_index(len: usize) -> (index: usize)
    requires
        0 < len,
    ensures
        index < len,
{
    rand::random_range(0..len)
}

/// A lower-case hexadecimal digit.
pub open spec fn is_hex_digit(c: char) -> bool {
    '0' <= c <= '9' || 'a' <= c <= 'f'
}

/// What stands at place `i` of the text of a random UUID: four hyphens, the
/// version 4, one of the four digits of its variant, and hexadecimal digits.
pub open spec fn is_uuid_place(c: char, i: int) -> bool {
    if i == 8 || i == 13 || i == 18 || i == 23 {
        c == '-'
    } else if i == 14 {
        c == '4'
    } else if i == 19 {
        c == '8' || c == '9' || c == 'a' || c == 'b'
    } else {
        is_hex_digit(c)
    }
}

/// The text of a random (version 4) UUID, hyphenated and in lower case.
pub open spec fn is_uuid_text(text: Seq<char>) -> bool {
    &&& text.len() == 36
    &&& forall|i: int| 0 <= i < text.len() ==> is_uuid_place(#[trigger] text[i], i)
}

/// Calls `uuid::Uuid::new_v4` and renders the result with `to_string`: the
/// digits are left to chance, the form of the text is not. That two calls give
/// two texts is likely and not promised.
#[verifier::external_body]
pub(crate) fn random_uuid() -> (text: String)
    ensures
        is_uuid_text(text@),
{
    uuid::Uuid::new_v4().to_string()
}

} // verus!
