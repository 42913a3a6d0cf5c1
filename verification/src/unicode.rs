//! The few places where the library leans on std for Unicode: decoding a
//! `&str` into its scalar values, and the two character classes the grammar
//! uses (letters, and letters-or-digits). Everything else in the crate is
//! verified against these contracts.
use vstd::prelude::*;

verus! {

/// Whether a non-ASCII scalar value has the Unicode `Alphabetic` property.
/// Only `char::is_alphabetic` decides this; nothing else is assumed of it.
pub uninterp spec fn unicode_letter(c: char) -> bool;

/// Whether a non-ASCII scalar value is Unicode-numeric without being a
/// letter. Only `char::is_alphanumeric` decides this; nothing else is
/// assumed of it.
pub uninterp spec fn unicode_other_alphanumeric(c: char) -> bool;

/// The character class that may begin an identifier: on ASCII exactly the
/// letters, beyond ASCII whatever `char::is_alphabetic` accepts.
pub open spec fn is_letter(c: char) -> bool {
    if (c as u32) < 128 {
        // `'a'` to `'z'` (97 to 122) or `'A'` to `'Z'` (65 to 90)
        (97 <= c as u32 && c as u32 <= 122) || (65 <= c as u32 && c as u32 <= 90)
    } else {
        unicode_letter(c)
    }
}

/// The character class that may continue an identifier: on ASCII the letters
/// and decimal digits, beyond ASCII whatever `char::is_alphanumeric` accepts
/// — every letter, and the scalar values that are numeric without being
/// letters.
pub open spec fn is_letter_or_digit(c: char) -> bool {
    ||| is_letter(c)
    ||| (48 <= c as u32 && c as u32 <= 57)  // `'0'` to `'9'`
    ||| ((c as u32) >= 128 && unicode_other_alphanumeric(c))
}

/// Relies on `char::is_alphabetic`: true exactly on scalar values with the
/// Unicode `Alphabetic` property; on ASCII these are the letters.
#[verifier::external_body]
pub fn char_is_letter(c: char) -> (r: bool)
    ensures
        r == is_letter(c),
        (c as u32) >= 128 ==> r == unicode_letter(c),
{
    c.is_alphabetic()
}

/// Relies on `char::is_alphanumeric`: true exactly on scalar values that are
/// Unicode alphabetic or numeric — so true on every scalar value that
/// `char::is_alphabetic` accepts; on ASCII these are the letters and digits.
#[verifier::external_body]
pub fn char_is_letter_or_digit(c: char) -> (r: bool)
    ensures
        r == is_letter_or_digit(c),
        (c as u32) >= 128 && !unicode_letter(c) ==> r == unicode_other_alphanumeric(c),
{
    c.is_alphanumeric()
}

/// Relies on `str::chars`: the sequence of Unicode scalar values of the
/// string, which is exactly the string's view. The length bound holds of any
/// real string because an allocation spans at most `isize::MAX` bytes.
#[verifier::external_body]
pub fn chars_of(s: &str) -> (r: Vec<char>)
    ensures
        r@ == s@,
        r@.len() < usize::MAX,
{
    s.chars().collect()
}

} // verus!
