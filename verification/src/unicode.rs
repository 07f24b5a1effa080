//! Character properties and case mappings that rest on the Unicode tables of `std`.
use vstd::prelude::*;

use crate::text::lower;

verus! {

/// What `char::is_alphanumeric` returns: whether a character is a letter or a number in
/// the sense of Unicode.
pub uninterp spec fn alphanumeric(c: char) -> bool;

/// What `str::to_lowercase` returns: the Unicode lowercase equivalent of a text.
pub uninterp spec fn lowercase(s: Seq<char>) -> Seq<char>;

/// What `str::to_uppercase` returns: the Unicode uppercase equivalent of a text.
pub uninterp spec fn uppercase(s: Seq<char>) -> Seq<char>;

/// The letters and digits of ASCII.
pub open spec fn ascii_alphanumeric(c: char) -> bool {
    ('a' <= c && c <= 'z') || ('A' <= c && c <= 'Z') || ('0' <= c && c <= '9')
}

/// `c` with a small ASCII letter made a capital.
pub open spec fn upper_char(c: char) -> char {
    if 'a' <= c && c <= 'z' {
        (c as u8 - 32) as char
    } else {
        c
    }
}

/// A text with its small ASCII letters made capitals.
pub open spec fn upper(s: Seq<char>) -> Seq<char> {
    Seq::new(s.len(), |i: int| upper_char(s[i]))
}

/// `char::is_alphanumeric` depends on the character alone. Of the ASCII characters it
/// holds of the letters and the digits.
pub assume_specification[ char::is_alphanumeric ](c: char) -> (r: bool)
    ensures
        r == alphanumeric(c),
        (c as u32) < 128 ==> r == ascii_alphanumeric(c),
;

/// `str::to_lowercase` depends on the text alone. A text of ASCII characters has its
/// capitals made small and is unchanged otherwise.
pub assume_specification[ str::to_lowercase ](s: &str) -> (r: String)
    ensures
        r@ == lowercase(s@),
        vstd::utf8::is_ascii_chars(s@) ==> r@ == lower(s@),
;

/// `str::to_uppercase` depends on the text alone. A text of ASCII characters has its
/// small letters made capitals and is unchanged otherwise.
pub assume_specification[ str::to_uppercase ](s: &str) -> (r: String)
    ensures
        r@ == uppercase(s@),
        vstd::utf8::is_ascii_chars(s@) ==> r@ == upper(s@),
;

} // verus!
