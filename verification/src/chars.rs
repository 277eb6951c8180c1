//! Character classes of the scanner.
//!
//! ASCII is classified here, by explicit ranges. Beyond ASCII the only class
//! that matters is "letter", and that is Unicode's Alphabetic property as the
//! standard library reports it.

use vstd::prelude::*;

verus! {

/// Whether `c` has Unicode's Alphabetic property, as `char::is_alphabetic`
/// reports it. The property is a table of the Unicode standard; nothing is
/// stated of it here beyond its being a function of the character.
pub uninterp spec fn unicode_alphabetic(c: char) -> bool;

/// `char::is_alphabetic`: trusted to return the Alphabetic property of its
/// argument, which contracts call `unicode_alphabetic`.
pub assume_specification[ char::is_alphabetic ](c: char) -> (b: bool)
    ensures
        b == unicode_alphabetic(c),
;

/// `c` is one of the 128 ASCII characters.
pub open spec fn ascii(c: char) -> bool {
    c <= '\x7f'
}

/// `c` is one of `a`..`z` or `A`..`Z`.
pub open spec fn ascii_letter(c: char) -> bool {
    ('a' <= c && c <= 'z') || ('A' <= c && c <= 'Z')
}

/// A letter: an ASCII letter, or a character beyond ASCII with the Alphabetic
/// property. Letters start and continue words.
pub open spec fn letter(c: char) -> bool {
    if ascii(c) {
        ascii_letter(c)
    } else {
        unicode_alphabetic(c)
    }
}

/// A decimal digit, `0`..`9`.
pub open spec fn decimal_digit(c: char) -> bool {
    '0' <= c && c <= '9'
}

/// A hexadecimal digit: `0`..`9`, `a`..`f` or `A`..`F`.
pub open spec fn hex_digit(c: char) -> bool {
    decimal_digit(c) || ('a' <= c && c <= 'f') || ('A' <= c && c <= 'F')
}

/// A blank: a space, a tab, a line feed, a carriage return, a form feed or a
/// vertical tab.
pub open spec fn blank(c: char) -> bool {
    c == ' ' || c == '\t' || c == '\n' || c == '\r' || c == '\x0c' || c == '\x0b'
}

/// The second character of a hexadecimal prefix, `x` or `X`.
pub open spec fn hex_marker(c: char) -> bool {
    c == 'x' || c == 'X'
}

/// Whether `c` is a letter. ASCII is decided by its ranges; beyond ASCII
/// the standard library is asked.
pub fn is_letter(c: char) -> (b: bool)
    ensures
        b == letter(c),
{
    if c <= '\x7f' {
        ('a' <= c && c <= 'z') || ('A' <= c && c <= 'Z')
    } else {
        c.is_alphabetic()
    }
}

/// Whether `c` is a decimal digit.
pub fn is_decimal_digit(c: char) -> (b: bool)
    ensures
        b == decimal_digit(c),
{
    '0' <= c && c <= '9'
}

/// Whether `c` is a hexadecimal digit.
pub fn is_hex_digit(c: char) -> (b: bool)
    ensures
        b == hex_digit(c),
{
    is_decimal_digit(c) || ('a' <= c && c <= 'f') || ('A' <= c && c <= 'F')
}

/// Whether `c` closes a hexadecimal prefix.
pub fn is_hex_marker(c: char) -> (b: bool)
    ensures
        b == hex_marker(c),
{
    c == 'x' || c == 'X'
}

} // verus!
