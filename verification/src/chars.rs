//! Character classes and ASCII case mapping for BCP-47 subtags.

use vstd::prelude::*;

verus! {

/// An ASCII letter.
pub open spec fn is_alpha(c: char) -> bool {
    ('a' <= c && c <= 'z') || ('A' <= c && c <= 'Z')
}

/// An ASCII digit.
pub open spec fn is_digit(c: char) -> bool {
    '0' <= c && c <= '9'
}

/// An ASCII letter or digit.
pub open spec fn is_alphanum(c: char) -> bool {
    is_alpha(c) || is_digit(c)
}

/// ASCII lower-casing of a single character; everything outside `A..Z` is kept.
pub open spec fn lower_char(c: char) -> char {
    if 'A' <= c && c <= 'Z' {
        ((c as u8) + 32) as char
    } else {
        c
    }
}

/// ASCII upper-casing of a single character; everything outside `a..z` is kept.
pub open spec fn upper_char(c: char) -> char {
    if 'a' <= c && c <= 'z' {
        ((c as u8) - 32) as char
    } else {
        c
    }
}

/// Executable test for an ASCII letter.
pub fn is_alpha_value(c: char) -> (r: bool)
    ensures
        r == is_alpha(c),
{
    ('a' <= c && c <= 'z') || ('A' <= c && c <= 'Z')
}

/// Executable test for an ASCII digit.
pub fn is_digit_value(c: char) -> (r: bool)
    ensures
        r == is_digit(c),
{
    '0' <= c && c <= '9'
}

/// Executable test for an ASCII letter or digit.
pub fn is_alphanum_value(c: char) -> (r: bool)
    ensures
        r == is_alphanum(c),
{
    is_alpha_value(c) || is_digit_value(c)
}

/// Executable ASCII lower-casing.
pub fn lower_char_value(c: char) -> (r: char)
    ensures
        r == lower_char(c),
{
    if 'A' <= c && c <= 'Z' {
        ((c as u8) + 32) as char
    } else {
        c
    }
}

/// Executable ASCII upper-casing.
pub fn upper_char_value(c: char) -> (r: char)
    ensures
        r == upper_char(c),
{
    if 'a' <= c && c <= 'z' {
        ((c as u8) - 32) as char
    } else {
        c
    }
}

} // verus!
