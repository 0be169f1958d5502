//! What the codec takes from `char` and `String` of the standard library.

use vstd::prelude::*;

verus! {

/// The ASCII upper-case form of a character: `a` to `z` become `A` to `Z`,
/// every other character stays as it is.
pub open spec fn ascii_upper(c: char) -> char {
    if 'a' <= c <= 'z' {
        (c as int - 32) as char
    } else {
        c
    }
}

/// `char::to_ascii_uppercase`: std documents that it maps the ASCII letters
/// `a` to `z` to `A` to `Z` and leaves every other character unchanged.
pub assume_specification[ char::to_ascii_uppercase ](c: &char) -> (upper: char)
    ensures
        upper == ascii_upper(*c),
;

/// `String::push`: std documents that it appends the given character to the
/// end of the string.
pub assume_specification[ String::push ](s: &mut String, ch: char)
    ensures
        final(s)@ == old(s)@.push(ch),
;

} // verus!
