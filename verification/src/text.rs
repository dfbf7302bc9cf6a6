//! Bridges between `String` text and character vectors.
//!
//! The codec and the engine reason over `Seq<char>`, so executable code works
//! on `Vec<char>`. The conversions and the slice comparison live here, each a
//! thin call into std.

use vstd::prelude::*;

verus! {

/// Relies on str::chars: iterating a string slice yields exactly its
/// characters, in order.
#[verifier::external_body]
pub(crate) fn chars_of(s: &str) -> (r: Vec<char>)
    ensures
        r@ == s@,
{
    s.chars().collect()
}

/// Relies on String's FromIterator over char: collecting characters builds
/// the string of exactly those characters, in order.
#[verifier::external_body]
pub(crate) fn string_of(cs: &Vec<char>) -> (r: String)
    ensures
        r@ == cs@,
{
    cs.iter().collect()
}

/// Relies on str's PartialEq: two string slices are equal exactly when they
/// consist of the same characters.
#[verifier::external_body]
pub(crate) fn str_eq(a: &str, b: &str) -> (r: bool)
    ensures
        r == (a@ == b@),
{
    a == b
}

/// Relies on char::from_u32: a code point converts exactly when it is a
/// Unicode scalar value, that is, not a surrogate and at most 0x10FFFF.
#[verifier::external_body]
pub(crate) fn char_from_code(u: u32) -> (r: Option<char>)
    ensures
        r == (if u < 0xD800 || (0xE000 <= u && u <= 0x10FFFF) {
            Some(u as char)
        } else {
            None::<char>
        }),
{
    char::from_u32(u)
}

} // verus!
