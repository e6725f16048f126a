//! Conversions between strings and character vectors, and scalar-value
//! construction of characters. The wire-format code works over `Vec<char>`;
//! these are its only steps through std that vstd leaves unspecified.

use vstd::prelude::*;

verus! {

/// Relies on str::chars with Iterator::collect: yields the characters of the
/// string, in order.
#[verifier::external_body]
pub(crate) fn str_to_chars(s: &str) -> (r: Vec<char>)
    ensures
        r@ == s@,
{
    s.chars().collect()
}

/// Relies on FromIterator for String: collecting characters yields the string
/// made of exactly those characters, in order.
#[verifier::external_body]
pub(crate) fn chars_to_string(cs: &Vec<char>) -> (r: String)
    ensures
        r@ == cs@,
{
    cs.iter().collect()
}

/// Relies on char::from_u32: returns the character with the given scalar
/// value, and None exactly when the value is a surrogate or out of range.
#[verifier::external_body]
pub(crate) fn char_from_u32(u: u32) -> (r: Option<char>)
    ensures
        match r {
            Option::Some(c) => (c as u32) == u && (u < 0xD800 || (0xE000 <= u && u <= 0x10FFFF)),
            Option::None => !(u < 0xD800 || (0xE000 <= u && u <= 0x10FFFF)),
        },
{
    char::from_u32(u)
}

} // verus!
