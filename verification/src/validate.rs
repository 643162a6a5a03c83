//! The validators, in four layers: code points, characters, text and UTF-8
//! bytes. Each layer rests on the one before it, and every validator returns
//! exactly what [`Subset::accepts`], [`Subset::accepts_text`] or
//! [`Subset::accepts_utf8`] says of its argument.

use crate::range::{subset_contains, subset_contains_u32};
use crate::subset::{
    lemma_table_defines_subset, lemma_text_is_scalar, Subset, UNICODE_ASSIGNABLES, XML_CHARS,
};
use vstd::prelude::*;
use vstd::string::*;
use vstd::utf8::*;

verus! {

// Character validation functions

/// Check if a character is a Unicode scalar value. A `char` can hold nothing
/// else, so the answer is always `true`.
pub fn is_char_unicode_scalar(_ch: char) -> (valid: bool)
    ensures
        valid,
        valid == Subset::UnicodeScalar.accepts(_ch as u32),
{
    true
}

/// Check if a character is a valid XML character.
///
/// Valid XML 1.0 characters exclude most control characters below U+0020,
/// except for tab (U+0009), line feed (U+000A), and carriage return (U+000D).
pub fn is_char_xml_char(ch: char) -> (valid: bool)
    ensures
        valid == Subset::XmlChar.accepts(ch as u32),
{
    proof {
        lemma_table_defines_subset(Subset::XmlChar, ch as u32);
    }
    subset_contains(&XML_CHARS, ch)
}

/// Check if a character is a Unicode assignable character.
///
/// Unicode assignable characters exclude noncharacters like U+FFFE, U+FFFF,
/// and the range U+FDD0 to U+FDEF, as well as the last two code points of
/// each plane (e.g., U+1FFFE, U+1FFFF).
pub fn is_char_unicode_assignable(ch: char) -> (valid: bool)
    ensures
        valid == Subset::UnicodeAssignable.accepts(ch as u32),
{
    proof {
        lemma_table_defines_subset(Subset::UnicodeAssignable, ch as u32);
    }
    subset_contains(&UNICODE_ASSIGNABLES, ch)
}

// Code point validation functions

/// Check if a `u32` code point is a Unicode scalar value: a code point of the
/// code space that is not a surrogate.
pub fn is_rune_unicode_scalar(r: u32) -> (valid: bool)
    ensures
        valid == Subset::UnicodeScalar.accepts(r),
        valid == (r <= 0x10FFFF && !(0xD800 <= r <= 0xDFFF)),
{
    char::from_u32(r).is_some()
}

/// Check if a `u32` code point is a valid XML character.
pub fn is_rune_xml_char(r: u32) -> (valid: bool)
    ensures
        valid == Subset::XmlChar.accepts(r),
{
    proof {
        lemma_table_defines_subset(Subset::XmlChar, r);
    }
    subset_contains_u32(&XML_CHARS, r)
}

/// Check if a `u32` code point is a Unicode assignable character.
pub fn is_rune_unicode_assignable(r: u32) -> (valid: bool)
    ensures
        valid == Subset::UnicodeAssignable.accepts(r),
{
    proof {
        lemma_table_defines_subset(Subset::UnicodeAssignable, r);
    }
    subset_contains_u32(&UNICODE_ASSIGNABLES, r)
}

// String validation functions

/// Check if a string contains only Unicode scalar values.
///
/// A string slice is valid UTF-8, which can encode no surrogate, so this is
/// `true` of every string.
pub fn is_string_unicode_scalars(_s: &str) -> (valid: bool)
    ensures
        valid,
        valid == Subset::UnicodeScalar.accepts_text(_s@),
{
    proof {
        lemma_text_is_scalar(_s@);
    }
    true
}

/// Check if a string contains only valid XML characters. The scan stops at
/// the first character that is not one.
pub fn is_string_xml_chars(s: &str) -> (valid: bool)
    ensures
        valid == Subset::XmlChar.accepts_text(s@),
{
    broadcast use axiom_spec_iter;

    for ch in chars: s.chars()
        invariant
            chars.seq() == s@,
            forall|i: int|
                0 <= i < chars.index() ==> Subset::XmlChar.accepts(#[trigger] s@[i] as u32),
    {
        if !is_char_xml_char(ch) {
            assert(!Subset::XmlChar.accepts(s@[chars.index()] as u32));
            return false;
        }
    }
    true
}

/// Check if a string contains only Unicode assignable characters. The scan
/// stops at the first character that is not one.
pub fn is_string_unicode_assignables(s: &str) -> (valid: bool)
    ensures
        valid == Subset::UnicodeAssignable.accepts_text(s@),
{
    broadcast use axiom_spec_iter;

    for ch in chars: s.chars()
        invariant
            chars.seq() == s@,
            forall|i: int|
                0 <= i < chars.index() ==> Subset::UnicodeAssignable.accepts(
                    #[trigger] s@[i] as u32,
                ),
    {
        if !is_char_unicode_assignable(ch) {
            assert(!Subset::UnicodeAssignable.accepts(s@[chars.index()] as u32));
            return false;
        }
    }
    true
}

// UTF-8 byte slice validation functions

/// Check if a byte slice is the UTF-8 encoding of Unicode scalar values.
///
/// Returns `false` if the bytes are not valid UTF-8. Valid UTF-8 encodes
/// nothing but scalar values, so no further scan is made.
pub fn is_utf8_unicode_scalars(bytes: &[u8]) -> (valid: bool)
    ensures
        valid == Subset::UnicodeScalar.accepts_utf8(bytes@),
        valid == valid_utf8(bytes@),
{
    proof {
        lemma_text_is_scalar(decode_utf8(bytes@));
    }
    std::str::from_utf8(bytes).is_ok()
}

/// Check if a byte slice is the UTF-8 encoding of valid XML characters.
///
/// Returns `false` if the bytes are not valid UTF-8 or contain invalid XML
/// characters.
pub fn is_utf8_xml_chars(bytes: &[u8]) -> (valid: bool)
    ensures
        valid == Subset::XmlChar.accepts_utf8(bytes@),
{
    match std::str::from_utf8(bytes) {
        Ok(s) => {
            proof {
                encode_utf8_decode_utf8(s@);
            }
            is_string_xml_chars(s)
        },
        Err(_) => false,
    }
}

/// Check if a byte slice is the UTF-8 encoding of Unicode assignable
/// characters.
///
/// Returns `false` if the bytes are not valid UTF-8 or contain legacy controls
/// or noncharacters.
pub fn is_utf8_unicode_assignables(bytes: &[u8]) -> (valid: bool)
    ensures
        valid == Subset::UnicodeAssignable.accepts_utf8(bytes@),
{
    match std::str::from_utf8(bytes) {
        Ok(s) => {
            proof {
                encode_utf8_decode_utf8(s@);
            }
            is_string_unicode_assignables(s)
        },
        Err(_) => false,
    }
}

} // verus!
