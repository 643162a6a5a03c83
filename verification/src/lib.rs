//! RFC 9839 Unicode subset validation.
//!
//! This library checks whether code points, characters, strings or UTF-8 byte
//! sequences hold nothing but members of one of the subsets of the Unicode
//! code space that RFC 9839 defines:
//! - Unicode Scalar Values (excludes surrogates)
//! - XML 1.0 Characters (excludes most control characters)
//! - Unicode Assignable Characters (excludes legacy controls and
//!   noncharacters)
//!
//! Each subset is a table of inclusive code-point ranges, and one membership
//! test serves them all. The validators come in four layers, each built on the
//! one below: code points (`is_rune_*`), characters (`is_char_*`), text
//! (`is_string_*`) and UTF-8 bytes (`is_utf8_*`).
//!
//! Every validator is verified to return exactly what the definition of its
//! subset says: see [`subset::Subset::accepts`] and the laws proved in
//! [`laws`]. Two facts about the standard library are assumed rather than
//! proved; they are stated in [`decode`].

pub mod decode;
pub mod laws;
pub mod range;
pub mod subset;
pub mod validate;

pub use range::{subset_contains, subset_contains_u32, RunePair, MAX_CODE_POINT};
pub use subset::{Subset, UNICODE_ASSIGNABLES, XML_CHARS};
pub use validate::{
    is_char_unicode_assignable, is_char_unicode_scalar, is_char_xml_char,
    is_rune_unicode_assignable, is_rune_unicode_scalar, is_rune_xml_char,
    is_string_unicode_assignables, is_string_unicode_scalars, is_string_xml_chars,
    is_utf8_unicode_assignables, is_utf8_unicode_scalars, is_utf8_xml_chars,
};
