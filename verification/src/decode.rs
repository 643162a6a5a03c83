//! What the validators take from the standard library: the scalar-value check
//! of `char` and the strict UTF-8 decoder of `str`.
//!
//! The contracts of these two functions are assumed, not proved. Everything
//! else in this module is proved from the definition of well-formed UTF-8: the
//! ways in which a byte sequence can be malformed, that each of them makes the
//! decoder fail, and that nothing else does.

use vstd::prelude::*;
use vstd::string::*;
use vstd::utf8::*;

verus! {

/// Assumed of `char::from_u32`: it returns a `char` exactly for the Unicode
/// scalar values, that is for the code points up to `U+10FFFF` that are not
/// surrogates, and the `char` it returns has the code point given.
pub assume_specification[ char::from_u32 ](i: u32) -> (r: Option<char>)
    ensures
        r is Some <==> (i <= 0x10FFFF && !(0xD800 <= i <= 0xDFFF)),
        r matches Some(c) ==> c as u32 == i,
;

/// `core::str::Utf8Error`, the error of the decoder. It is carried, never
/// read: all that the validators take from a failed decoding is that it failed.
#[verifier::external_type_specification]
#[verifier::external_body]
pub struct ExUtf8Error(core::str::Utf8Error);

/// Assumed of `core::str::from_utf8`: it succeeds exactly on the byte
/// sequences that are well-formed UTF-8, and the string slice it returns is
/// made of the bytes given.
pub assume_specification[ core::str::from_utf8 ](v: &[u8]) -> (r: Result<
    &str,
    core::str::Utf8Error,
>)
    ensures
        r is Ok <==> valid_utf8(v@),
        r matches Ok(s) ==> s.spec_bytes() == v@,
;

/// The bytes start with the encoding of one scalar value, told by the ranges
/// of its bytes alone, as RFC 3629 lists them. The second byte is held to a
/// narrower range than a continuation byte where the leading byte would
/// otherwise admit an overlong form (`E0`, `F0`), a surrogate (`ED`) or a
/// value beyond the code space (`F4`).
pub open spec fn starts_with_scalar_encoding(bytes: Seq<u8>) -> bool {
    ||| bytes.len() >= 1 && bytes[0] <= 0x7F
    ||| bytes.len() >= 2 && 0xC2 <= bytes[0] <= 0xDF && is_continuation_byte(bytes[1])
    ||| bytes.len() >= 3 && is_continuation_byte(bytes[2]) && {
        ||| bytes[0] == 0xE0 && 0xA0 <= bytes[1] <= 0xBF
        ||| 0xE1 <= bytes[0] <= 0xEC && is_continuation_byte(bytes[1])
        ||| bytes[0] == 0xED && 0x80 <= bytes[1] <= 0x9F
        ||| 0xEE <= bytes[0] <= 0xEF && is_continuation_byte(bytes[1])
    }
    ||| bytes.len() >= 4 && is_continuation_byte(bytes[2]) && is_continuation_byte(bytes[3]) && {
        ||| bytes[0] == 0xF0 && 0x90 <= bytes[1] <= 0xBF
        ||| 0xF1 <= bytes[0] <= 0xF3 && is_continuation_byte(bytes[1])
        ||| bytes[0] == 0xF4 && 0x80 <= bytes[1] <= 0x8F
    }
}

/// Well-formed UTF-8 can be told by byte ranges: a byte sequence starts with
/// the well-formed encoding of a scalar value exactly if its first bytes lie
/// in the ranges that RFC 3629 lists.
pub proof fn lemma_first_scalar_by_byte_ranges(bytes: Seq<u8>)
    ensures
        valid_first_scalar(bytes) <==> starts_with_scalar_encoding(bytes),
{
    if valid_leading_and_continuation_bytes_first_codepoint(bytes) {
        let b0 = bytes[0];
        if is_leading_byte_width_2(b0) {
            let b1 = bytes[1];
            assert({
                let code = (((b0 & 0x1F) as u32) << 6) | ((b1 & 0x3F) as u32);
                &&& (code >= 0x80 <==> b0 >= 0xC2)
                &&& code <= 0x7FF
            }) by (bit_vector)
                requires
                    0xC0 <= b0 && b0 <= 0xDF,
                    0x80 <= b1 && b1 <= 0xBF,
            ;
        } else if is_leading_byte_width_3(b0) {
            let b1 = bytes[1];
            let b2 = bytes[2];
            assert({
                let code = (((b0 & 0x0F) as u32) << 12) | (((b1 & 0x3F) as u32) << 6) | ((b2
                    & 0x3F) as u32);
                &&& (code >= 0x800 <==> !(b0 == 0xE0 && b1 < 0xA0))
                &&& ((0xD800 <= code && code <= 0xDFFF) <==> (b0 == 0xED && b1 >= 0xA0))
            }) by (bit_vector)
                requires
                    0xE0 <= b0 && b0 <= 0xEF,
                    0x80 <= b1 && b1 <= 0xBF,
                    0x80 <= b2 && b2 <= 0xBF,
            ;
        } else if is_leading_byte_width_4(b0) {
            let b1 = bytes[1];
            let b2 = bytes[2];
            let b3 = bytes[3];
            assert({
                let code = (((b0 & 0x07) as u32) << 18) | (((b1 & 0x3F) as u32) << 12) | (((b2
                    & 0x3F) as u32) << 6) | ((b3 & 0x3F) as u32);
                &&& (code >= 0x10000 <==> !(b0 == 0xF0 && b1 < 0x90))
                &&& (code <= 0x10FFFF <==> (b0 < 0xF4 || (b0 == 0xF4 && b1 < 0x90)))
                &&& (code >= 0x10000 ==> !(0xD800 <= code && code <= 0xDFFF))
            }) by (bit_vector)
                requires
                    0xF0 <= b0 && b0 <= 0xF7,
                    0x80 <= b1 && b1 <= 0xBF,
                    0x80 <= b2 && b2 <= 0xBF,
                    0x80 <= b3 && b3 <= 0xBF,
            ;
        } else {
            assert((b0 & 0x7F) as u32 <= 0x7F) by (bit_vector);
        }
    }
}

/// The number of bytes that an encoding with this leading byte has, or 0 where
/// the byte can lead no encoding.
pub open spec fn width_of_leading_byte(byte: u8) -> int {
    if is_leading_byte_width_1(byte) {
        1
    } else if is_leading_byte_width_2(byte) {
        2
    } else if is_leading_byte_width_3(byte) {
        3
    } else if is_leading_byte_width_4(byte) {
        4
    } else {
        0
    }
}

/// The bytes start with a continuation byte, which no leading byte precedes.
pub open spec fn starts_with_stray_continuation(bytes: Seq<u8>) -> bool {
    bytes.len() >= 1 && is_continuation_byte(bytes[0])
}

/// The bytes start with a byte that leads no encoding of a code point of the
/// code space.
pub open spec fn starts_with_invalid_leading_byte(bytes: Seq<u8>) -> bool {
    bytes.len() >= 1 && bytes[0] >= 0xF8
}

/// No continuation byte stands at index `k`: the sequence ends before it, or
/// another kind of byte stands there.
pub open spec fn lacks_continuation_at(bytes: Seq<u8>, k: int) -> bool {
    k >= bytes.len() || !is_continuation_byte(bytes[k])
}

/// The bytes start with a truncated encoding: a leading byte that announces
/// more continuation bytes than follow it.
pub open spec fn starts_truncated(bytes: Seq<u8>) -> bool {
    &&& bytes.len() >= 1
    &&& exists|k: int|
        1 <= k < width_of_leading_byte(bytes[0]) && #[trigger] lacks_continuation_at(bytes, k)
}

/// The bytes start with an overlong encoding: a code point written in more
/// bytes than its shortest form takes.
pub open spec fn starts_overlong(bytes: Seq<u8>) -> bool {
    &&& valid_leading_and_continuation_bytes_first_codepoint(bytes)
    &&& {
        let code = decode_first_codepoint(bytes);
        let width = length_of_first_codepoint(bytes);
        (width == 2 && code < 0x80) || (width == 3 && code < 0x800) || (width == 4 && code
            < 0x10000)
    }
}

/// The bytes start with the encoding of a surrogate.
pub open spec fn starts_with_surrogate(bytes: Seq<u8>) -> bool {
    &&& valid_leading_and_continuation_bytes_first_codepoint(bytes)
    &&& 0xD800 <= decode_first_codepoint(bytes) <= 0xDFFF
}

/// The bytes start with the encoding of a value beyond the code space.
pub open spec fn starts_beyond_code_space(bytes: Seq<u8>) -> bool {
    &&& valid_leading_and_continuation_bytes_first_codepoint(bytes)
    &&& decode_first_codepoint(bytes) > 0x10FFFF
}

/// The bytes start with something that is not the encoding of a scalar value.
pub open spec fn starts_malformed(bytes: Seq<u8>) -> bool {
    ||| starts_with_stray_continuation(bytes)
    ||| starts_with_invalid_leading_byte(bytes)
    ||| starts_truncated(bytes)
    ||| starts_overlong(bytes)
    ||| starts_with_surrogate(bytes)
    ||| starts_beyond_code_space(bytes)
}

/// A non-empty byte sequence starts either with the well-formed encoding of
/// one scalar value or with one of the malformations, never with both.
pub proof fn lemma_first_scalar_valid_or_malformed(bytes: Seq<u8>)
    requires
        bytes.len() >= 1,
    ensures
        valid_first_scalar(bytes) <==> !starts_malformed(bytes),
{
    let width = width_of_leading_byte(bytes[0]);
    if valid_leading_and_continuation_bytes_first_codepoint(bytes) {
        // Nothing is missing, and a short encoding holds no large code point.
        assert(!starts_truncated(bytes));
        lemma_code_point_bounds(bytes);
    } else if width >= 2 {
        // The leading byte announces continuation bytes; one of them is missing.
        if lacks_continuation_at(bytes, 1) {
        } else if width >= 3 && lacks_continuation_at(bytes, 2) {
        } else {
            assert(width == 4 && lacks_continuation_at(bytes, 3));
        }
        assert(starts_truncated(bytes));
    }
}

/// The code point that an encoding of one, two or three bytes holds is no
/// larger than what its data bits can express.
proof fn lemma_code_point_bounds(bytes: Seq<u8>)
    requires
        valid_leading_and_continuation_bytes_first_codepoint(bytes),
    ensures
        length_of_first_codepoint(bytes) == 1 ==> decode_first_codepoint(bytes) <= 0x7F,
        length_of_first_codepoint(bytes) == 2 ==> decode_first_codepoint(bytes) <= 0x7FF,
        length_of_first_codepoint(bytes) == 3 ==> decode_first_codepoint(bytes) <= 0xFFFF,
{
    let b0 = bytes[0];
    if is_leading_byte_width_1(b0) {
        assert((b0 & 0x7F) as u32 <= 0x7F) by (bit_vector);
    } else if is_leading_byte_width_2(b0) {
        let b1 = bytes[1];
        assert((((b0 & 0x1F) as u32) << 6) | ((b1 & 0x3F) as u32) <= 0x7FF) by (bit_vector);
    } else if is_leading_byte_width_3(b0) {
        let b1 = bytes[1];
        let b2 = bytes[2];
        assert((((b0 & 0x0F) as u32) << 12) | (((b1 & 0x3F) as u32) << 6) | ((b2 & 0x3F) as u32)
            <= 0xFFFF) by (bit_vector);
    }
}

/// The decoder is strict: where a well-formed prefix is followed by something
/// that is not the encoding of a scalar value, the whole sequence is not
/// well-formed UTF-8.
pub proof fn lemma_malformed_rejected(bytes: Seq<u8>, at: int)
    requires
        0 <= at < bytes.len(),
        valid_utf8(bytes.subrange(0, at)),
        starts_malformed(bytes.subrange(at, bytes.len() as int)),
    ensures
        !valid_utf8(bytes),
{
    let rest = bytes.subrange(at, bytes.len() as int);
    lemma_first_scalar_valid_or_malformed(rest);
    assert(!valid_utf8(rest));
    partial_valid_partial_invalid_utf8(bytes, at);
}

/// The decoder rejects nothing else: a byte sequence that is not well-formed
/// UTF-8 has a well-formed prefix that is followed by a malformation.
pub proof fn lemma_rejected_is_malformed(bytes: Seq<u8>) -> (at: int)
    requires
        !valid_utf8(bytes),
    ensures
        0 <= at < bytes.len(),
        valid_utf8(bytes.subrange(0, at)),
        starts_malformed(bytes.subrange(at, bytes.len() as int)),
    decreases bytes.len(),
{
    if !valid_first_scalar(bytes) {
        lemma_first_scalar_valid_or_malformed(bytes);
        assert(bytes.subrange(0, bytes.len() as int) =~= bytes);
        assert(bytes.subrange(0, 0) =~= Seq::<u8>::empty());
        0
    } else {
        let width = length_of_first_scalar(bytes);
        let rest = pop_first_scalar(bytes);
        let inner = lemma_rejected_is_malformed(rest);
        let at = width + inner;
        assert(rest.subrange(inner, rest.len() as int) =~= bytes.subrange(
            at,
            bytes.len() as int,
        ));
        assert(valid_utf8(bytes.subrange(0, at))) by {
            let head = take_first_scalar(bytes);
            assert(valid_utf8(head)) by {
                reveal_with_fuel(valid_utf8, 2);
                assert(pop_first_scalar(head) =~= Seq::<u8>::empty());
            }
            valid_utf8_concat(head, rest.subrange(0, inner));
            assert(head + rest.subrange(0, inner) =~= bytes.subrange(0, at));
        }
        at
    }
}

/// A two-byte encoding led by `0xC0` or `0xC1` is overlong: it holds a code
/// point that one byte can express.
pub proof fn lemma_c0_c1_overlong(bytes: Seq<u8>)
    requires
        bytes.len() >= 2,
        bytes[0] == 0xC0 || bytes[0] == 0xC1,
        is_continuation_byte(bytes[1]),
    ensures
        starts_overlong(bytes),
{
    let b0 = bytes[0];
    let b1 = bytes[1];
    assert((((b0 & 0x1F) as u32) << 6) | ((b1 & 0x3F) as u32) < 0x80) by (bit_vector)
        requires
            b0 == 0xC0 || b0 == 0xC1,
    ;
}

/// A three-byte encoding led by `0xED` whose second byte is `0xA0` or above
/// holds a surrogate.
pub proof fn lemma_ed_high_is_surrogate(bytes: Seq<u8>)
    requires
        bytes.len() >= 3,
        bytes[0] == 0xED,
        0xA0 <= bytes[1] <= 0xBF,
        is_continuation_byte(bytes[2]),
    ensures
        starts_with_surrogate(bytes),
{
    let b0 = bytes[0];
    let b1 = bytes[1];
    let b2 = bytes[2];
    assert({
        let code = (((b0 & 0x0F) as u32) << 12) | (((b1 & 0x3F) as u32) << 6) | ((b2
            & 0x3F) as u32);
        0xD800 <= code && code <= 0xDFFF
    }) by (bit_vector)
        requires
            b0 == 0xED,
            0xA0 <= b1 && b1 <= 0xBF,
    ;
}

} // verus!
