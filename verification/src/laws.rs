//! What holds of the validators on every input, stated over the same `spec`
//! functions that their contracts use.

use crate::decode::{lemma_malformed_rejected, starts_malformed};
use crate::range::{row_range, MAX_CODE_POINT};
use crate::subset::{lemma_row_accepted, Subset};
use crate::validate::{
    is_char_unicode_assignable, is_char_unicode_scalar, is_char_xml_char,
    is_rune_unicode_assignable, is_rune_unicode_scalar, is_rune_xml_char,
    is_string_unicode_assignables, is_string_unicode_scalars, is_string_xml_chars,
    is_utf8_unicode_assignables, is_utf8_unicode_scalars, is_utf8_xml_chars,
};
use vstd::prelude::*;
use vstd::utf8::*;

verus! {

/// Within the code space, the scalar values are the code points that are not
/// surrogates.
pub proof fn lemma_scalar_iff_not_surrogate(code: u32)
    requires
        code <= MAX_CODE_POINT,
    ensures
        Subset::UnicodeScalar.accepts(code) <==> !(0xD800 <= code <= 0xDFFF),
{
}

/// No subset accepts a value beyond the code space.
pub proof fn lemma_beyond_code_space_rejected(subset: Subset, code: u32)
    requires
        code > MAX_CODE_POINT,
    ensures
        !subset.accepts(code),
{
}

/// Both bounds of every row of a subset's table are accepted by that subset.
pub proof fn lemma_range_bounds_accepted(subset: Subset, i: int)
    requires
        0 <= i < subset.table().len(),
    ensures
        subset.accepts(subset.table()[i].0),
        subset.accepts(subset.table()[i].1),
{
    let row = subset.table()[i];
    assert(row_range(row).covers(row.0) && row_range(row).covers(row.1));
    lemma_row_accepted(subset, i, row.0);
    lemma_row_accepted(subset, i, row.1);
}

/// The subsets are nested: an assignable code point is an XML character, and
/// an XML character is a scalar value.
pub proof fn lemma_subsets_nested(code: u32)
    ensures
        Subset::UnicodeAssignable.accepts(code) ==> Subset::XmlChar.accepts(code),
        Subset::XmlChar.accepts(code) ==> Subset::UnicodeScalar.accepts(code),
{
}

/// The empty text and the empty byte sequence belong to every subset.
pub proof fn lemma_empty_accepted(subset: Subset)
    ensures
        subset.accepts_text(Seq::<char>::empty()),
        subset.accepts_utf8(Seq::<u8>::empty()),
{
    assert(valid_utf8(Seq::<u8>::empty()));
    assert(decode_utf8(Seq::<u8>::empty()) =~= Seq::<char>::empty());
}

/// Bytes that are not well-formed UTF-8 belong to no subset.
pub proof fn lemma_invalid_utf8_rejected(subset: Subset, bytes: Seq<u8>)
    requires
        !valid_utf8(bytes),
    ensures
        !subset.accepts_utf8(bytes),
{
}

/// Malformed bytes belong to no subset: where a well-formed prefix is followed
/// by a stray continuation byte, an invalid leading byte, a truncated or an
/// overlong encoding, a surrogate or a value beyond the code space, every
/// subset rejects the whole.
pub proof fn lemma_malformed_utf8_rejected(subset: Subset, bytes: Seq<u8>, at: int)
    requires
        0 <= at < bytes.len(),
        valid_utf8(bytes.subrange(0, at)),
        starts_malformed(bytes.subrange(at, bytes.len() as int)),
    ensures
        !subset.accepts_utf8(bytes),
{
    lemma_malformed_rejected(bytes, at);
}

/// A text made of two parts belongs to a subset exactly if both parts do.
pub proof fn lemma_text_concat(subset: Subset, head: Seq<char>, tail: Seq<char>)
    ensures
        subset.accepts_text(head + tail) == (subset.accepts_text(head) && subset.accepts_text(
            tail,
        )),
{
    let text = head + tail;
    if subset.accepts_text(text) {
        assert forall|i: int| 0 <= i < head.len() implies subset.accepts(
            #[trigger] head[i] as u32,
        ) by {
            assert(head[i] == text[i]);
        }
        assert forall|i: int| 0 <= i < tail.len() implies subset.accepts(
            #[trigger] tail[i] as u32,
        ) by {
            assert(tail[i] == text[head.len() + i]);
        }
    }
    if subset.accepts_text(head) && subset.accepts_text(tail) {
        assert forall|i: int| 0 <= i < text.len() implies subset.accepts(
            #[trigger] text[i] as u32,
        ) by {
            if i < head.len() {
                assert(text[i] == head[i]);
            } else {
                assert(text[i] == tail[i - head.len()]);
            }
        }
    }
}

/// The encoding of a text made of two parts is the encoding of the first part
/// followed by that of the second.
pub proof fn lemma_encode_concat(head: Seq<char>, tail: Seq<char>)
    ensures
        encode_utf8(head + tail) == encode_utf8(head) + encode_utf8(tail),
    decreases head.len(),
{
    if head.len() == 0 {
        assert(head + tail =~= tail);
        assert(encode_utf8(head) + encode_utf8(tail) =~= encode_utf8(tail));
    } else {
        let first = encode_scalar(head[0] as u32);
        assert((head + tail).drop_first() =~= head.drop_first() + tail);
        lemma_encode_concat(head.drop_first(), tail);
        assert(first + (encode_utf8(head.drop_first()) + encode_utf8(tail)) =~= (first
            + encode_utf8(head.drop_first())) + encode_utf8(tail));
    }
}

/// Two well-formed byte sequences, one after the other, belong to a subset
/// exactly if both do.
pub proof fn lemma_utf8_concat(subset: Subset, head: Seq<u8>, tail: Seq<u8>)
    requires
        valid_utf8(head),
        valid_utf8(tail),
    ensures
        subset.accepts_utf8(head + tail) == (subset.accepts_utf8(head) && subset.accepts_utf8(
            tail,
        )),
{
    let a = decode_utf8(head);
    let b = decode_utf8(tail);
    decode_utf8_encode_utf8(head);
    decode_utf8_encode_utf8(tail);
    lemma_encode_concat(a, b);
    encode_utf8_valid_utf8(a + b);
    encode_utf8_decode_utf8(a + b);
    lemma_text_concat(subset, a, b);
}

/// Round trip of a text: the UTF-8 encoding of a text belongs to a subset
/// exactly if the text does.
pub proof fn lemma_round_trip_text(subset: Subset, text: Seq<char>)
    ensures
        subset.accepts_utf8(encode_utf8(text)) == subset.accepts_text(text),
{
    encode_utf8_valid_utf8(text);
    encode_utf8_decode_utf8(text);
}

/// Round trip of a code point: the UTF-8 encoding of a scalar value belongs to
/// a subset exactly if the scalar value does. So a code point that a subset
/// accepts is still accepted once encoded, and a scalar value that it rejects
/// is still rejected.
pub proof fn lemma_round_trip(subset: Subset, code: u32)
    requires
        Subset::UnicodeScalar.accepts(code),
    ensures
        subset.accepts_utf8(encode_scalar(code)) == subset.accepts(code),
{
    let ch = code as char;
    let text = seq![ch];
    assert(ch as u32 == code);
    assert(encode_utf8(text) =~= encode_scalar(code)) by {
        reveal_with_fuel(encode_utf8, 2);
        assert(text.drop_first() =~= Seq::<char>::empty());
    }
    lemma_round_trip_text(subset, text);
    assert(subset.accepts_text(text) == subset.accepts(code)) by {
        assert(text[0] == ch);
    }
}

/// What the code point validator of a subset can return for `r`.
pub open spec fn rune_validator_returns(subset: Subset, r: u32, valid: bool) -> bool {
    match subset {
        Subset::UnicodeScalar => call_ensures(is_rune_unicode_scalar, (r,), valid),
        Subset::XmlChar => call_ensures(is_rune_xml_char, (r,), valid),
        Subset::UnicodeAssignable => call_ensures(is_rune_unicode_assignable, (r,), valid),
    }
}

/// What the character validator of a subset can return for `ch`.
pub open spec fn char_validator_returns(subset: Subset, ch: char, valid: bool) -> bool {
    match subset {
        Subset::UnicodeScalar => call_ensures(is_char_unicode_scalar, (ch,), valid),
        Subset::XmlChar => call_ensures(is_char_xml_char, (ch,), valid),
        Subset::UnicodeAssignable => call_ensures(is_char_unicode_assignable, (ch,), valid),
    }
}

/// What the text validator of a subset can return for `s`.
pub open spec fn string_validator_returns(subset: Subset, s: &str, valid: bool) -> bool {
    match subset {
        Subset::UnicodeScalar => call_ensures(is_string_unicode_scalars, (s,), valid),
        Subset::XmlChar => call_ensures(is_string_xml_chars, (s,), valid),
        Subset::UnicodeAssignable => call_ensures(is_string_unicode_assignables, (s,), valid),
    }
}

/// What the byte validator of a subset can return for `bytes`.
pub open spec fn utf8_validator_returns(subset: Subset, bytes: &[u8], valid: bool) -> bool {
    match subset {
        Subset::UnicodeScalar => call_ensures(is_utf8_unicode_scalars, (bytes,), valid),
        Subset::XmlChar => call_ensures(is_utf8_xml_chars, (bytes,), valid),
        Subset::UnicodeAssignable => call_ensures(is_utf8_unicode_assignables, (bytes,), valid),
    }
}

/// The code point validators are pure: two calls on the same code point
/// return the same answer, the one that the subset gives.
pub proof fn lemma_rune_validators_pure(subset: Subset, r: u32, first: bool, second: bool)
    requires
        rune_validator_returns(subset, r, first),
        rune_validator_returns(subset, r, second),
    ensures
        first == second,
        first == subset.accepts(r),
{
}

/// The character validators are pure: two calls on the same character return
/// the same answer, the one that the subset gives.
pub proof fn lemma_char_validators_pure(subset: Subset, ch: char, first: bool, second: bool)
    requires
        char_validator_returns(subset, ch, first),
        char_validator_returns(subset, ch, second),
    ensures
        first == second,
        first == subset.accepts(ch as u32),
{
}

/// The text validators are pure: two calls on the same text return the same
/// answer, the one that the subset gives.
pub proof fn lemma_string_validators_pure(
    subset: Subset,
    s: &str,
    again: &str,
    first: bool,
    second: bool,
)
    requires
        s@ == again@,
        string_validator_returns(subset, s, first),
        string_validator_returns(subset, again, second),
    ensures
        first == second,
        first == subset.accepts_text(s@),
{
}

/// The byte validators are pure: two calls on the same bytes return the same
/// answer, the one that the subset gives.
pub proof fn lemma_utf8_validators_pure(
    subset: Subset,
    bytes: &[u8],
    again: &[u8],
    first: bool,
    second: bool,
)
    requires
        bytes@ == again@,
        utf8_validator_returns(subset, bytes, first),
        utf8_validator_returns(subset, again, second),
    ensures
        first == second,
        first == subset.accepts_utf8(bytes@),
{
}

/// The layers agree: the byte validators say of the UTF-8 encoding of a string
/// what the text validators say of the string.
pub proof fn lemma_layers_agree(
    subset: Subset,
    s: &str,
    bytes: &[u8],
    of_text: bool,
    of_bytes: bool,
)
    requires
        bytes@ == encode_utf8(s@),
        string_validator_returns(subset, s, of_text),
        utf8_validator_returns(subset, bytes, of_bytes),
    ensures
        of_text == of_bytes,
{
    lemma_round_trip_text(subset, s@);
}

} // verus!
