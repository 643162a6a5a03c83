//! The three subsets of the Unicode code space and their range tables.
//!
//! Each subset is defined twice: by what it leaves out of the code space
//! ([`Subset::accepts`]) and by a table of the ranges it keeps
//! ([`Subset::table`]). The lemmas of this module show that the two agree, that
//! each table is well formed, and that the table of gaps ([`Subset::gaps`])
//! holds exactly the code points that the subset leaves out.

use crate::range::{ranges_contain, ranges_well_formed, row_range, MAX_CODE_POINT};
use vstd::prelude::*;

verus! {

/// Unicode subset types as defined in RFC 9839.
#[derive(Debug, Clone, Copy, PartialEq, Eq, Structural)]
pub enum Subset {
    /// Every code point but the surrogates.
    UnicodeScalar,
    /// The characters that XML 1.0 allows.
    XmlChar,
    /// The code points that are or may yet be assigned a character: no
    /// surrogate, no legacy control, no noncharacter.
    UnicodeAssignable,
}

// The rows of these tables are not sorted; the ranges most likely to contain
// the code points being queried come first.

/// The ranges of the XML 1.0 characters.
pub const XML_CHARS: [(u32, u32); 6] = [
    (0x20, 0xD7FF),  // most of the BMP
    (0xA, 0xA),  // newline
    (0xE000, 0xFFFD),  // BMP after surrogates
    (0x9, 0x9),  // tab
    (0xD, 0xD),  // CR
    (0x10000, 0x10FFFF),  // astral planes
];

/// The ranges of the Unicode assignable characters.
pub const UNICODE_ASSIGNABLES: [(u32, u32); 23] = [
    (0x20, 0x7E),  // ASCII
    (0xA, 0xA),  // newline
    (0xA0, 0xD7FF),  // most of the BMP
    (0xE000, 0xFDCF),  // BMP after surrogates
    (0xFDF0, 0xFFFD),  // BMP after noncharacters block
    (0x9, 0x9),  // tab
    (0xD, 0xD),  // CR
    (0x10000, 0x1FFFD),  // astral planes from here down
    (0x20000, 0x2FFFD),
    (0x30000, 0x3FFFD),
    (0x40000, 0x4FFFD),
    (0x50000, 0x5FFFD),
    (0x60000, 0x6FFFD),
    (0x70000, 0x7FFFD),
    (0x80000, 0x8FFFD),
    (0x90000, 0x9FFFD),
    (0xA0000, 0xAFFFD),
    (0xB0000, 0xBFFFD),
    (0xC0000, 0xCFFFD),
    (0xD0000, 0xDFFFD),
    (0xE0000, 0xEFFFD),
    (0xF0000, 0xFFFFD),
    (0x100000, 0x10FFFD),
];

/// A surrogate: a code point reserved for the two halves of a UTF-16 pair.
pub open spec fn is_surrogate(code: u32) -> bool {
    0xD800 <= code <= 0xDFFF
}

/// A C0 control other than tab, line feed and carriage return.
pub open spec fn is_c0_control(code: u32) -> bool {
    code < 0x20 && code != 0x9 && code != 0xA && code != 0xD
}

/// A legacy control: a C0 control other than tab, line feed and carriage
/// return, DEL, or a C1 control.
pub open spec fn is_legacy_control(code: u32) -> bool {
    is_c0_control(code) || 0x7F <= code <= 0x9F
}

/// A noncharacter: a code point of the block `U+FDD0..=U+FDEF`, or one of the
/// last two code points of a plane.
pub open spec fn is_noncharacter(code: u32) -> bool {
    0xFDD0 <= code <= 0xFDEF || code % 0x10000 >= 0xFFFE
}

/// The assignable range of plane `p`: the whole plane but its last two code
/// points.
pub open spec fn plane_row(p: int) -> (u32, u32) {
    ((p * 0x10000) as u32, (p * 0x10000 + 0xFFFD) as u32)
}

/// The last two code points of plane `p`.
pub open spec fn plane_gap(p: int) -> (u32, u32) {
    ((p * 0x10000 + 0xFFFE) as u32, (p * 0x10000 + 0xFFFF) as u32)
}

impl Subset {
    /// Whether the code point belongs to this subset. Every subset lies within
    /// the code space and holds no surrogate; `XmlChar` further leaves out the
    /// C0 controls and `U+FFFE`, `U+FFFF`; `UnicodeAssignable` leaves out the
    /// legacy controls and the noncharacters.
    pub open spec fn accepts(self, code: u32) -> bool {
        &&& code <= MAX_CODE_POINT
        &&& !is_surrogate(code)
        &&& match self {
            Subset::UnicodeScalar => true,
            Subset::XmlChar => !is_c0_control(code) && code != 0xFFFE && code != 0xFFFF,
            Subset::UnicodeAssignable => !is_legacy_control(code) && !is_noncharacter(code),
        }
    }

    /// Whether every character of the text belongs to this subset.
    pub open spec fn accepts_text(self, text: Seq<char>) -> bool {
        forall|i: int| 0 <= i < text.len() ==> self.accepts(#[trigger] text[i] as u32)
    }

    /// Whether the bytes are the UTF-8 encoding of a text of this subset.
    /// Bytes that are not valid UTF-8 belong to no subset.
    pub open spec fn accepts_utf8(self, bytes: Seq<u8>) -> bool {
        vstd::utf8::valid_utf8(bytes) && self.accepts_text(vstd::utf8::decode_utf8(bytes))
    }

    /// The range table of this subset.
    pub open spec fn table(self) -> Seq<(u32, u32)> {
        match self {
            Subset::UnicodeScalar => seq![(0x0u32, 0xD7FFu32), (0xE000u32, 0x10FFFFu32)],
            Subset::XmlChar => XML_CHARS@,
            Subset::UnicodeAssignable => UNICODE_ASSIGNABLES@,
        }
    }

    /// The gaps of this subset: the ranges of the code space that its table
    /// leaves out.
    pub open spec fn gaps(self) -> Seq<(u32, u32)> {
        match self {
            Subset::UnicodeScalar => seq![(0xD800u32, 0xDFFFu32)],
            Subset::XmlChar => seq![
                (0x0u32, 0x8u32),
                (0xBu32, 0xCu32),
                (0xEu32, 0x1Fu32),
                (0xD800u32, 0xDFFFu32),
                (0xFFFEu32, 0xFFFFu32),
            ],
            Subset::UnicodeAssignable => seq![
                (0x0u32, 0x8u32),
                (0xBu32, 0xCu32),
                (0xEu32, 0x1Fu32),
                (0x7Fu32, 0x9Fu32),
                (0xD800u32, 0xDFFFu32),
                (0xFDD0u32, 0xFDEFu32),
            ] + Seq::new(17, |p: int| plane_gap(p)),
        }
    }
}

/// The rows of the assignable table: seven for the Basic Multilingual Plane,
/// then one for each of the planes 1 to 16.
pub proof fn lemma_assignable_rows()
    ensures
        UNICODE_ASSIGNABLES@.len() == 23,
        UNICODE_ASSIGNABLES@.subrange(0, 7) =~= seq![
            (0x20u32, 0x7Eu32),
            (0xAu32, 0xAu32),
            (0xA0u32, 0xD7FFu32),
            (0xE000u32, 0xFDCFu32),
            (0xFDF0u32, 0xFFFDu32),
            (0x9u32, 0x9u32),
            (0xDu32, 0xDu32),
        ],
        forall|p: int| 1 <= p <= 16 ==> UNICODE_ASSIGNABLES@[6 + p] == #[trigger] plane_row(p),
{
}

/// The table of a subset holds exactly the code points that the subset
/// accepts.
pub proof fn lemma_table_defines_subset(subset: Subset, code: u32)
    ensures
        ranges_contain(subset.table(), code) == subset.accepts(code),
{
    let table = subset.table();
    if subset.accepts(code) {
        assert(row_range(table[covering_row(subset, code)]).covers(code));
    }
    if ranges_contain(table, code) {
        let i = choose|i: int| 0 <= i < table.len() && row_range(#[trigger] table[i]).covers(code);
        lemma_row_accepted(subset, i, code);
    }
}

/// The index of the row of the subset's table that covers an accepted code
/// point.
pub open spec fn covering_row(subset: Subset, code: u32) -> int {
    match subset {
        Subset::UnicodeScalar => if code <= 0xD7FF {
            0
        } else {
            1
        },
        Subset::XmlChar => if code == 0x9 {
            3
        } else if code == 0xA {
            1
        } else if code == 0xD {
            4
        } else if code <= 0xD7FF {
            0
        } else if code <= 0xFFFD {
            2
        } else {
            5
        },
        Subset::UnicodeAssignable => if code == 0x9 {
            5
        } else if code == 0xA {
            1
        } else if code == 0xD {
            6
        } else if code <= 0x7E {
            0
        } else if code <= 0xD7FF {
            2
        } else if code <= 0xFDCF {
            3
        } else if code <= 0xFFFD {
            4
        } else {
            6 + code / 0x10000
        },
    }
}

/// Every code point that a row of the subset's table covers is accepted.
pub proof fn lemma_row_accepted(subset: Subset, i: int, code: u32)
    requires
        0 <= i < subset.table().len(),
        row_range(subset.table()[i]).covers(code),
    ensures
        subset.accepts(code),
{
}

/// The table of every subset is well formed: each row is a range of the code
/// space, and no two rows overlap.
pub proof fn lemma_table_well_formed(subset: Subset)
    ensures
        ranges_well_formed(subset.table()),
{
}

/// The gaps of a subset hold exactly the code points of the code space that
/// the subset leaves out: table and gaps together partition the code space.
pub proof fn lemma_gaps_complement_table(subset: Subset, code: u32)
    requires
        code <= MAX_CODE_POINT,
    ensures
        ranges_contain(subset.gaps(), code) == !subset.accepts(code),
{
    let gaps = subset.gaps();
    if !subset.accepts(code) {
        assert(row_range(gaps[covering_gap(subset, code)]).covers(code));
    }
    if ranges_contain(gaps, code) {
        let i = choose|i: int| 0 <= i < gaps.len() && row_range(#[trigger] gaps[i]).covers(code);
        lemma_gap_rejected(subset, i, code);
    }
}

/// The index of the gap that covers a code point of the code space that the
/// subset leaves out.
pub open spec fn covering_gap(subset: Subset, code: u32) -> int {
    match subset {
        Subset::UnicodeScalar => 0,
        Subset::XmlChar => if code <= 0x8 {
            0
        } else if code <= 0xC {
            1
        } else if code <= 0x1F {
            2
        } else if code <= 0xDFFF {
            3
        } else {
            4
        },
        Subset::UnicodeAssignable => if code <= 0x8 {
            0
        } else if code <= 0xC {
            1
        } else if code <= 0x1F {
            2
        } else if code <= 0x9F {
            3
        } else if code <= 0xDFFF {
            4
        } else if code <= 0xFDEF {
            5
        } else {
            6 + code / 0x10000
        },
    }
}

/// No code point that a gap of the subset covers is accepted.
pub proof fn lemma_gap_rejected(subset: Subset, i: int, code: u32)
    requires
        0 <= i < subset.gaps().len(),
        row_range(subset.gaps()[i]).covers(code),
    ensures
        !subset.accepts(code),
{
}

/// The gaps of every subset are well formed: each is a range of the code
/// space, and no two overlap.
pub proof fn lemma_gaps_well_formed(subset: Subset)
    ensures
        ranges_well_formed(subset.gaps()),
{
}

/// A `char` holds nothing but a scalar value, so every text is made of scalar
/// values.
pub proof fn lemma_text_is_scalar(text: Seq<char>)
    ensures
        Subset::UnicodeScalar.accepts_text(text),
{
    assert forall|i: int| 0 <= i < text.len() implies Subset::UnicodeScalar.accepts(
        #[trigger] text[i] as u32,
    ) by {
        vstd::utf8::char_is_scalar(text[i]);
    }
}

} // verus!
