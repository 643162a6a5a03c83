//! Inclusive code-point ranges and the membership test over a table of them.
//!
//! A range table is a list of rows, each row the inclusive bounds `(lo, hi)` of
//! one block of accepted code points. [`RunePair`] is the range a row stands
//! for. A code point belongs to a table when some row covers it; the order of
//! the rows has no bearing on the answer.

use vstd::prelude::*;

verus! {

/// The largest code point of the Unicode code space.
pub const MAX_CODE_POINT: u32 = 0x10FFFF;

/// A Unicode code point range (inclusive on both ends).
#[derive(Debug, Clone, Copy)]
pub struct RunePair {
    pub lo: u32,
    pub hi: u32,
}

impl RunePair {
    /// Whether `code` lies within the bounds of this range.
    pub open spec fn covers(self, code: u32) -> bool {
        self.lo <= code && code <= self.hi
    }

    /// A range of the code space proper: its bounds are in order and it ends
    /// at or before the last code point.
    pub open spec fn wf(self) -> bool {
        self.lo <= self.hi && self.hi <= MAX_CODE_POINT
    }

    /// Whether this range and `other` have no code point in common.
    pub open spec fn disjoint_from(self, other: RunePair) -> bool {
        self.hi < other.lo || other.hi < self.lo
    }

    /// The range with the given bounds.
    pub fn new(lo: u32, hi: u32) -> (pair: RunePair)
        ensures
            pair.lo == lo,
            pair.hi == hi,
    {
        RunePair { lo, hi }
    }

    /// Whether the character's code point lies within this range.
    #[inline]
    pub fn contains(&self, ch: char) -> (found: bool)
        ensures
            found == self.covers(ch as u32),
    {
        let code = ch as u32;
        code >= self.lo && code <= self.hi
    }
}

/// The range that a table row stands for.
pub open spec fn row_range(row: (u32, u32)) -> RunePair {
    RunePair { lo: row.0, hi: row.1 }
}

/// Membership in a range table: some row of `rows` covers `code`.
pub open spec fn ranges_contain(rows: Seq<(u32, u32)>, code: u32) -> bool {
    exists|i: int| 0 <= i < rows.len() && row_range(#[trigger] rows[i]).covers(code)
}

/// The invariant of a range table: every row is a range of the code space,
/// and no code point is covered by two rows.
pub open spec fn ranges_well_formed(rows: Seq<(u32, u32)>) -> bool {
    &&& forall|i: int| 0 <= i < rows.len() ==> row_range(#[trigger] rows[i]).wf()
    &&& forall|i: int, j: int|
        0 <= i < j < rows.len() ==> row_range(#[trigger] rows[i]).disjoint_from(
            row_range(#[trigger] rows[j]),
        )
}

/// Whether any range of the table contains the character.
#[inline]
pub fn subset_contains(subset: &[(u32, u32)], ch: char) -> (found: bool)
    ensures
        found == ranges_contain(subset@, ch as u32),
{
    let mut i: usize = 0;
    while i < subset.len()
        invariant
            i <= subset.len(),
            forall|j: int| 0 <= j < i ==> !row_range(#[trigger] subset@[j]).covers(ch as u32),
        decreases subset.len() - i,
    {
        let (lo, hi) = subset[i];
        if RunePair::new(lo, hi).contains(ch) {
            return true;
        }
        i += 1;
    }
    false
}

/// Whether any range of the table contains the code point. Every `u32` is a
/// valid argument; one beyond the code space is covered by no well-formed row.
pub fn subset_contains_u32(subset: &[(u32, u32)], code: u32) -> (found: bool)
    ensures
        found == ranges_contain(subset@, code),
{
    let mut i: usize = 0;
    while i < subset.len()
        invariant
            i <= subset.len(),
            forall|j: int| 0 <= j < i ==> !row_range(#[trigger] subset@[j]).covers(code),
        decreases subset.len() - i,
    {
        let (lo, hi) = subset[i];
        if code >= lo && code <= hi {
            return true;
        }
        i += 1;
    }
    false
}

/// A well-formed table covers each code point with at most one row.
pub proof fn lemma_covering_row_unique(rows: Seq<(u32, u32)>, code: u32, i: int, j: int)
    requires
        ranges_well_formed(rows),
        0 <= i < rows.len(),
        0 <= j < rows.len(),
        row_range(rows[i]).covers(code),
        row_range(rows[j]).covers(code),
    ensures
        i == j,
{
    if i < j {
        assert(row_range(rows[i]).disjoint_from(row_range(rows[j])));
    } else if j < i {
        assert(row_range(rows[j]).disjoint_from(row_range(rows[i])));
    }
}

/// A well-formed table contains no code point beyond the code space.
pub proof fn lemma_well_formed_within_code_space(rows: Seq<(u32, u32)>, code: u32)
    requires
        ranges_well_formed(rows),
        ranges_contain(rows, code),
    ensures
        code <= MAX_CODE_POINT,
{
    let i = choose|i: int| 0 <= i < rows.len() && row_range(#[trigger] rows[i]).covers(code);
    assert(row_range(rows[i]).wf());
}

/// The order of the rows does not matter: two tables that hold the same rows,
/// in whatever order, contain the same code points.
pub proof fn lemma_row_order_irrelevant(a: Seq<(u32, u32)>, b: Seq<(u32, u32)>, code: u32)
    requires
        a.to_multiset() == b.to_multiset(),
    ensures
        ranges_contain(a, code) == ranges_contain(b, code),
{
    lemma_same_rows_same_members(a, b, code);
    lemma_same_rows_same_members(b, a, code);
}

/// One half of it: every code point of `a` is a code point of `b`.
proof fn lemma_same_rows_same_members(a: Seq<(u32, u32)>, b: Seq<(u32, u32)>, code: u32)
    requires
        a.to_multiset() == b.to_multiset(),
    ensures
        ranges_contain(a, code) ==> ranges_contain(b, code),
{
    if ranges_contain(a, code) {
        let i = choose|i: int| 0 <= i < a.len() && row_range(#[trigger] a[i]).covers(code);
        a.to_multiset_ensures();
        b.to_multiset_ensures();
        assert(a.contains(a[i]));
        assert(b.to_multiset().count(a[i]) > 0);
        assert(b.contains(a[i]));
        let j = choose|j: int| 0 <= j < b.len() && b[j] == a[i];
        assert(row_range(b[j]).covers(code));
    }
}

} // verus!
