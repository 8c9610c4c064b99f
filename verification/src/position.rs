//! Byte offsets, lines and columns in UTF-8 text.

use crate::text::lemma_valid_between_ascii;
use vstd::prelude::*;
use vstd::utf8::*;

verus! {

/// The byte that ends a line.
pub const LINE_FEED: u8 = 0x0A;

/// The 1-based line that holds byte offset `pos` of `text`: one more than the
/// number of line feeds before `pos`.
pub open spec fn line_at(text: Seq<u8>, pos: int) -> int
    decreases pos,
{
    if pos <= 0 {
        1
    } else if text[pos - 1] == LINE_FEED {
        line_at(text, pos - 1) + 1
    } else {
        line_at(text, pos - 1)
    }
}

/// The 1-based column of byte offset `pos` of `text`: one more than the number
/// of scalar values that start before `pos` and after the last line feed
/// before `pos`.
pub open spec fn column_at(text: Seq<u8>, pos: int) -> int
    decreases pos,
{
    if pos <= 0 {
        1
    } else if text[pos - 1] == LINE_FEED {
        1
    } else if is_char_boundary(text, pos - 1) {
        column_at(text, pos - 1) + 1
    } else {
        column_at(text, pos - 1)
    }
}

/// An offset past the end of the text stands for the end of the text.
pub open spec fn clamp_offset(text: Seq<u8>, pos: int) -> int {
    if pos < text.len() {
        pos
    } else {
        text.len() as int
    }
}

/// A count as it is reported: itself where it fits a machine word, and the
/// greatest machine word where it does not. (Only in a text of `usize::MAX`
/// bytes can a line or a column fail to fit.)
pub open spec fn reported(count: int) -> usize {
    if count > usize::MAX {
        usize::MAX
    } else {
        count as usize
    }
}

/// Where one occurrence of a pattern lies: the half-open byte range
/// `[byte_start, byte_end)`, and the line and column of both ends.
#[derive(Clone, Copy, Debug, PartialEq, Eq, Structural)]
pub struct SearchRange {
    pub byte_start: usize,
    pub line_start: usize,
    pub column_start: usize,
    pub byte_end: usize,
    pub line_end: usize,
    pub column_end: usize,
}

impl SearchRange {
    /// The start does not lie behind the end, neither in bytes nor in
    /// (line, column) order, and lines and columns count from one.
    pub open spec fn well_formed(&self) -> bool {
        &&& self.byte_start <= self.byte_end
        &&& 1 <= self.line_start <= self.line_end
        &&& 1 <= self.column_start
        &&& 1 <= self.column_end
        &&& self.line_start == self.line_end ==> self.column_start <= self.column_end
    }

    /// Both ends lie inside `text` and between scalar values, so that `text`
    /// can be cut at them.
    pub open spec fn cuts(&self, text: Seq<u8>) -> bool {
        &&& self.byte_start <= self.byte_end <= text.len()
        &&& is_char_boundary(text, self.byte_start as int)
        &&& is_char_boundary(text, self.byte_end as int)
    }
}

/// The range that the span `[start, end)` of `text` is reported as.
pub open spec fn range_at(text: Seq<u8>, start: usize, end: usize) -> SearchRange {
    SearchRange {
        byte_start: start,
        line_start: reported(line_at(text, clamp_offset(text, start as int))),
        column_start: reported(column_at(text, clamp_offset(text, start as int))),
        byte_end: end,
        line_end: reported(line_at(text, clamp_offset(text, end as int))),
        column_end: reported(column_at(text, clamp_offset(text, end as int))),
    }
}

/// The ranges that report `spans`, one for one and in their order.
pub open spec fn ranges_at(text: Seq<u8>, spans: Seq<(usize, usize)>) -> Seq<SearchRange> {
    Seq::new(spans.len(), |i: int| range_at(text, spans[i].0, spans[i].1))
}

/// Lines and columns are at least one, and every byte before an offset adds
/// at most one to their sum.
pub proof fn lemma_position_bounds(text: Seq<u8>, pos: int)
    requires
        0 <= pos <= text.len(),
    ensures
        1 <= line_at(text, pos),
        1 <= column_at(text, pos),
        line_at(text, pos) + column_at(text, pos) <= pos + 2,
    decreases pos,
{
    if pos > 0 {
        lemma_position_bounds(text, pos - 1);
    }
}

/// Going forward in the text never goes back in (line, column) order.
pub proof fn lemma_position_monotone(text: Seq<u8>, a: int, b: int)
    requires
        0 <= a <= b <= text.len(),
    ensures
        line_at(text, a) <= line_at(text, b),
        line_at(text, a) == line_at(text, b) ==> column_at(text, a) <= column_at(text, b),
    decreases b - a,
{
    if a < b {
        lemma_position_monotone(text, a, b - 1);
    }
}

/// Where the line that holds offset `pos` begins: behind the last line feed
/// before `pos`, or at 0 where there is none.
pub open spec fn line_start(text: Seq<u8>, pos: int) -> int
    decreases pos,
{
    if pos <= 0 {
        0
    } else if text[pos - 1] == LINE_FEED {
        pos
    } else {
        line_start(text, pos - 1)
    }
}

/// How many of the bytes of `text` in `[from, to)` begin a scalar value.
pub open spec fn scalar_starts(text: Seq<u8>, from: int, to: int) -> int
    decreases to - from,
{
    if to <= from {
        0
    } else if is_continuation_byte(text[to - 1]) {
        scalar_starts(text, from, to - 1)
    } else {
        scalar_starts(text, from, to - 1) + 1
    }
}

proof fn lemma_scalar_starts_split(text: Seq<u8>, from: int, mid: int, to: int)
    requires
        from <= mid <= to,
    ensures
        scalar_starts(text, from, to) == scalar_starts(text, from, mid) + scalar_starts(
            text,
            mid,
            to,
        ),
    decreases to - mid,
{
    if mid < to {
        lemma_scalar_starts_split(text, from, mid, to - 1);
    }
}

proof fn lemma_scalar_starts_shift(text: Seq<u8>, from: int, to: int, end: int)
    requires
        0 <= from <= to <= end <= text.len(),
    ensures
        scalar_starts(text, from, to) == scalar_starts(text.subrange(from, end), 0, to - from),
    decreases to - from,
{
    if from < to {
        lemma_scalar_starts_shift(text, from, to - 1, end);
    }
}

/// In UTF-8 text, as many bytes begin a scalar value as the text holds
/// scalar values.
pub proof fn lemma_scalar_starts_are_scalars(text: Seq<u8>)
    requires
        valid_utf8(text),
    ensures
        scalar_starts(text, 0, text.len() as int) == decode_utf8(text).len(),
    decreases text.len(),
{
    if text.len() > 0 {
        let width = length_of_first_scalar(text);
        let rest = pop_first_scalar(text);
        lemma_scalar_starts_are_scalars(rest);
        lemma_scalar_starts_split(text, 0, width, text.len() as int);
        lemma_scalar_starts_shift(text, width, text.len() as int, text.len() as int);
        assert(scalar_starts(text, 0, width) == 1) by {
            reveal_with_fuel(scalar_starts, 5);
        }
    }
}

/// Where a line begins lies at or before every offset of the line.
pub proof fn lemma_line_start_bounds(text: Seq<u8>, pos: int)
    requires
        0 <= pos <= text.len(),
    ensures
        0 <= line_start(text, pos) <= pos,
        line_start(text, pos) == 0 || text[line_start(text, pos) - 1] == LINE_FEED,
    decreases pos,
{
    if pos > 0 && text[pos - 1] != LINE_FEED {
        lemma_line_start_bounds(text, pos - 1);
    }
}

proof fn lemma_column_counts_starts(text: Seq<u8>, pos: int)
    requires
        valid_utf8(text),
        0 <= pos <= text.len(),
    ensures
        column_at(text, pos) == 1 + scalar_starts(text, line_start(text, pos), pos),
    decreases pos,
{
    if pos > 0 && text[pos - 1] != LINE_FEED {
        lemma_column_counts_starts(text, pos - 1);
        lemma_line_start_bounds(text, pos - 1);
        is_char_boundary_iff_not_is_continuation_byte(text, pos - 1);
    }
}

/// Columns count scalar values, not bytes: at an offset of UTF-8 text that
/// lies between scalar values, the column is one more than the number of
/// scalar values between the beginning of the line and the offset.
pub proof fn lemma_column_counts_scalars(text: Seq<u8>, pos: int)
    requires
        valid_utf8(text),
        0 <= pos <= text.len(),
        is_char_boundary(text, pos),
    ensures
        valid_utf8(text.subrange(line_start(text, pos), pos)),
        column_at(text, pos) == 1 + decode_utf8(text.subrange(line_start(text, pos), pos)).len(),
{
    let begin = line_start(text, pos);
    lemma_line_start_bounds(text, pos);
    lemma_column_counts_starts(text, pos);
    valid_utf8_split(text, pos);
    let head = text.subrange(0, pos);
    lemma_valid_between_ascii(head, begin, pos);
    assert(head.subrange(begin, pos) =~= text.subrange(begin, pos));
    let line = text.subrange(begin, pos);
    lemma_scalar_starts_shift(text, begin, pos, pos);
    lemma_scalar_starts_are_scalars(line);
}

/// The range reported for a span whose start is not behind its end is well
/// formed.
pub proof fn lemma_range_at_well_formed(text: Seq<u8>, start: usize, end: usize)
    requires
        start <= end,
    ensures
        range_at(text, start, end).well_formed(),
{
    let s = clamp_offset(text, start as int);
    let e = clamp_offset(text, end as int);
    lemma_position_monotone(text, s, e);
    lemma_position_bounds(text, s);
    lemma_position_bounds(text, e);
}

} // verus!
