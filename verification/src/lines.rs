//! Splitting UTF-8 text into its lines.

use crate::position::LINE_FEED;
use crate::text::segment_text;
use vstd::prelude::*;
use vstd::utf8::*;

verus! {

/// The byte that may stand before a line feed as part of the line ending.
pub const CARRIAGE_RETURN: u8 = 0x0d;

/// Where the content of the line `[from, to)` ends, `to` being the place of
/// its line feed: a carriage return before the line feed belongs to the line
/// ending, not to the line.
pub open spec fn content_end(text: Seq<u8>, from: int, to: int) -> int {
    if from < to && text[to - 1] == CARRIAGE_RETURN {
        to - 1
    } else {
        to
    }
}

/// The lines of `text` that end behind offset `at`, the first of them
/// beginning at `start`; each as the span of its content. A line ends at a
/// line feed, or at a carriage return and a line feed; the last line needs no
/// ending, and no line follows the last ending.
pub open spec fn line_spans(text: Seq<u8>, start: int, at: int) -> Seq<(int, int)>
    decreases text.len() - at,
{
    if at >= text.len() {
        if start < text.len() {
            seq![(start, text.len() as int)]
        } else {
            Seq::empty()
        }
    } else if text[at] == LINE_FEED {
        seq![(start, content_end(text, start, at))] + line_spans(text, at + 1, at + 1)
    } else {
        line_spans(text, start, at + 1)
    }
}

/// The spans of all lines of `text`.
pub open spec fn all_line_spans(text: Seq<u8>) -> Seq<(int, int)> {
    line_spans(text, 0, 0)
}

/// The span `[from, to)` can be cut out of `text`: it lies inside the text,
/// and an ASCII byte or the text's edge stands before it and behind it.
pub open spec fn cuttable(text: Seq<u8>, from: int, to: int) -> bool {
    &&& 0 <= from <= to <= text.len()
    &&& from == 0 || text[from - 1] < 0x80
    &&& to == text.len() || text[to] < 0x80
}

/// The texts that a sequence of strings holds, in their order.
pub open spec fn texts_of(strings: Seq<String>) -> Seq<Seq<char>> {
    Seq::new(strings.len(), |i: int| strings[i]@)
}

/// The lines of `text`, as texts.
pub open spec fn lines_of(text: Seq<u8>) -> Seq<Seq<char>> {
    let spans = all_line_spans(text);
    Seq::new(spans.len(), |i: int| decode_utf8(text.subrange(spans[i].0, spans[i].1)))
}

/// `spans` are the spans of the lines of `text`, each of which can be cut
/// out of it.
pub open spec fn spans_of_lines(spans: Seq<(usize, usize)>, text: Seq<u8>) -> bool {
    &&& spans.len() == all_line_spans(text).len()
    &&& forall|i: int|
        0 <= i < spans.len() ==> {
            &&& (#[trigger] spans[i]).0 == all_line_spans(text)[i].0
            &&& spans[i].1 == all_line_spans(text)[i].1
            &&& cuttable(text, spans[i].0 as int, spans[i].1 as int)
        }
}

/// The spans of the lines of `text`.
pub fn split_lines(text: &[u8]) -> (spans: Vec<(usize, usize)>)
    ensures
        spans_of_lines(spans@, text@),
{
    let n: usize = text.len();
    let mut spans: Vec<(usize, usize)> = Vec::new();
    let ghost mut done: Seq<(int, int)> = Seq::empty();
    let mut start: usize = 0;
    let mut i: usize = 0;
    while i < n
        invariant
            n == text.len(),
            start <= i <= n,
            start == 0 || text@[start - 1] == LINE_FEED,
            done + line_spans(text@, start as int, i as int) =~= all_line_spans(text@),
            spans@.len() == done.len(),
            forall|k: int|
                0 <= k < spans@.len() ==> {
                    &&& (#[trigger] spans@[k]).0 == done[k].0
                    &&& spans@[k].1 == done[k].1
                    &&& cuttable(text@, spans@[k].0 as int, spans@[k].1 as int)
                },
        decreases n - i,
    {
        if text[i] == LINE_FEED {
            let end: usize = if start < i && text[i - 1] == CARRIAGE_RETURN {
                i - 1
            } else {
                i
            };
            proof {
                done = done.push((start as int, end as int));
            }
            spans.push((start, end));
            start = i + 1;
        }
        i += 1;
    }
    if start < n {
        proof {
            done = done.push((start as int, n as int));
        }
        spans.push((start, n));
    }
    assert(done =~= all_line_spans(text@));
    spans
}

/// The lines of the UTF-8 text `text`, as texts.
pub fn split_line_texts(text: &[u8]) -> (lines: Vec<String>)
    requires
        valid_utf8(text@),
    ensures
        texts_of(lines@) == lines_of(text@),
{
    let spans = split_lines(text);
    let mut lines: Vec<String> = Vec::new();
    let mut i: usize = 0;
    while i < spans.len()
        invariant
            i <= spans.len(),
            lines@.len() == i,
            valid_utf8(text@),
            spans_of_lines(spans@, text@),
            forall|k: int| 0 <= k < i ==> (#[trigger] lines@[k])@ == lines_of(text@)[k],
        decreases spans.len() - i,
    {
        let (from, to) = spans[i];
        lines.push(segment_text(text, from, to));
        i += 1;
    }
    assert(texts_of(lines@) =~= lines_of(text@));
    lines
}

} // verus!
