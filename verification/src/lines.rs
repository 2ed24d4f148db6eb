//! Whole lines as the scope of an operator.

use crate::range::Range;
use crate::selection::{transformed_by, Selection};
use crate::text::{line_end, line_to_char, TextBuffer};
use vstd::prelude::*;

verus! {

/// The lines that `range` touches, and the lines after them up to `count`
/// lines counted from the last one touched, as one range that points the way
/// `range` points. A `count` of zero counts as one.
///
/// The range starts where the first touched line starts. With
/// `include_last_newline` it ends where the line after the last covered line
/// starts, so that the last terminator is covered; without, it ends where
/// the content of the last covered line ends, before its terminator. Lines
/// that the text does not have are left out.
pub open spec fn full_line_range(
    s: Seq<char>,
    range: Range,
    count: nat,
    include_last_newline: bool,
) -> Range {
    let lines = range.line_range_in(s);
    let n = if count == 0 {
        1
    } else {
        count as int
    };
    let start = line_to_char(s, lines.0);
    let end = if include_last_newline {
        line_to_char(s, lines.1 + n)
    } else {
        line_end(s, lines.1 + n - 1)
    };
    (Range { anchor: start as usize, head: end as usize }).with_direction(range.direction())
}

/// `full_line_range` of every range of `ranges`, in order.
pub open spec fn full_line_ranges(
    s: Seq<char>,
    ranges: Seq<Range>,
    count: nat,
    include_last_newline: bool,
) -> Seq<Range> {
    Seq::new(ranges.len(), |i: int| full_line_range(s, ranges[i], count, include_last_newline))
}

/// The whole lines that `range` touches, extended to `count` lines.
pub fn full_line(text: &TextBuffer, range: Range, count: usize, include_last_newline: bool) -> (out:
    Range)
    ensures
        out == full_line_range(text@, range, count as nat, include_last_newline),
{
    let (start_line, end_line) = range.line_range(text);
    let lines: usize = text.len_lines();
    let n: usize = if count == 0 {
        1
    } else {
        count
    };
    let room: usize = lines - 1 - end_line;
    let start: usize = text.line_to_char(start_line);
    let end: usize = if include_last_newline {
        if n > room {
            text.len_chars()
        } else {
            text.line_to_char(end_line + n)
        }
    } else {
        if n - 1 >= room {
            text.len_chars()
        } else {
            text.line_end_char_index(end_line + n - 1)
        }
    };
    Range::new(start, end).with_direction(range.direction())
}

/// The whole lines of every range of `selection`, extended to `count` lines:
/// range `i` of the result is `full_line_range` of range `i`.
pub fn full_line_selection(
    text: &TextBuffer,
    selection: &Selection,
    count: usize,
    include_last_newline: bool,
) -> (out: Selection)
    ensures
        out@ == full_line_ranges(text@, selection@, count as nat, include_last_newline),
{
    let lines = |t: &TextBuffer, range: Range| -> (r: Range)
        ensures
            r == full_line_range(t@, range, count as nat, include_last_newline),
        { full_line(t, range, count, include_last_newline) };
    let out: Selection = selection.transform(text, lines);
    assert forall|i: int| 0 <= i < selection@.len() implies #[trigger] out@[i] == full_line_range(
        text@,
        selection@[i],
        count as nat,
        include_last_newline,
    ) by {
        assert(transformed_by(lines, text, selection@[i], out@[i]));
    }
    assert(out@ == full_line_ranges(text@, selection@, count as nat, include_last_newline));
    out
}

} // verus!
