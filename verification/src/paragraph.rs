//! Motion by paragraphs: runs of non-blank lines parted by runs of blank ones.

use crate::range::{Movement, Range};
use crate::text::{
    clamp_offset, lemma_char_to_line, lemma_char_to_line_monotonic, lemma_line_starts, len_lines, line_is_blank, line_to_char,
    prev_boundary, TextBuffer,
};
use vstd::prelude::*;

verus! {

/// The first line at or after `line` that is not of the kind `blank`, or the
/// number of lines if there is none.
pub open spec fn skip_forward(s: Seq<char>, line: int, blank: bool) -> int
    decreases len_lines(s) - line,
{
    if 0 <= line < len_lines(s) && line_is_blank(s, line) == blank {
        skip_forward(s, line + 1, blank)
    } else {
        line
    }
}

/// One paragraph down from `line`: past the blank lines there, past the
/// non-blank lines that follow, and past one more blank line if there is one.
pub open spec fn paragraph_step_forward(s: Seq<char>, line: int) -> int {
    let body = skip_forward(s, line, true);
    let gap = skip_forward(s, body, false);
    if 0 <= gap < len_lines(s) && line_is_blank(s, gap) {
        gap + 1
    } else {
        gap
    }
}

/// `count` paragraphs down from `line`.
pub open spec fn paragraphs_forward(s: Seq<char>, line: int, count: nat) -> int
    decreases count,
{
    if count == 0 {
        line
    } else {
        paragraph_step_forward(s, paragraphs_forward(s, line, (count - 1) as nat))
    }
}

/// The lowest line `l <= line` such that every line from `l` up to, not
/// including, `line` is of the kind `blank`.
pub open spec fn skip_backward(s: Seq<char>, line: int, blank: bool) -> int
    decreases line,
{
    if 0 < line <= len_lines(s) && line_is_blank(s, line - 1) == blank {
        skip_backward(s, line - 1, blank)
    } else {
        line
    }
}

/// One paragraph up from `line`: over the blank lines above it, over the
/// non-blank lines above those, and over one more blank line if there is one.
pub open spec fn paragraph_step_backward(s: Seq<char>, line: int) -> int {
    let body = skip_backward(s, line, true);
    let gap = skip_backward(s, body, false);
    if 0 < gap <= len_lines(s) && line_is_blank(s, gap - 1) {
        gap - 1
    } else {
        gap
    }
}

/// `count` paragraphs up from `line`.
pub open spec fn paragraphs_backward(s: Seq<char>, line: int, count: nat) -> int
    decreases count,
{
    if count == 0 {
        line
    } else {
        paragraph_step_backward(s, paragraphs_backward(s, line, (count - 1) as nat))
    }
}

/// Whether the cursor of `range` stands on the last character of a blank
/// line that a non-blank line follows: the boundary before a paragraph.
pub open spec fn at_boundary_below(s: Seq<char>, range: Range) -> bool {
    let line = range.cursor_line_in(s);
    let next = if line + 1 < len_lines(s) {
        line + 1
    } else {
        len_lines(s) - 1
    };
    &&& line_is_blank(s, line)
    &&& !line_is_blank(s, next)
    &&& prev_boundary(s, line_to_char(s, line + 1)) == range.cursor_in(s)
}

/// Where a motion of `count` paragraphs down takes `range`.
///
/// The head lands on the start of the line reached. A cursor at the boundary
/// before a paragraph has that boundary behind it: the scan starts one line
/// further down. A moving cursor leaves its anchor where the cursor was, or,
/// at that boundary, where the head was; an extending one keeps the anchor
/// that putting the cursor on the new head gives. With a count of zero no
/// paragraph is crossed, and the head lands on the start of the line where
/// the scan starts.
pub open spec fn paragraph_forward_in(
    s: Seq<char>,
    range: Range,
    count: nat,
    behavior: Movement,
) -> Range {
    let line = range.cursor_line_in(s);
    let start = if at_boundary_below(s, range) {
        line + 1
    } else {
        line
    };
    let head = line_to_char(s, paragraphs_forward(s, start, count));
    let anchor = match behavior {
        Movement::Move => if at_boundary_below(s, range) {
            range.head as int
        } else {
            range.cursor_in(s)
        },
        Movement::Extend => range.put_cursor_in(s, head, true).anchor as int,
    };
    Range { anchor: anchor as usize, head: head as usize }
}

/// Whether the cursor of `range` stands on a non-blank line that follows a
/// blank one: the first line of a paragraph.
pub open spec fn on_first_line_of_paragraph(s: Seq<char>, range: Range) -> bool {
    let line = range.cursor_line_in(s);
    let prev = if line > 0 {
        line - 1
    } else {
        0
    };
    line_is_blank(s, prev) && !line_is_blank(s, line)
}

/// Whether the cursor of `range` stands on the first character of its line.
pub open spec fn at_line_start(s: Seq<char>, range: Range) -> bool {
    line_to_char(s, range.cursor_line_in(s)) == range.cursor_in(s)
}

/// Where a motion of `count` paragraphs up takes `range`.
///
/// The head lands on the start of the line reached. A cursor on the first
/// character of a paragraph has the boundary above it behind it: the scan
/// starts at its line, so that the paragraph above is the one crossed.
/// Elsewhere on that first line the scan starts one line further down, so
/// that the line itself is crossed first. A moving cursor leaves its anchor
/// where the cursor was, or, on that first character, where the head was; an
/// extending one keeps the anchor that putting the cursor on the new head
/// gives. With a count of zero no paragraph is crossed, and the head lands on
/// the start of the line where the scan starts, which may be the line below
/// the cursor.
pub open spec fn paragraph_backward_in(
    s: Seq<char>,
    range: Range,
    count: nat,
    behavior: Movement,
) -> Range {
    let line = range.cursor_line_in(s);
    let start = if on_first_line_of_paragraph(s, range) && !at_line_start(s, range) {
        line + 1
    } else {
        line
    };
    let head = line_to_char(s, paragraphs_backward(s, start, count));
    let anchor = match behavior {
        Movement::Move => if on_first_line_of_paragraph(s, range) && at_line_start(s, range) {
            range.head as int
        } else {
            range.cursor_in(s)
        },
        Movement::Extend => range.put_cursor_in(s, head, true).anchor as int,
    };
    Range { anchor: anchor as usize, head: head as usize }
}

/// Skipping forward stays within the lines and never goes back.
pub proof fn lemma_skip_forward(s: Seq<char>, line: int, blank: bool)
    requires
        0 <= line <= len_lines(s),
    ensures
        line <= skip_forward(s, line, blank) <= len_lines(s),
        skip_forward(s, line, blank) < len_lines(s) ==> line_is_blank(
            s,
            skip_forward(s, line, blank),
        ) != blank,
        line < len_lines(s) && line_is_blank(s, line) == blank ==> line < skip_forward(
            s,
            line,
            blank,
        ),
    decreases len_lines(s) - line,
{
    if line < len_lines(s) && line_is_blank(s, line) == blank {
        lemma_skip_forward(s, line + 1, blank);
    }
}

/// Skipping backward stays within the lines and never goes forward.
pub proof fn lemma_skip_backward(s: Seq<char>, line: int, blank: bool)
    requires
        0 <= line <= len_lines(s),
    ensures
        0 <= skip_backward(s, line, blank) <= line,
        0 < skip_backward(s, line, blank) ==> line_is_blank(
            s,
            skip_backward(s, line, blank) - 1,
        ) != blank,
        0 < line && line_is_blank(s, line - 1) == blank ==> skip_backward(s, line, blank) < line,
    decreases line,
{
    if 0 < line && line_is_blank(s, line - 1) == blank {
        lemma_skip_backward(s, line - 1, blank);
    }
}

/// A step down moves on by at least one line, until the lines run out.
pub proof fn lemma_step_forward_advances(s: Seq<char>, line: int)
    requires
        0 <= line <= len_lines(s),
    ensures
        line <= paragraph_step_forward(s, line) <= len_lines(s),
        line < len_lines(s) ==> line < paragraph_step_forward(s, line),
{
    lemma_skip_forward(s, line, true);
    lemma_skip_forward(s, skip_forward(s, line, true), false);
}

/// A step up moves on by at least one line, until the first line is reached.
pub proof fn lemma_step_backward_advances(s: Seq<char>, line: int)
    requires
        0 <= line <= len_lines(s),
    ensures
        0 <= paragraph_step_backward(s, line) <= line,
        0 < line ==> paragraph_step_backward(s, line) < line,
{
    lemma_skip_backward(s, line, true);
    lemma_skip_backward(s, skip_backward(s, line, true), false);
}

/// Steps down stay within the lines and never go back.
pub proof fn lemma_paragraphs_forward_bounds(s: Seq<char>, line: int, count: nat)
    requires
        0 <= line <= len_lines(s),
    ensures
        line <= paragraphs_forward(s, line, count) <= len_lines(s),
    decreases count,
{
    if count > 0 {
        lemma_paragraphs_forward_bounds(s, line, (count - 1) as nat);
        lemma_step_forward_advances(s, paragraphs_forward(s, line, (count - 1) as nat));
    }
}

/// Once a step down leaves the line where it is, every further step does.
pub proof fn lemma_paragraphs_forward_settled(s: Seq<char>, line: int, done: nat, count: nat)
    requires
        done <= count,
        paragraph_step_forward(s, paragraphs_forward(s, line, done)) == paragraphs_forward(
            s,
            line,
            done,
        ),
    ensures
        paragraphs_forward(s, line, count) == paragraphs_forward(s, line, done),
    decreases count,
{
    if done < count {
        lemma_paragraphs_forward_settled(s, line, done, (count - 1) as nat);
    }
}

/// Steps up stay within the lines and never go forward.
pub proof fn lemma_paragraphs_backward_bounds(s: Seq<char>, line: int, count: nat)
    requires
        0 <= line <= len_lines(s),
    ensures
        0 <= paragraphs_backward(s, line, count) <= line,
    decreases count,
{
    if count > 0 {
        lemma_paragraphs_backward_bounds(s, line, (count - 1) as nat);
        lemma_step_backward_advances(s, paragraphs_backward(s, line, (count - 1) as nat));
    }
}

/// Once a step up leaves the line where it is, every further step does.
pub proof fn lemma_paragraphs_backward_settled(s: Seq<char>, line: int, done: nat, count: nat)
    requires
        done <= count,
        paragraph_step_backward(s, paragraphs_backward(s, line, done)) == paragraphs_backward(
            s,
            line,
            done,
        ),
    ensures
        paragraphs_backward(s, line, count) == paragraphs_backward(s, line, done),
    decreases count,
{
    if done < count {
        lemma_paragraphs_backward_settled(s, line, done, (count - 1) as nat);
    }
}

/// Where no line from `line` on is blank, skipping the non-blank lines ends
/// behind the last line.
pub proof fn lemma_skip_forward_to_end(s: Seq<char>, line: int)
    requires
        0 <= line <= len_lines(s),
        forall|l: int| line <= l < len_lines(s) ==> !line_is_blank(s, l),
    ensures
        skip_forward(s, line, false) == len_lines(s),
    decreases len_lines(s) - line,
{
    if line < len_lines(s) {
        lemma_skip_forward_to_end(s, line + 1);
    }
}

/// Where no line before `line` is blank, skipping the non-blank lines ends
/// on the first line.
pub proof fn lemma_skip_backward_to_start(s: Seq<char>, line: int)
    requires
        0 <= line <= len_lines(s),
        forall|l: int| 0 <= l < line ==> !line_is_blank(s, l),
    ensures
        skip_backward(s, line, false) == 0,
    decreases line,
{
    if line > 0 {
        lemma_skip_backward_to_start(s, line - 1);
    }
}

/// In a text without blank lines a step down goes behind the last line and
/// a step up goes to the first line.
pub proof fn lemma_steps_without_blank_lines(s: Seq<char>, line: int)
    requires
        0 <= line <= len_lines(s),
        forall|l: int| 0 <= l < len_lines(s) ==> !line_is_blank(s, l),
    ensures
        paragraph_step_forward(s, line) == len_lines(s),
        paragraph_step_backward(s, line) == 0,
{
    lemma_skip_forward_to_end(s, line);
    lemma_skip_backward_to_start(s, line);
}

/// Skipping forward from a later line does not end earlier.
pub proof fn lemma_skip_forward_monotonic(s: Seq<char>, low: int, high: int, blank: bool)
    requires
        0 <= low <= high <= len_lines(s),
    ensures
        skip_forward(s, low, blank) <= skip_forward(s, high, blank),
    decreases high - low,
{
    lemma_skip_forward(s, high, blank);
    if low < high && line_is_blank(s, low) == blank {
        lemma_skip_forward_monotonic(s, low + 1, high, blank);
    }
}

/// Skipping backward from an earlier line does not end later.
pub proof fn lemma_skip_backward_monotonic(s: Seq<char>, low: int, high: int, blank: bool)
    requires
        0 <= low <= high <= len_lines(s),
    ensures
        skip_backward(s, low, blank) <= skip_backward(s, high, blank),
    decreases high - low,
{
    lemma_skip_backward(s, low, blank);
    if low < high && line_is_blank(s, high - 1) == blank {
        lemma_skip_backward_monotonic(s, low, high - 1, blank);
    }
}

/// A step down from a later line does not end earlier.
pub proof fn lemma_step_forward_monotonic(s: Seq<char>, low: int, high: int)
    requires
        0 <= low <= high <= len_lines(s),
    ensures
        paragraph_step_forward(s, low) <= paragraph_step_forward(s, high),
{
    lemma_skip_forward(s, low, true);
    lemma_skip_forward(s, high, true);
    lemma_skip_forward_monotonic(s, low, high, true);
    let a = skip_forward(s, low, true);
    let b = skip_forward(s, high, true);
    lemma_skip_forward(s, a, false);
    lemma_skip_forward(s, b, false);
    lemma_skip_forward_monotonic(s, a, b, false);
}

/// A step up from an earlier line does not end later.
pub proof fn lemma_step_backward_monotonic(s: Seq<char>, low: int, high: int)
    requires
        0 <= low <= high <= len_lines(s),
    ensures
        paragraph_step_backward(s, low) <= paragraph_step_backward(s, high),
{
    lemma_skip_backward(s, low, true);
    lemma_skip_backward(s, high, true);
    lemma_skip_backward_monotonic(s, low, high, true);
    let a = skip_backward(s, low, true);
    let b = skip_backward(s, high, true);
    lemma_skip_backward(s, a, false);
    lemma_skip_backward(s, b, false);
    lemma_skip_backward_monotonic(s, a, b, false);
}

/// A step down and then a step up ends between where a step up alone ends
/// and where the step down ended: going back after going on loses no more
/// ground than one step back from the start.
pub proof fn lemma_forward_then_backward(s: Seq<char>, line: int)
    requires
        0 <= line <= len_lines(s),
    ensures
        paragraph_step_backward(s, line) <= paragraph_step_backward(
            s,
            paragraph_step_forward(s, line),
        ) <= paragraph_step_forward(s, line),
{
    lemma_step_forward_advances(s, line);
    lemma_step_backward_monotonic(s, line, paragraph_step_forward(s, line));
    lemma_step_backward_advances(s, paragraph_step_forward(s, line));
}

/// A step up and then a step down ends between where the step up ended and
/// where a step down alone ends: going on after going back gains no more
/// ground than one step on from the start.
pub proof fn lemma_backward_then_forward(s: Seq<char>, line: int)
    requires
        0 <= line <= len_lines(s),
    ensures
        paragraph_step_backward(s, line) <= paragraph_step_forward(
            s,
            paragraph_step_backward(s, line),
        ) <= paragraph_step_forward(s, line),
{
    lemma_step_backward_advances(s, line);
    lemma_step_forward_monotonic(s, paragraph_step_backward(s, line), line);
    lemma_step_forward_advances(s, paragraph_step_backward(s, line));
}

/// One step down or more ends below the line it starts from, as long as
/// that is a line of the text.
pub proof fn lemma_paragraphs_forward_advance(s: Seq<char>, line: int, count: nat)
    requires
        0 <= line < len_lines(s),
        count >= 1,
    ensures
        line < paragraphs_forward(s, line, count) <= len_lines(s),
    decreases count,
{
    lemma_paragraphs_forward_bounds(s, line, (count - 1) as nat);
    lemma_step_forward_advances(s, paragraphs_forward(s, line, (count - 1) as nat));
    if count > 1 {
        lemma_paragraphs_forward_advance(s, line, (count - 1) as nat);
    }
}

/// One step up or more ends above the line it starts from, as long as that
/// is not the first line.
pub proof fn lemma_paragraphs_backward_advance(s: Seq<char>, line: int, count: nat)
    requires
        0 < line <= len_lines(s),
        count >= 1,
    ensures
        0 <= paragraphs_backward(s, line, count) < line,
    decreases count,
{
    lemma_paragraphs_backward_bounds(s, line, (count - 1) as nat);
    lemma_step_backward_advances(s, paragraphs_backward(s, line, (count - 1) as nat));
    if count > 1 {
        lemma_paragraphs_backward_advance(s, line, (count - 1) as nat);
    }
}

/// A motion down never stalls: with a count of one or more the head lands
/// after the start of the cursor's line, unless the text ends there.
pub proof fn lemma_forward_motion_advances(
    s: Seq<char>,
    range: Range,
    count: nat,
    behavior: Movement,
)
    requires
        s.len() <= usize::MAX,
        count >= 1,
    ensures
        line_to_char(s, range.cursor_line_in(s)) <= paragraph_forward_in(s, range, count, behavior).head
            <= s.len(),
        line_to_char(s, range.cursor_line_in(s)) < paragraph_forward_in(s, range, count, behavior).head
            || line_to_char(s, range.cursor_line_in(s)) == s.len(),
{
    let line = range.cursor_line_in(s);
    lemma_char_to_line_monotonic(s, range.cursor_in(s), range.cursor_in(s));
    lemma_line_starts(s, s.len() as int);
    let start = if at_boundary_below(s, range) {
        line + 1
    } else {
        line
    };
    lemma_paragraphs_forward_bounds(s, start, count);
    if start < len_lines(s) {
        lemma_paragraphs_forward_advance(s, start, count);
    }
}

/// A motion up never stalls: with a count of one or more the head lands
/// before the cursor, unless the cursor is at the start of the text.
pub proof fn lemma_backward_motion_advances(
    s: Seq<char>,
    range: Range,
    count: nat,
    behavior: Movement,
)
    requires
        s.len() <= usize::MAX,
        count >= 1,
    ensures
        paragraph_backward_in(s, range, count, behavior).head <= line_to_char(
            s,
            range.cursor_line_in(s),
        ),
        paragraph_backward_in(s, range, count, behavior).head < range.cursor_in(s) || range.cursor_in(s)
            == 0,
{
    let line = range.cursor_line_in(s);
    let cursor = range.cursor_in(s);
    lemma_char_to_line_monotonic(s, cursor, cursor);
    lemma_line_starts(s, s.len() as int);
    lemma_char_to_line(s, clamp_offset(s, cursor));
    let start = if on_first_line_of_paragraph(s, range) && !at_line_start(s, range) {
        line + 1
    } else {
        line
    };
    lemma_paragraphs_backward_bounds(s, start, count);
    if start > 0 {
        lemma_paragraphs_backward_advance(s, start, count);
    }
}

/// Skips the lines of the kind `blank` from `line` on.
fn skip_lines_forward(text: &TextBuffer, line: usize, blank: bool) -> (landed: usize)
    requires
        line <= len_lines(text@),
    ensures
        landed == skip_forward(text@, line as int, blank),
        line <= landed <= len_lines(text@),
{
    let lines: usize = text.len_lines();
    let mut at: usize = line;
    while at < lines && text.line_is_blank(at) == blank
        invariant
            line <= at <= lines,
            lines == len_lines(text@),
            skip_forward(text@, at as int, blank) == skip_forward(text@, line as int, blank),
        decreases lines - at,
    {
        at = at + 1;
    }
    at
}

/// Takes one step down from `line`.
fn step_forward(text: &TextBuffer, line: usize) -> (landed: usize)
    requires
        line <= len_lines(text@),
    ensures
        landed == paragraph_step_forward(text@, line as int),
        line <= landed <= len_lines(text@),
{
    let body: usize = skip_lines_forward(text, line, true);
    let gap: usize = skip_lines_forward(text, body, false);
    if gap < text.len_lines() && text.line_is_blank(gap) {
        gap + 1
    } else {
        gap
    }
}

/// Skips the lines of the kind `blank` above `line`.
fn skip_lines_backward(text: &TextBuffer, line: usize, blank: bool) -> (landed: usize)
    requires
        line <= len_lines(text@),
    ensures
        landed == skip_backward(text@, line as int, blank),
        landed <= line,
{
    let mut at: usize = line;
    while at > 0 && text.line_is_blank(at - 1) == blank
        invariant
            at <= line <= len_lines(text@),
            skip_backward(text@, at as int, blank) == skip_backward(text@, line as int, blank),
        decreases at,
    {
        at = at - 1;
    }
    at
}

/// Takes one step up from `line`.
fn step_backward(text: &TextBuffer, line: usize) -> (landed: usize)
    requires
        line <= len_lines(text@),
    ensures
        landed == paragraph_step_backward(text@, line as int),
        landed <= line,
{
    let body: usize = skip_lines_backward(text, line, true);
    let gap: usize = skip_lines_backward(text, body, false);
    if gap > 0 && text.line_is_blank(gap - 1) {
        gap - 1
    } else {
        gap
    }
}

/// Moves or extends `range` by `count` paragraphs towards the end of the
/// text.
pub fn movement_paragraph_forward(
    text: &TextBuffer,
    range: Range,
    count: usize,
    behavior: Movement,
) -> (moved: Range)
    ensures
        moved == paragraph_forward_in(text@, range, count as nat, behavior),
{
    let mut line: usize = range.cursor_line(text);
    let cursor: usize = range.cursor(text);
    let lines: usize = text.len_lines();
    let last_char: bool = text.prev_grapheme_boundary(text.line_to_char(line + 1)) == cursor;
    let next: usize = if line + 1 < lines {
        line + 1
    } else {
        lines - 1
    };
    let boundary: bool = text.line_is_blank(line) && !text.line_is_blank(next) && last_char;
    if boundary {
        line = line + 1;
    }
    let ghost start: int = line as int;
    let mut done: usize = 0;
    while done < count
        invariant
            done <= count,
            0 <= start <= len_lines(text@),
            line == paragraphs_forward(text@, start, done as nat),
            line <= len_lines(text@),
        ensures
            line == paragraphs_forward(text@, start, count as nat),
        decreases count - done,
    {
        let landed: usize = step_forward(text, line);
        if landed == line {
            proof {
                lemma_paragraphs_forward_settled(text@, start, done as nat, count as nat);
            }
            break ;
        }
        line = landed;
        done = done + 1;
    }
    let head: usize = text.line_to_char(line);
    let anchor: usize = match behavior {
        Movement::Move => if boundary {
            range.head
        } else {
            cursor
        },
        Movement::Extend => range.put_cursor(text, head, true).anchor,
    };
    Range::new(anchor, head)
}

/// Moves or extends `range` by `count` paragraphs towards the start of the
/// text.
pub fn movement_paragraph_backward(
    text: &TextBuffer,
    range: Range,
    count: usize,
    behavior: Movement,
) -> (moved: Range)
    ensures
        moved == paragraph_backward_in(text@, range, count as nat, behavior),
{
    let mut line: usize = range.cursor_line(text);
    let cursor: usize = range.cursor(text);
    let first_char: bool = text.line_to_char(line) == cursor;
    let prev: usize = if line > 0 {
        line - 1
    } else {
        0
    };
    let first_line: bool = text.line_is_blank(prev) && !text.line_is_blank(line);
    let lines: usize = text.len_lines();
    if first_line && !first_char && line < lines {
        line = line + 1;
    }
    let ghost start: int = line as int;
    let mut done: usize = 0;
    while done < count
        invariant
            done <= count,
            0 <= start <= len_lines(text@),
            line == paragraphs_backward(text@, start, done as nat),
            line <= len_lines(text@),
        ensures
            line == paragraphs_backward(text@, start, count as nat),
        decreases count - done,
    {
        let landed: usize = step_backward(text, line);
        if landed == line {
            proof {
                lemma_paragraphs_backward_settled(text@, start, done as nat, count as nat);
            }
            break ;
        }
        line = landed;
        done = done + 1;
    }
    let head: usize = text.line_to_char(line);
    let anchor: usize = match behavior {
        Movement::Move => if first_line && first_char {
            range.head
        } else {
            cursor
        },
        Movement::Extend => range.put_cursor(text, head, true).anchor,
    };
    Range::new(anchor, head)
}

} // verus!
