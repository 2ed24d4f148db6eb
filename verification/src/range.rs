//! A cursor with an extent: the pair of an anchor and a head.

use crate::text::{
    char_to_line, lemma_char_to_line_monotonic, len_lines, next_boundary, prev_boundary, TextBuffer,
};
use vstd::prelude::*;

verus! {

/// Which way a range points.
#[derive(Clone, Copy, Debug, PartialEq, Eq, Structural)]
pub enum Direction {
    /// The anchor does not lie after the head.
    Forward,
    /// The head lies before the anchor.
    Backward,
}

/// Whether a motion carries the anchor along or leaves it in place.
#[derive(Clone, Copy, Debug, PartialEq, Eq, Structural)]
pub enum Movement {
    /// The selection grows or shrinks: the anchor is kept where it can be.
    Extend,
    /// The cursor moves: the anchor follows it.
    Move,
}

/// A range of character offsets. `head` is where the cursor is, `anchor` the
/// other end. With `anchor == head` the range is a single point.
#[derive(Clone, Copy, Debug, PartialEq, Eq, Structural)]
pub struct Range {
    pub anchor: usize,
    pub head: usize,
}

impl Range {
    /// The range from `anchor` to `head`.
    pub fn new(anchor: usize, head: usize) -> (r: Range)
        ensures
            r == (Range { anchor, head }),
    {
        Range { anchor, head }
    }

    /// The single point at `head`.
    pub fn point(head: usize) -> (r: Range)
        ensures
            r == (Range { anchor: head, head }),
    {
        Range { anchor: head, head }
    }

    pub open spec fn spec_from(&self) -> usize {
        if self.anchor <= self.head {
            self.anchor
        } else {
            self.head
        }
    }

    /// The lower end.
    #[verifier::when_used_as_spec(spec_from)]
    pub fn from(&self) -> (r: usize)
        ensures
            r == self.spec_from(),
    {
        if self.anchor <= self.head {
            self.anchor
        } else {
            self.head
        }
    }

    pub open spec fn spec_to(&self) -> usize {
        if self.anchor <= self.head {
            self.head
        } else {
            self.anchor
        }
    }

    /// The upper end.
    #[verifier::when_used_as_spec(spec_to)]
    pub fn to(&self) -> (r: usize)
        ensures
            r == self.spec_to(),
    {
        if self.anchor <= self.head {
            self.head
        } else {
            self.anchor
        }
    }

    pub open spec fn spec_is_empty(&self) -> bool {
        self.anchor == self.head
    }

    /// Whether the range is a single point.
    #[verifier::when_used_as_spec(spec_is_empty)]
    pub fn is_empty(&self) -> (r: bool)
        ensures
            r == self.spec_is_empty(),
    {
        self.anchor == self.head
    }

    pub open spec fn spec_direction(&self) -> Direction {
        if self.head < self.anchor {
            Direction::Backward
        } else {
            Direction::Forward
        }
    }

    /// The way the range points; a point counts as forward.
    #[verifier::when_used_as_spec(spec_direction)]
    pub fn direction(&self) -> (d: Direction)
        ensures
            d == self.spec_direction(),
    {
        if self.head < self.anchor {
            Direction::Backward
        } else {
            Direction::Forward
        }
    }

    pub open spec fn spec_flip(&self) -> Range {
        Range { anchor: self.head, head: self.anchor }
    }

    /// The same extent with anchor and head exchanged.
    #[verifier::when_used_as_spec(spec_flip)]
    pub fn flip(&self) -> (r: Range)
        ensures
            r == self.spec_flip(),
    {
        Range { anchor: self.head, head: self.anchor }
    }

    pub open spec fn spec_with_direction(&self, direction: Direction) -> Range {
        if self.spec_direction() == direction {
            *self
        } else {
            self.spec_flip()
        }
    }

    /// The same extent, pointing the way `direction` says.
    #[verifier::when_used_as_spec(spec_with_direction)]
    pub fn with_direction(&self, direction: Direction) -> (r: Range)
        ensures
            r == self.spec_with_direction(direction),
    {
        if self.direction() == direction {
            *self
        } else {
            self.flip()
        }
    }

    /// The offset of the character under the cursor: the head, or for a
    /// forward range with an extent the position before the head.
    pub open spec fn cursor_in(self, s: Seq<char>) -> int {
        if self.head > self.anchor {
            prev_boundary(s, self.head as int)
        } else {
            self.head as int
        }
    }

    /// The offset of the character under the cursor.
    pub fn cursor(&self, text: &TextBuffer) -> (pos: usize)
        ensures
            pos == self.cursor_in(text@),
    {
        if self.head > self.anchor {
            text.prev_grapheme_boundary(self.head)
        } else {
            self.head
        }
    }

    /// The line of the character under the cursor.
    pub open spec fn cursor_line_in(self, s: Seq<char>) -> int {
        char_to_line(s, self.cursor_in(s))
    }

    /// The line of the character under the cursor.
    pub fn cursor_line(&self, text: &TextBuffer) -> (line: usize)
        ensures
            line == self.cursor_line_in(text@),
            line < len_lines(text@),
    {
        text.char_to_line(self.cursor(text))
    }

    /// The offset of the last character that the range covers; for a point,
    /// the point itself.
    pub open spec fn last_covered_in(self, s: Seq<char>) -> int {
        if self.spec_is_empty() {
            self.spec_to() as int
        } else if prev_boundary(s, self.spec_to() as int) >= self.spec_from() {
            prev_boundary(s, self.spec_to() as int)
        } else {
            self.spec_from() as int
        }
    }

    /// The first and the last line that the range touches.
    pub open spec fn line_range_in(self, s: Seq<char>) -> (int, int) {
        (char_to_line(s, self.spec_from() as int), char_to_line(s, self.last_covered_in(s)))
    }

    /// The first and the last line that the range touches.
    pub fn line_range(&self, text: &TextBuffer) -> (lines: (usize, usize))
        ensures
            lines.0 == self.line_range_in(text@).0,
            lines.1 == self.line_range_in(text@).1,
            lines.0 <= lines.1 < len_lines(text@),
    {
        let from: usize = self.from();
        let to: usize = if self.is_empty() {
            self.to()
        } else {
            let before: usize = text.prev_grapheme_boundary(self.to());
            if before >= from {
                before
            } else {
                from
            }
        };
        proof {
            lemma_char_to_line_monotonic(text@, from as int, to as int);
        }
        (text.char_to_line(from), text.char_to_line(to))
    }

    /// Where the anchor stands once the cursor of an extending range is put
    /// on offset `pos`: it stays, unless the cursor crosses it, in which case
    /// it steps over the character that it stood beside.
    pub open spec fn extended_anchor_in(self, s: Seq<char>, pos: int) -> int {
        if self.head >= self.anchor && pos < self.anchor {
            next_boundary(s, self.anchor as int)
        } else if self.head < self.anchor && pos >= self.anchor {
            prev_boundary(s, self.anchor as int)
        } else {
            self.anchor as int
        }
    }

    /// The range with its cursor on offset `pos`. When extending, the anchor
    /// is `extended_anchor_in`, and a head at or after it lies one position
    /// past `pos`, so that the character at `pos` is covered.
    pub open spec fn put_cursor_in(self, s: Seq<char>, pos: int, extend: bool) -> Range {
        if extend {
            let anchor = self.extended_anchor_in(s, pos);
            if anchor <= pos {
                Range { anchor: anchor as usize, head: next_boundary(s, pos) as usize }
            } else {
                Range { anchor: anchor as usize, head: pos as usize }
            }
        } else {
            Range { anchor: pos as usize, head: pos as usize }
        }
    }

    /// The range with its cursor on offset `pos`, extending from the anchor
    /// or collapsed to a point.
    pub fn put_cursor(&self, text: &TextBuffer, pos: usize, extend: bool) -> (r: Range)
        ensures
            r == self.put_cursor_in(text@, pos as int, extend),
    {
        if extend {
            let anchor: usize = if self.head >= self.anchor && pos < self.anchor {
                text.next_grapheme_boundary(self.anchor)
            } else if self.head < self.anchor && pos >= self.anchor {
                text.prev_grapheme_boundary(self.anchor)
            } else {
                self.anchor
            };
            if anchor <= pos {
                Range::new(anchor, text.next_grapheme_boundary(pos))
            } else {
                Range::new(anchor, pos)
            }
        } else {
            Range::point(pos)
        }
    }
}

} // verus!
