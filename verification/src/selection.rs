//! A selection: one range per cursor, in a fixed order.

use crate::range::Range;
use crate::text::{fragment, TextBuffer};
use vstd::prelude::*;

verus! {

/// The ranges of all cursors. There is always at least one, and a transform
/// keeps their number and their order.
pub struct Selection {
    ranges: Vec<Range>,
}

impl View for Selection {
    type V = Seq<Range>;

    closed spec fn view(&self) -> Seq<Range> {
        self.ranges@
    }
}

/// The text that each range of `ranges` covers in `s`, in the order of the
/// ranges.
pub open spec fn fragments_of(s: Seq<char>, ranges: Seq<Range>) -> Seq<Seq<char>> {
    Seq::new(ranges.len(), |i: int| fragment(s, ranges[i].from() as int, ranges[i].to() as int))
}

/// Whether some range of `ranges` covers at least one position.
pub open spec fn has_extent(ranges: Seq<Range>) -> bool {
    exists|i: int| 0 <= i < ranges.len() && !(#[trigger] ranges[i]).is_empty()
}

/// Whether `result` is what `f` returns for `source` in `text`, pointed the
/// way `source` points.
pub open spec fn transformed_by<F: Fn(&TextBuffer, Range) -> Range>(
    f: F,
    text: &TextBuffer,
    source: Range,
    result: Range,
) -> bool {
    exists|r: Range|
        call_ensures(f, (text, source), r) && result == #[trigger] r.with_direction(
            source.direction(),
        )
}

impl Selection {
    #[verifier::type_invariant]
    spec fn well_formed(self) -> bool {
        self.ranges@.len() >= 1
    }

    /// The selection made of `ranges`, in their order.
    pub fn new(ranges: Vec<Range>) -> (selection: Selection)
        requires
            ranges@.len() >= 1,
        ensures
            selection@ == ranges@,
    {
        Selection { ranges }
    }

    /// The selection made of `ranges`, in their order, if there is at least
    /// one range.
    pub fn try_new(ranges: Vec<Range>) -> (selection: Option<Selection>)
        ensures
            match selection {
                Some(made) => ranges@.len() >= 1 && made@ == ranges@,
                None => ranges@.len() == 0,
            },
    {
        if ranges.len() == 0 {
            None
        } else {
            Some(Selection { ranges })
        }
    }

    /// The selection of the one range from `anchor` to `head`.
    pub fn single(anchor: usize, head: usize) -> (selection: Selection)
        ensures
            selection@ == seq![Range { anchor, head }],
    {
        let mut ranges: Vec<Range> = Vec::new();
        ranges.push(Range::new(anchor, head));
        Selection { ranges }
    }

    /// The selection of the one point at `pos`.
    pub fn point(pos: usize) -> (selection: Selection)
        ensures
            selection@ == seq![Range { anchor: pos, head: pos }],
    {
        Selection::single(pos, pos)
    }

    /// The number of ranges, at least one.
    pub fn len(&self) -> (n: usize)
        ensures
            n == self@.len(),
            n >= 1,
    {
        proof {
            use_type_invariant(self);
        }
        self.ranges.len()
    }

    /// The ranges, in order.
    pub fn ranges(&self) -> (ranges: &Vec<Range>)
        ensures
            ranges@ == self@,
            ranges@.len() >= 1,
    {
        proof {
            use_type_invariant(self);
        }
        &self.ranges
    }

    /// The range at position `i`, if there is one.
    pub fn get(&self, i: usize) -> (range: Option<Range>)
        ensures
            range == if i < self@.len() {
                Some(self@[i as int])
            } else {
                None
            },
    {
        if i < self.ranges.len() {
            Some(self.ranges[i])
        } else {
            None
        }
    }

    /// A copy of the selection.
    pub fn duplicate(&self) -> (copy: Selection)
        ensures
            copy@ == self@,
    {
        proof {
            use_type_invariant(self);
        }
        let mut ranges: Vec<Range> = Vec::new();
        let mut i: usize = 0;
        while i < self.ranges.len()
            invariant
                i <= self.ranges@.len(),
                ranges@ == self.ranges@.subrange(0, i as int),
            decreases self.ranges@.len() - i,
        {
            ranges.push(self.ranges[i]);
            i = i + 1;
        }
        assert(ranges@ == self.ranges@);
        Selection { ranges }
    }

    /// Whether some range covers at least one position.
    pub fn is_extended(&self) -> (extended: bool)
        ensures
            extended == has_extent(self@),
    {
        let mut i: usize = 0;
        while i < self.ranges.len()
            invariant
                i <= self.ranges@.len(),
                forall|k: int| 0 <= k < i ==> (#[trigger] self.ranges@[k]).is_empty(),
            decreases self.ranges@.len() - i,
        {
            if !self.ranges[i].is_empty() {
                return true;
            }
            i = i + 1;
        }
        false
    }

    /// Applies `f` to every range, in order, and points each result the way
    /// the range it came from pointed. The result has as many ranges as the
    /// selection, and its range `i` comes from range `i`.
    pub fn transform<F: Fn(&TextBuffer, Range) -> Range>(&self, text: &TextBuffer, f: F) -> (out:
        Selection)
        requires
            forall|i: int| 0 <= i < self@.len() ==> call_requires(f, (text, #[trigger] self@[i])),
        ensures
            out@.len() == self@.len(),
            forall|i: int| 0 <= i < self@.len() ==> transformed_by(f, text, self@[i], #[trigger] out@[i]),
    {
        proof {
            use_type_invariant(self);
        }
        let mut ranges: Vec<Range> = Vec::new();
        let mut i: usize = 0;
        while i < self.ranges.len()
            invariant
                i <= self@.len(),
                self@ == self.ranges@,
                ranges@.len() == i,
                forall|k: int| 0 <= k < self@.len() ==> call_requires(f, (text, #[trigger] self@[k])),
                forall|k: int| 0 <= k < i ==> transformed_by(f, text, self@[k], #[trigger] ranges@[k]),
            decreases self@.len() - i,
        {
            let range: Range = self.ranges[i];
            assert(range == self@[i as int]);
            let found: Range = f(text, range);
            ranges.push(found.with_direction(range.direction()));
            i = i + 1;
        }
        Selection { ranges }
    }

    /// The text that each range covers, in the order of the ranges.
    pub fn fragments(&self, text: &TextBuffer) -> (out: Vec<Vec<char>>)
        ensures
            out@.len() == self@.len(),
            forall|i: int| 0 <= i < self@.len() ==> (#[trigger] out@[i])@ == fragments_of(text@, self@)[i],
    {
        let mut out: Vec<Vec<char>> = Vec::new();
        let mut i: usize = 0;
        while i < self.ranges.len()
            invariant
                i <= self.ranges@.len(),
                out@.len() == i,
                forall|k: int|
                    0 <= k < i ==> (#[trigger] out@[k])@ == fragments_of(text@, self.ranges@)[k],
            decreases self.ranges@.len() - i,
        {
            let range: Range = self.ranges[i];
            out.push(text.slice(range.from(), range.to()));
            i = i + 1;
        }
        out
    }
}

} // verus!
