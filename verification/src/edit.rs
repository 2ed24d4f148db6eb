//! Deleting the ranges of a selection from a text in one edit.

use crate::range::Range;
use crate::selection::Selection;
use crate::text::{
    clamp_offset, lemma_line_starts_agree, len_lines, line_starts, TextBuffer,
};
use vstd::prelude::*;

verus! {

/// Whether one of the first `k` ranges of `ranges` covers offset `i`.
pub open spec fn covered_by(ranges: Seq<Range>, k: int, i: int) -> bool {
    exists|j: int| 0 <= j < k && j < ranges.len() && (#[trigger] ranges[j]).from() <= i < ranges[j].to()
}

/// Whether some range of `ranges` covers offset `i`.
pub open spec fn covered(ranges: Seq<Range>, i: int) -> bool {
    covered_by(ranges, ranges.len() as int, i)
}

/// The characters among the first `n` of `s` that no range of `ranges`
/// covers, in their order.
pub open spec fn kept(s: Seq<char>, ranges: Seq<Range>, n: int) -> Seq<char>
    decreases n,
{
    if n <= 0 {
        Seq::empty()
    } else if covered(ranges, n - 1) {
        kept(s, ranges, n - 1)
    } else {
        kept(s, ranges, n - 1).push(s[n - 1])
    }
}

/// The text `s` with every character removed that some range of `ranges`
/// covers. All ranges are read against `s` itself, so overlapping ranges and
/// ranges in any order remove the union of what they cover.
pub open spec fn delete_in(s: Seq<char>, ranges: Seq<Range>) -> Seq<char> {
    kept(s, ranges, s.len() as int)
}

/// Where offset `i` of `s` lies once the ranges are deleted: after as many
/// characters as are kept before it.
pub open spec fn offset_after_delete(s: Seq<char>, ranges: Seq<Range>, i: int) -> int {
    kept(s, ranges, clamp_offset(s, i)).len() as int
}

/// The cursors left by deleting `ranges` from `s`: each range collapsed to
/// the point where its lower end lies afterwards.
pub open spec fn collapsed_after_delete(s: Seq<char>, ranges: Seq<Range>) -> Seq<Range> {
    Seq::new(
        ranges.len(),
        |k: int|
            Range {
                anchor: offset_after_delete(s, ranges, ranges[k].from() as int) as usize,
                head: offset_after_delete(s, ranges, ranges[k].from() as int) as usize,
            },
    )
}

/// No more is kept than there was.
pub proof fn lemma_kept_len(s: Seq<char>, ranges: Seq<Range>, n: int)
    requires
        0 <= n,
    ensures
        kept(s, ranges, n).len() <= n,
    decreases n,
{
    if n > 0 {
        lemma_kept_len(s, ranges, n - 1);
    }
}

/// The number of offsets below `n` that one of the first `k` ranges of
/// `ranges` covers.
pub open spec fn covered_count(ranges: Seq<Range>, k: int, n: int) -> int
    decreases n,
{
    if n <= 0 {
        0
    } else if covered_by(ranges, k, n - 1) {
        covered_count(ranges, k, n - 1) + 1
    } else {
        covered_count(ranges, k, n - 1)
    }
}

/// The lengths of the first `k` ranges of `ranges`, added up.
pub open spec fn total_len(ranges: Seq<Range>, k: int) -> int
    decreases k,
{
    if k <= 0 {
        0
    } else {
        total_len(ranges, k - 1) + (ranges[k - 1].to() - ranges[k - 1].from())
    }
}

/// Whether no two ranges of `ranges` cover a common offset.
pub open spec fn disjoint(ranges: Seq<Range>) -> bool {
    forall|i: int, j: int|
        0 <= i < j < ranges.len() ==> (#[trigger] ranges[i]).to() <= (#[trigger] ranges[j]).from()
            || ranges[j].to() <= ranges[i].from()
}

/// How many offsets below `n` the range covers.
pub open spec fn overlap(range: Range, n: int) -> int {
    let from = if range.from() < n {
        range.from() as int
    } else {
        n
    };
    let to = if range.to() < n {
        range.to() as int
    } else {
        n
    };
    to - from
}

/// What is kept of a prefix and what is covered of it make up the prefix.
pub proof fn lemma_kept_and_covered(s: Seq<char>, ranges: Seq<Range>, n: int)
    requires
        0 <= n,
    ensures
        kept(s, ranges, n).len() + covered_count(ranges, ranges.len() as int, n) == n,
    decreases n,
{
    if n > 0 {
        lemma_kept_and_covered(s, ranges, n - 1);
    }
}

/// One more range that overlaps none of those before it adds what it covers
/// to what they cover.
pub proof fn lemma_covered_count_step(ranges: Seq<Range>, k: int, n: int)
    requires
        0 <= k < ranges.len(),
        0 <= n,
        disjoint(ranges),
    ensures
        covered_count(ranges, k + 1, n) == covered_count(ranges, k, n) + overlap(ranges[k], n),
    decreases n,
{
    if n > 0 {
        lemma_covered_count_step(ranges, k, n - 1);
        let i = n - 1;
        let inside = ranges[k].from() <= i < ranges[k].to();
        if covered_by(ranges, k, i) {
            let j = choose|j: int|
                0 <= j < k && j < ranges.len() && (#[trigger] ranges[j]).from() <= i < ranges[j].to();
            assert(ranges[j].to() <= ranges[k].from() || ranges[k].to() <= ranges[j].from());
            assert(!inside);
            assert(covered_by(ranges, k + 1, i));
        } else if inside {
            assert(covered_by(ranges, k + 1, i));
        } else {
            if covered_by(ranges, k + 1, i) {
                let j = choose|j: int|
                    0 <= j < k + 1 && j < ranges.len() && (#[trigger] ranges[j]).from() <= i
                        < ranges[j].to();
                if j < k {
                    assert(covered_by(ranges, k, i));
                }
            }
        }
    }
}

/// No range covers nothing.
pub proof fn lemma_covered_count_none(ranges: Seq<Range>, n: int)
    ensures
        covered_count(ranges, 0, n) == 0,
    decreases n,
{
    if n > 0 {
        lemma_covered_count_none(ranges, n - 1);
    }
}

/// Ranges that overlap nowhere and lie below `n` cover as many offsets as
/// their lengths add up to.
pub proof fn lemma_covered_count_disjoint(ranges: Seq<Range>, k: int, n: int)
    requires
        0 <= k <= ranges.len(),
        0 <= n,
        disjoint(ranges),
        forall|j: int| 0 <= j < ranges.len() ==> (#[trigger] ranges[j]).to() <= n,
    ensures
        covered_count(ranges, k, n) == total_len(ranges, k),
    decreases k,
{
    if k == 0 {
        lemma_covered_count_none(ranges, n);
    } else {
        lemma_covered_count_disjoint(ranges, k - 1, n);
        lemma_covered_count_step(ranges, k - 1, n);
    }
}

/// Deleting ranges that overlap nowhere and lie within the text shortens it
/// by as much as their lengths add up to.
pub proof fn lemma_delete_len(s: Seq<char>, ranges: Seq<Range>)
    requires
        disjoint(ranges),
        forall|j: int| 0 <= j < ranges.len() ==> (#[trigger] ranges[j]).to() <= s.len(),
    ensures
        delete_in(s, ranges).len() == s.len() - total_len(ranges, ranges.len() as int),
{
    lemma_kept_and_covered(s, ranges, s.len() as int);
    lemma_covered_count_disjoint(ranges, ranges.len() as int, s.len() as int);
}

/// What is kept of a prefix when the one range from `from` to `to` is
/// deleted: the prefix as far as it lies before `from` or after `to`.
pub proof fn lemma_kept_one_range(s: Seq<char>, range: Range, n: int)
    requires
        0 <= n <= s.len(),
    ensures
        kept(s, seq![range], n) == if n <= range.from() {
            s.subrange(0, n)
        } else if n <= range.to() {
            s.subrange(0, range.from() as int)
        } else {
            s.subrange(0, range.from() as int) + s.subrange(range.to() as int, n)
        },
    decreases n,
{
    let ranges = seq![range];
    if n > 0 {
        lemma_kept_one_range(s, range, n - 1);
        if covered(ranges, n - 1) {
            let j = choose|j: int|
                0 <= j < ranges.len() && (#[trigger] ranges[j]).from() <= n - 1 < ranges[j].to();
            assert(ranges[j] == range);
        } else {
            assert(ranges[0] == range);
            assert(!(range.from() <= n - 1 < range.to()));
        }
        let expected = if n <= range.from() {
            s.subrange(0, n)
        } else if n <= range.to() {
            s.subrange(0, range.from() as int)
        } else {
            s.subrange(0, range.from() as int) + s.subrange(range.to() as int, n)
        };
        assert(kept(s, ranges, n) =~= expected);
    } else {
        assert(kept(s, ranges, n) =~= s.subrange(0, n));
    }
}

/// Deleting one range within the text leaves what lies before it followed
/// by what lies after it, with the cursor where the range began.
pub proof fn lemma_delete_one_range(s: Seq<char>, range: Range)
    requires
        range.to() <= s.len(),
    ensures
        delete_in(s, seq![range]) == s.subrange(0, range.from() as int) + s.subrange(
            range.to() as int,
            s.len() as int,
        ),
        collapsed_after_delete(s, seq![range]) == seq![
            Range { anchor: range.from(), head: range.from() },
        ],
{
    lemma_kept_one_range(s, range, s.len() as int);
    lemma_kept_one_range(s, range, range.from() as int);
    assert(collapsed_after_delete(s, seq![range]) =~= seq![
        Range { anchor: range.from(), head: range.from() },
    ]);
    let n = s.len() as int;
    if n <= range.to() {
        assert(s.subrange(0, range.from() as int) =~= s.subrange(0, range.from() as int)
            + s.subrange(range.to() as int, n));
    }
}

/// As long as no terminator is removed, what is kept of a prefix has as many
/// line starts as the prefix.
pub proof fn lemma_kept_line_starts(s: Seq<char>, ranges: Seq<Range>, n: int)
    requires
        0 <= n <= s.len(),
        forall|i: int| 0 <= i < n && covered(ranges, i) ==> s[i] != '\n',
    ensures
        len_lines(kept(s, ranges, n)) == line_starts(s, n).len(),
    decreases n,
{
    if n > 0 {
        lemma_kept_line_starts(s, ranges, n - 1);
        if !covered(ranges, n - 1) {
            let before = kept(s, ranges, n - 1);
            let after = kept(s, ranges, n);
            lemma_line_starts_agree(after, before, before.len() as int);
        }
    }
}

/// Deleting ranges that cover no terminator leaves the number of lines as
/// it was.
pub proof fn lemma_delete_keeps_lines(s: Seq<char>, ranges: Seq<Range>)
    requires
        forall|i: int| 0 <= i < s.len() && covered(ranges, i) ==> s[i] != '\n',
    ensures
        len_lines(delete_in(s, ranges)) == len_lines(s),
{
    lemma_kept_line_starts(s, ranges, s.len() as int);
}

/// Marks in `mask` the offsets below `mask.len()` that `range` covers.
fn mark_range(mask: &mut Vec<bool>, range: Range, Ghost(ranges): Ghost<Seq<Range>>, Ghost(k): Ghost<int>)
    requires
        0 <= k < ranges.len(),
        ranges[k] == range,
        forall|i: int| 0 <= i < old(mask)@.len() ==> #[trigger] old(mask)@[i] == covered_by(ranges, k, i),
    ensures
        final(mask)@.len() == old(mask)@.len(),
        forall|i: int|
            0 <= i < final(mask)@.len() ==> #[trigger] final(mask)@[i] == covered_by(ranges, k + 1, i),
{
    let len: usize = mask.len();
    let from: usize = range.from();
    let to: usize = if range.to() > len {
        len
    } else {
        range.to()
    };
    let mut j: usize = from;
    while j < to
        invariant
            from <= j,
            j <= to || j == from,
            to <= len,
            mask@.len() == len,
            0 <= k < ranges.len(),
            ranges[k] == range,
            from == range.from(),
            to == if range.to() > len {
                len
            } else {
                range.to()
            },
            forall|i: int|
                0 <= i < len ==> #[trigger] mask@[i] == (covered_by(ranges, k, i) || from <= i < j),
        decreases to - j,
    {
        mask.set(j, true);
        j = j + 1;
    }
    assert forall|i: int| 0 <= i < mask@.len() implies #[trigger] mask@[i] == covered_by(
        ranges,
        k + 1,
        i,
    ) by {
        if covered_by(ranges, k + 1, i) {
            let w = choose|w: int|
                0 <= w < k + 1 && w < ranges.len() && (#[trigger] ranges[w]).from() <= i < ranges[w].to();
            if w < k {
                assert(covered_by(ranges, k, i));
            }
        }
        if mask@[i] && !covered_by(ranges, k, i) {
            assert(ranges[k].from() <= i < ranges[k].to());
        }
    }
}

/// For every offset of a text of `len` characters, whether some range of
/// `selection` covers it.
fn coverage(selection: &Selection, len: usize) -> (mask: Vec<bool>)
    ensures
        mask@.len() == len,
        forall|i: int| 0 <= i < len ==> #[trigger] mask@[i] == covered(selection@, i),
{
    let mut mask: Vec<bool> = Vec::new();
    let mut n: usize = 0;
    while n < len
        invariant
            n <= len,
            mask@.len() == n,
            forall|i: int| 0 <= i < n ==> #[trigger] mask@[i] == covered_by(selection@, 0, i),
        decreases len - n,
    {
        mask.push(false);
        n = n + 1;
    }
    let ranges: &Vec<Range> = selection.ranges();
    let mut k: usize = 0;
    while k < ranges.len()
        invariant
            k <= ranges@.len(),
            ranges@ == selection@,
            mask@.len() == len,
            forall|i: int| 0 <= i < len ==> #[trigger] mask@[i] == covered_by(selection@, k as int, i),
        decreases ranges@.len() - k,
    {
        mark_range(&mut mask, ranges[k], Ghost(selection@), Ghost(k as int));
        k = k + 1;
    }
    mask
}

/// Deletes from `text` every character that some range of `selection`
/// covers, in one edit, and collapses each range to the point where its
/// lower end lies afterwards.
pub fn delete_ranges(text: &TextBuffer, selection: &Selection) -> (out: (TextBuffer, Selection))
    ensures
        out.0@ == delete_in(text@, selection@),
        out.1@ == collapsed_after_delete(text@, selection@),
{
    let chars: &Vec<char> = text.chars();
    let len: usize = chars.len();
    let mask: Vec<bool> = coverage(selection, len);
    let mut rest: Vec<char> = Vec::new();
    let mut before: Vec<usize> = Vec::new();
    before.push(0);
    let mut i: usize = 0;
    while i < len
        invariant
            i <= len,
            len == chars@.len(),
            chars@ == text@,
            mask@.len() == len,
            forall|p: int| 0 <= p < len ==> #[trigger] mask@[p] == covered(selection@, p),
            rest@ == kept(text@, selection@, i as int),
            before@.len() == i + 1,
            forall|p: int|
                0 <= p <= i ==> #[trigger] before@[p] as int == kept(text@, selection@, p).len(),
        decreases len - i,
    {
        if !mask[i] {
            rest.push(chars[i]);
        }
        proof {
            lemma_kept_len(text@, selection@, i as int + 1);
        }
        before.push(rest.len());
        i = i + 1;
    }
    let ranges: &Vec<Range> = selection.ranges();
    let mut cursors: Vec<Range> = Vec::new();
    let mut k: usize = 0;
    while k < ranges.len()
        invariant
            k <= ranges@.len(),
            ranges@ == selection@,
            len == text@.len(),
            before@.len() == len + 1,
            forall|p: int|
                0 <= p <= len ==> #[trigger] before@[p] as int == kept(text@, selection@, p).len(),
            cursors@.len() == k,
            forall|j: int|
                0 <= j < k ==> #[trigger] cursors@[j] == collapsed_after_delete(text@, selection@)[j],
        decreases ranges@.len() - k,
    {
        let from: usize = ranges[k].from();
        let at: usize = if from > len {
            len
        } else {
            from
        };
        cursors.push(Range::point(before[at]));
        k = k + 1;
    }
    assert(cursors@ == collapsed_after_delete(text@, selection@));
    (TextBuffer::new(rest), Selection::new(cursors))
}

} // verus!
