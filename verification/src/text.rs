//! The text buffer: a sequence of characters with a table of line starts.
//!
//! Offsets count characters. A line ends with its terminator, which belongs
//! to it: a `'\n'`, alone or as the second character of `"\r\n"`. What follows
//! the last terminator is the last line, which may be empty. A cursor can
//! stand on every character, except that `"\r\n"` is one position: a step
//! over it takes both characters.

use vstd::prelude::*;

verus! {

/// The offsets at which lines start, looking only at the first `n` characters
/// of `s`: offset 0, and the offset after every `'\n'` among them.
pub open spec fn line_starts(s: Seq<char>, n: int) -> Seq<int>
    decreases n,
{
    if n <= 0 {
        seq![0int]
    } else if s[n - 1] == '\n' {
        line_starts(s, n - 1).push(n)
    } else {
        line_starts(s, n - 1)
    }
}

/// `i` limited to the offsets of `s`, the end included.
pub open spec fn clamp_offset(s: Seq<char>, i: int) -> int {
    if i < 0 {
        0
    } else if i > s.len() {
        s.len() as int
    } else {
        i
    }
}

/// The number of lines of `s`. A text that ends in `'\n'` has an empty last
/// line, and the empty text has one line.
pub open spec fn len_lines(s: Seq<char>) -> int {
    line_starts(s, s.len() as int).len() as int
}

/// The offset at which line `line` starts; the length of `s` for a line
/// index past the last line.
pub open spec fn line_to_char(s: Seq<char>, line: int) -> int {
    if 0 <= line < len_lines(s) {
        line_starts(s, s.len() as int)[line]
    } else {
        s.len() as int
    }
}

/// The index of the line that holds offset `i`, after clamping `i` to `s`.
pub open spec fn char_to_line(s: Seq<char>, i: int) -> int {
    line_starts(s, clamp_offset(s, i)).len() - 1
}

/// The number of characters of the terminator of line `line`: two for
/// `"\r\n"`, one for a `'\n'` alone, none for the last line and beyond.
pub open spec fn terminator_len(s: Seq<char>, line: int) -> int {
    if 0 <= line < len_lines(s) - 1 {
        let next = line_to_char(s, line + 1);
        if next - 2 >= line_to_char(s, line) && s[next - 2] == '\r' {
            2
        } else {
            1
        }
    } else {
        0
    }
}

/// The offset at which the content of line `line` ends: the offset of its
/// terminator, or the length of `s` for the last line and beyond.
pub open spec fn line_end(s: Seq<char>, line: int) -> int {
    line_to_char(s, line + 1) - terminator_len(s, line)
}

/// A line is blank when it holds no character besides its terminator.
pub open spec fn line_is_blank(s: Seq<char>, line: int) -> bool {
    line_end(s, line) == line_to_char(s, line)
}

/// The offset one position before `i`, staying inside `s`: one character
/// back, or two where those two are `"\r\n"`.
pub open spec fn prev_boundary(s: Seq<char>, i: int) -> int {
    let at = clamp_offset(s, i);
    if at == 0 {
        0
    } else if at >= 2 && s[at - 1] == '\n' && s[at - 2] == '\r' {
        at - 2
    } else {
        at - 1
    }
}

/// The offset one position after `i`, staying inside `s`: one character on,
/// or two where those two are `"\r\n"`.
pub open spec fn next_boundary(s: Seq<char>, i: int) -> int {
    let at = clamp_offset(s, i);
    if at >= s.len() {
        s.len() as int
    } else if at + 1 < s.len() && s[at] == '\r' && s[at + 1] == '\n' {
        at + 2
    } else {
        at + 1
    }
}

/// The characters of `s` from offset `from` up to offset `to`, both clamped
/// to `s`; empty when `to` does not lie after `from`.
pub open spec fn fragment(s: Seq<char>, from: int, to: int) -> Seq<char> {
    let a = clamp_offset(s, from);
    let b = clamp_offset(s, to);
    if a <= b {
        s.subrange(a, b)
    } else {
        Seq::empty()
    }
}

/// What holds of the line starts found in a prefix of `s`.
pub proof fn lemma_line_starts(s: Seq<char>, n: int)
    requires
        0 <= n <= s.len(),
    ensures
        1 <= line_starts(s, n).len() <= n + 1,
        line_starts(s, n)[0] == 0,
        forall|k: int| 0 <= k < line_starts(s, n).len() ==> 0 <= #[trigger] line_starts(s, n)[k] <= n,
        forall|j: int, k: int|
            0 <= j < k < line_starts(s, n).len() ==> #[trigger] line_starts(s, n)[j] < #[trigger] line_starts(s, n)[k],
        forall|k: int|
            1 <= k < line_starts(s, n).len() ==> s[#[trigger] line_starts(s, n)[k] - 1] == '\n',
    decreases n,
{
    if n > 0 {
        lemma_line_starts(s, n - 1);
    }
}

/// The line starts of a shorter prefix open those of a longer one, and every
/// later start lies beyond the shorter prefix.
pub proof fn lemma_line_starts_prefix(s: Seq<char>, m: int, n: int)
    requires
        0 <= m <= n <= s.len(),
    ensures
        line_starts(s, m).len() <= line_starts(s, n).len(),
        forall|k: int| 0 <= k < line_starts(s, m).len() ==> #[trigger] line_starts(s, n)[k] == line_starts(s, m)[k],
        forall|k: int|
            line_starts(s, m).len() <= k < line_starts(s, n).len() ==> m < #[trigger] line_starts(s, n)[k],
    decreases n - m,
{
    if m < n {
        lemma_line_starts_prefix(s, m, n - 1);
    }
}

/// Line `char_to_line(s, i)` is the one line that starts at or before `i` and
/// whose successor, if there is one, starts after `i`.
pub proof fn lemma_char_to_line(s: Seq<char>, i: int)
    requires
        0 <= i <= s.len(),
    ensures
        0 <= char_to_line(s, i) < len_lines(s),
        line_to_char(s, char_to_line(s, i)) <= i,
        char_to_line(s, i) + 1 < len_lines(s) ==> i < line_to_char(s, char_to_line(s, i) + 1),
        forall|l: int|
            0 <= l < len_lines(s) && #[trigger] line_to_char(s, l) <= i && (l + 1 < len_lines(s) ==> i
                < line_to_char(s, l + 1)) ==> l == char_to_line(s, i),
{
    let n = s.len() as int;
    lemma_line_starts(s, i);
    lemma_line_starts(s, n);
    lemma_line_starts_prefix(s, i, n);
}

/// Lines start in the order of their indices.
pub proof fn lemma_line_to_char_monotonic(s: Seq<char>, low: int, high: int)
    requires
        0 <= low <= high,
    ensures
        0 <= line_to_char(s, low) <= line_to_char(s, high) <= s.len(),
{
    lemma_line_starts(s, s.len() as int);
}

/// The start of a line lies on that line.
pub proof fn lemma_line_start_on_line(s: Seq<char>, line: int)
    requires
        0 <= line < len_lines(s),
    ensures
        char_to_line(s, line_to_char(s, line)) == line,
{
    lemma_line_starts(s, s.len() as int);
    lemma_char_to_line(s, line_to_char(s, line));
}

/// The line starts within a prefix depend on that prefix alone.
pub proof fn lemma_line_starts_agree(s: Seq<char>, t: Seq<char>, n: int)
    requires
        0 <= n <= s.len(),
        n <= t.len(),
        forall|i: int| 0 <= i < n ==> s[i] == t[i],
    ensures
        line_starts(s, n) == line_starts(t, n),
    decreases n,
{
    if n > 0 {
        lemma_line_starts_agree(s, t, n - 1);
    }
}

/// The content of a line holds no terminator.
pub proof fn lemma_line_content(s: Seq<char>, line: int, i: int)
    requires
        0 <= line < len_lines(s),
        line_to_char(s, line) <= i < line_end(s, line),
    ensures
        0 <= i < s.len(),
        s[i] != '\n',
{
    let n = s.len() as int;
    lemma_line_starts(s, n);
    if s[i] == '\n' {
        lemma_line_starts_prefix(s, i + 1, n);
        lemma_line_starts_prefix(s, i, i + 1);
        lemma_line_starts(s, i);
        let k = line_starts(s, i).len() as int;
        assert(line_starts(s, i + 1)[k] == i + 1);
        assert(line_starts(s, n)[k] == i + 1);
        if k <= line {
            assert(line_starts(s, n)[k] <= line_starts(s, n)[line]);
        } else if line + 1 < len_lines(s) {
            assert(line_starts(s, n)[line + 1] <= line_starts(s, n)[k]);
        }
    }
}

/// A later offset does not lie on an earlier line.
pub proof fn lemma_char_to_line_monotonic(s: Seq<char>, i: int, j: int)
    requires
        i <= j,
    ensures
        0 <= char_to_line(s, i) <= char_to_line(s, j) < len_lines(s),
{
    let a = clamp_offset(s, i);
    let b = clamp_offset(s, j);
    lemma_line_starts(s, a);
    lemma_line_starts_prefix(s, a, b);
    lemma_line_starts_prefix(s, b, s.len() as int);
}

/// A text buffer: its characters, and the offset at which each line starts.
pub struct TextBuffer {
    chars: Vec<char>,
    starts: Vec<usize>,
}

impl View for TextBuffer {
    type V = Seq<char>;

    closed spec fn view(&self) -> Seq<char> {
        self.chars@
    }
}

impl TextBuffer {
    #[verifier::type_invariant]
    spec fn well_formed(self) -> bool {
        &&& self.starts@.len() == len_lines(self.chars@)
        &&& forall|k: int|
            0 <= k < self.starts@.len() ==> #[trigger] self.starts@[k] as int == line_starts(
                self.chars@,
                self.chars@.len() as int,
            )[k]
    }

    /// Builds the buffer that holds `chars`, indexing its lines.
    pub fn new(chars: Vec<char>) -> (text: TextBuffer)
        ensures
            text@ == chars@,
    {
        let mut starts: Vec<usize> = Vec::new();
        starts.push(0);
        let mut i: usize = 0;
        while i < chars.len()
            invariant
                i <= chars.len(),
                starts@.len() == line_starts(chars@, i as int).len(),
                forall|k: int|
                    0 <= k < starts@.len() ==> #[trigger] starts@[k] as int == line_starts(
                        chars@,
                        i as int,
                    )[k],
            decreases chars.len() - i,
        {
            if chars[i] == '\n' {
                starts.push(i + 1);
            }
            i = i + 1;
        }
        TextBuffer { chars, starts }
    }

    /// The characters, in order.
    pub fn chars(&self) -> (chars: &Vec<char>)
        ensures
            chars@ == self@,
    {
        &self.chars
    }

    /// The number of characters.
    pub fn len_chars(&self) -> (n: usize)
        ensures
            n == self@.len(),
    {
        self.chars.len()
    }

    /// The number of lines, at least one.
    pub fn len_lines(&self) -> (n: usize)
        ensures
            n == len_lines(self@),
            n >= 1,
    {
        proof {
            use_type_invariant(self);
            lemma_line_starts(self.chars@, self.chars@.len() as int);
        }
        self.starts.len()
    }

    /// The character at offset `i`, if there is one.
    pub fn get_char(&self, i: usize) -> (c: Option<char>)
        ensures
            c == if i < self@.len() {
                Some(self@[i as int])
            } else {
                None
            },
    {
        if i < self.chars.len() {
            Some(self.chars[i])
        } else {
            None
        }
    }

    /// The offset at which line `line` starts; the length of the text for a
    /// line index past the last line.
    pub fn line_to_char(&self, line: usize) -> (offset: usize)
        ensures
            offset == line_to_char(self@, line as int),
            offset <= self@.len(),
    {
        proof {
            use_type_invariant(self);
            lemma_line_starts(self.chars@, self.chars@.len() as int);
        }
        if line < self.starts.len() {
            self.starts[line]
        } else {
            self.chars.len()
        }
    }

    /// The index of the line that holds offset `i`; an offset past the end
    /// counts as the end.
    pub fn char_to_line(&self, i: usize) -> (line: usize)
        ensures
            line == char_to_line(self@, i as int),
            line < len_lines(self@),
    {
        let pos: usize = if i > self.chars.len() {
            self.chars.len()
        } else {
            i
        };
        proof {
            use_type_invariant(self);
            lemma_char_to_line(self.chars@, pos as int);
        }
        let mut lo: usize = 0;
        let mut hi: usize = self.starts.len();
        while hi - lo > 1
            invariant
                0 <= lo < hi <= self.starts@.len(),
                self.starts@.len() == len_lines(self.chars@),
                lo <= char_to_line(self.chars@, pos as int) < hi,
                pos <= self.chars@.len(),
                forall|k: int|
                    0 <= k < self.starts@.len() ==> #[trigger] self.starts@[k] as int == line_starts(
                        self.chars@,
                        self.chars@.len() as int,
                    )[k],
            decreases hi - lo,
        {
            let mid: usize = lo + (hi - lo) / 2;
            proof {
                lemma_line_starts(self.chars@, self.chars@.len() as int);
                lemma_char_to_line(self.chars@, pos as int);
            }
            if self.starts[mid] <= pos {
                lo = mid;
            } else {
                hi = mid;
            }
        }
        lo
    }

    /// The offset at which the content of line `line` ends, its terminator
    /// left out.
    pub fn line_end_char_index(&self, line: usize) -> (offset: usize)
        ensures
            offset == line_end(self@, line as int),
            line_to_char(self@, line as int) <= offset <= self@.len(),
    {
        proof {
            use_type_invariant(self);
            lemma_line_starts(self.chars@, self.chars@.len() as int);
        }
        if line < self.starts.len() - 1 {
            let start: usize = self.starts[line];
            let next: usize = self.starts[line + 1];
            if next - start >= 2 && self.chars[next - 2] == '\r' {
                next - 2
            } else {
                next - 1
            }
        } else {
            self.chars.len()
        }
    }

    /// Whether line `line` holds nothing besides its terminator.
    pub fn line_is_blank(&self, line: usize) -> (blank: bool)
        ensures
            blank == line_is_blank(self@, line as int),
    {
        self.line_end_char_index(line) == self.line_to_char(line)
    }

    /// The offset one position before `i`, staying inside the text.
    pub fn prev_grapheme_boundary(&self, i: usize) -> (offset: usize)
        ensures
            offset == prev_boundary(self@, i as int),
            offset <= self@.len(),
    {
        let pos: usize = if i > self.chars.len() {
            self.chars.len()
        } else {
            i
        };
        if pos == 0 {
            0
        } else if pos >= 2 && self.chars[pos - 1] == '\n' && self.chars[pos - 2] == '\r' {
            pos - 2
        } else {
            pos - 1
        }
    }

    /// The offset one position after `i`, staying inside the text.
    pub fn next_grapheme_boundary(&self, i: usize) -> (offset: usize)
        ensures
            offset == next_boundary(self@, i as int),
            offset <= self@.len(),
    {
        let len: usize = self.chars.len();
        if i >= len {
            len
        } else if len - i >= 2 && self.chars[i] == '\r' && self.chars[i + 1] == '\n' {
            i + 2
        } else {
            i + 1
        }
    }

    /// The characters from offset `from` up to offset `to`.
    pub fn slice(&self, from: usize, to: usize) -> (out: Vec<char>)
        ensures
            out@ == fragment(self@, from as int, to as int),
    {
        let len: usize = self.chars.len();
        let a: usize = if from > len {
            len
        } else {
            from
        };
        let b: usize = if to > len {
            len
        } else {
            to
        };
        let mut out: Vec<char> = Vec::new();
        let mut i: usize = a;
        while i < b
            invariant
                a <= i,
                a <= b ==> i <= b,
                b <= self.chars@.len(),
                a <= b ==> out@ == self.chars@.subrange(a as int, i as int),
                a > b ==> out@ == Seq::<char>::empty(),
            decreases b - i,
        {
            out.push(self.chars[i]);
            i = i + 1;
        }
        out
    }
}

} // verus!
