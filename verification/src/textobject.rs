//! Text objects: the scopes that a key names once an operator waits for one.

use crate::range::Range;
use crate::selection::Selection;
use crate::text::{line_to_char, TextBuffer};
use vstd::prelude::*;

verus! {

/// Whether an object is taken with what delimits it or without.
#[derive(Clone, Copy, Debug, PartialEq, Eq, Structural)]
pub enum ObjectKind {
    /// The interior of the object, its delimiters left out.
    Inside,
    /// The object together with its delimiters.
    Around,
}

/// The objects that a key can name.
#[derive(Clone, Copy, Debug, PartialEq, Eq, Structural)]
pub enum TextObject {
    /// `w`: a word.
    Word,
    /// `W`: a run of characters between white space.
    LongWord,
    /// `t`: a type definition of the syntax tree.
    Class,
    /// `f`: a function of the syntax tree.
    Function,
    /// `a`: a parameter of the syntax tree.
    Parameter,
    /// `c`: a comment of the syntax tree.
    Comment,
    /// `T`: a test of the syntax tree.
    Test,
    /// `e`: an entry of a data structure of the syntax tree.
    Entry,
    /// `p`: a paragraph.
    Paragraph,
    /// `m`: the closest pair of matching delimiters around the cursor.
    ClosestPair,
    /// `g`: the changed lines around the cursor.
    Change,
    /// Any character that is no ASCII letter or digit: the closest pair of
    /// that character, or of the bracket it belongs to, around the cursor.
    Pair(char),
}

/// Whether `ch` is an ASCII letter or digit.
pub open spec fn is_ascii_alphanumeric(ch: char) -> bool {
    ||| '0' <= ch <= '9'
    ||| 'a' <= ch <= 'z'
    ||| 'A' <= ch <= 'Z'
}

/// The object that key `ch` names, if it names one. The letters and digits
/// that are not listed name none.
pub open spec fn object_for_key(ch: char) -> Option<TextObject> {
    if ch == 'w' {
        Some(TextObject::Word)
    } else if ch == 'W' {
        Some(TextObject::LongWord)
    } else if ch == 't' {
        Some(TextObject::Class)
    } else if ch == 'f' {
        Some(TextObject::Function)
    } else if ch == 'a' {
        Some(TextObject::Parameter)
    } else if ch == 'c' {
        Some(TextObject::Comment)
    } else if ch == 'T' {
        Some(TextObject::Test)
    } else if ch == 'e' {
        Some(TextObject::Entry)
    } else if ch == 'p' {
        Some(TextObject::Paragraph)
    } else if ch == 'm' {
        Some(TextObject::ClosestPair)
    } else if ch == 'g' {
        Some(TextObject::Change)
    } else if !is_ascii_alphanumeric(ch) {
        Some(TextObject::Pair(ch))
    } else {
        None
    }
}

/// What the host found for one range when asked for an object.
#[derive(Clone, Copy, Debug, PartialEq, Eq, Structural)]
pub enum Found {
    /// Nothing: no syntax tree, no diff, no such object at the cursor.
    Nothing,
    /// The bounds of the object.
    Range(Range),
    /// The lines of the changed hunk that covers the line of the cursor:
    /// from line `start` up to, not including, line `end`.
    Hunk { start: u32, end: u32 },
}

/// The range of `object` for a cursor at `range`, given what the host found.
///
/// The changed-lines object takes the lines of a hunk and gives the range
/// from the start of the first to the start of the line after the last. Every
/// other object takes the bounds that the host found. Either result points
/// the way `range` points. Where the host's answer is none that the object
/// takes, `range` comes back unchanged.
pub open spec fn resolved(s: Seq<char>, object: TextObject, range: Range, found: Found) -> Range {
    match (object, found) {
        (TextObject::Change, Found::Hunk { start, end }) => (Range {
            anchor: line_to_char(s, start as int) as usize,
            head: line_to_char(s, end as int) as usize,
        }).with_direction(range.direction()),
        (TextObject::Change, _) => range,
        (_, Found::Range(bounds)) => bounds.with_direction(range.direction()),
        (_, _) => range,
    }
}

/// The range of the object that key `key` names for a cursor at `range`,
/// given what the host found. A key that names no object leaves `range` as
/// it is, as does an object that was not found.
pub open spec fn resolved_key(s: Seq<char>, key: char, range: Range, found: Found) -> Range {
    match object_for_key(key) {
        Some(object) => resolved(s, object, range, found),
        None => range,
    }
}

/// What the host found for range `i`; nothing where `found` has no entry.
pub open spec fn found_at(found: Seq<Found>, i: int) -> Found {
    if 0 <= i < found.len() {
        found[i]
    } else {
        Found::Nothing
    }
}

/// `resolved` of every range of `ranges`, in order, each with its own entry
/// of `found`.
pub open spec fn resolved_ranges(
    s: Seq<char>,
    object: TextObject,
    ranges: Seq<Range>,
    found: Seq<Found>,
) -> Seq<Range> {
    Seq::new(ranges.len(), |i: int| resolved(s, object, ranges[i], found_at(found, i)))
}

/// The legend shown while an operator waits for the key of an object.
pub struct Info {
    /// The heading.
    pub title: &'static str,
    /// One line per key: the key, and what it names.
    pub entries: Vec<(&'static str, &'static str)>,
}

/// The heading of the legend for objects taken as `kind` says.
pub open spec fn legend_title(kind: ObjectKind) -> Seq<char> {
    match kind {
        ObjectKind::Inside => "Match inside"@,
        ObjectKind::Around => "Match around"@,
    }
}

/// The lines of the legend: each key with what it names.
pub open spec fn legend_entries() -> Seq<(Seq<char>, Seq<char>)> {
    seq![
        ("w"@, "Word"@),
        ("W"@, "WORD"@),
        ("p"@, "Paragraph"@),
        ("t"@, "Type definition (tree-sitter)"@),
        ("f"@, "Function (tree-sitter)"@),
        ("a"@, "Argument/parameter (tree-sitter)"@),
        ("c"@, "Comment (tree-sitter)"@),
        ("T"@, "Test (tree-sitter)"@),
        ("e"@, "Data structure entry (tree-sitter)"@),
        ("m"@, "Closest surrounding pair (tree-sitter)"@),
        ("g"@, "Change"@),
        (" "@, "... or any character acting as a pair"@),
    ]
}

/// The label under which the syntax tree knows `object`, for the objects
/// that are looked up there.
pub open spec fn node_label_of(object: TextObject) -> Option<Seq<char>> {
    match object {
        TextObject::Class => Some("class"@),
        TextObject::Function => Some("function"@),
        TextObject::Parameter => Some("parameter"@),
        TextObject::Comment => Some("comment"@),
        TextObject::Test => Some("test"@),
        TextObject::Entry => Some("entry"@),
        _ => None,
    }
}

impl Info {
    /// The legend for objects taken as `kind` says.
    pub fn objects(kind: ObjectKind) -> (info: Info)
        ensures
            info.title@ == legend_title(kind),
            info.entries@.len() == legend_entries().len(),
            forall|i: int|
                0 <= i < info.entries@.len() ==> (#[trigger] info.entries@[i]).0@ == legend_entries()[i].0
                    && info.entries@[i].1@ == legend_entries()[i].1,
    {
        let title: &'static str = match kind {
            ObjectKind::Inside => "Match inside",
            ObjectKind::Around => "Match around",
        };
        let mut entries: Vec<(&'static str, &'static str)> = Vec::new();
        entries.push(("w", "Word"));
        entries.push(("W", "WORD"));
        entries.push(("p", "Paragraph"));
        entries.push(("t", "Type definition (tree-sitter)"));
        entries.push(("f", "Function (tree-sitter)"));
        entries.push(("a", "Argument/parameter (tree-sitter)"));
        entries.push(("c", "Comment (tree-sitter)"));
        entries.push(("T", "Test (tree-sitter)"));
        entries.push(("e", "Data structure entry (tree-sitter)"));
        entries.push(("m", "Closest surrounding pair (tree-sitter)"));
        entries.push(("g", "Change"));
        entries.push((" ", "... or any character acting as a pair"));
        Info { title, entries }
    }
}

impl TextObject {
    /// The label under which the syntax tree knows the object, if it is
    /// looked up there.
    pub fn node_label(&self) -> (label: Option<&'static str>)
        ensures
            match label {
                Some(name) => node_label_of(*self) == Some(name@),
                None => node_label_of(*self).is_none(),
            },
    {
        match self {
            TextObject::Class => Some("class"),
            TextObject::Function => Some("function"),
            TextObject::Parameter => Some("parameter"),
            TextObject::Comment => Some("comment"),
            TextObject::Test => Some("test"),
            TextObject::Entry => Some("entry"),
            _ => None,
        }
    }

    /// The object that key `ch` names, if it names one.
    pub fn from_key(ch: char) -> (object: Option<TextObject>)
        ensures
            object == object_for_key(ch),
    {
        if ch == 'w' {
            Some(TextObject::Word)
        } else if ch == 'W' {
            Some(TextObject::LongWord)
        } else if ch == 't' {
            Some(TextObject::Class)
        } else if ch == 'f' {
            Some(TextObject::Function)
        } else if ch == 'a' {
            Some(TextObject::Parameter)
        } else if ch == 'c' {
            Some(TextObject::Comment)
        } else if ch == 'T' {
            Some(TextObject::Test)
        } else if ch == 'e' {
            Some(TextObject::Entry)
        } else if ch == 'p' {
            Some(TextObject::Paragraph)
        } else if ch == 'm' {
            Some(TextObject::ClosestPair)
        } else if ch == 'g' {
            Some(TextObject::Change)
        } else if !(('0' <= ch && ch <= '9') || ('a' <= ch && ch <= 'z') || ('A' <= ch && ch <= 'Z')) {
            Some(TextObject::Pair(ch))
        } else {
            None
        }
    }

    /// The range of the object for a cursor at `range`, given what the host
    /// found for it.
    pub fn resolve(&self, text: &TextBuffer, range: Range, found: Found) -> (out: Range)
        ensures
            out == resolved(text@, *self, range, found),
    {
        match (*self, found) {
            (TextObject::Change, Found::Hunk { start, end }) => {
                let from: usize = text.line_to_char(start as usize);
                let to: usize = text.line_to_char(end as usize);
                Range::new(from, to).with_direction(range.direction())
            },
            (TextObject::Change, _) => range,
            (_, Found::Range(bounds)) => bounds.with_direction(range.direction()),
            (_, _) => range,
        }
    }

    /// The ranges of the object for every cursor of `selection`, in order:
    /// range `i` is resolved with entry `i` of `found`, or with nothing where
    /// `found` has no such entry.
    pub fn resolve_all(&self, text: &TextBuffer, selection: &Selection, found: &Vec<Found>) -> (out:
        Selection)
        ensures
            out@ == resolved_ranges(text@, *self, selection@, found@),
    {
        let ranges: &Vec<Range> = selection.ranges();
        let mut out: Vec<Range> = Vec::new();
        let mut i: usize = 0;
        while i < ranges.len()
            invariant
                i <= ranges@.len(),
                ranges@ == selection@,
                out@.len() == i,
                forall|k: int|
                    0 <= k < i ==> #[trigger] out@[k] == resolved(
                        text@,
                        *self,
                        selection@[k],
                        found_at(found@, k),
                    ),
            decreases ranges@.len() - i,
        {
            let answer: Found = if i < found.len() {
                found[i]
            } else {
                Found::Nothing
            };
            out.push(self.resolve(text, ranges[i], answer));
            i = i + 1;
        }
        assert(out@ == resolved_ranges(text@, *self, selection@, found@));
        Selection::new(out)
    }
}

/// The range of the object that key `key` names for a cursor at `range`,
/// given what the host found for it. A key that names no object is no
/// error: `range` comes back unchanged.
pub fn resolve(key: char, text: &TextBuffer, range: Range, found: Found) -> (out: Range)
    ensures
        out == resolved_key(text@, key, range, found),
        object_for_key(key).is_none() ==> out == range,
{
    match TextObject::from_key(key) {
        Some(object) => object.resolve(text, range, found),
        None => range,
    }
}

} // verus!
