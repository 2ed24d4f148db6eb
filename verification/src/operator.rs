//! Operators: what they copy and what they remove.

use crate::context::{Context, ContextView, Mode};
use crate::edit::{
    collapsed_after_delete, covered, delete_in, delete_ranges, lemma_delete_keeps_lines,
};
use crate::lines::{full_line_range, full_line_ranges, full_line_selection};
use crate::range::Range;
use crate::selection::{fragments_of, Selection};
use crate::text::{
    fragment, lemma_char_to_line_monotonic, lemma_line_content, lemma_line_starts, len_lines,
    line_end, line_to_char,
};
use vstd::prelude::*;

verus! {

/// An action that waits for a scope.
#[derive(Clone, Copy, Debug, PartialEq, Eq, Structural)]
pub enum EvilOperator {
    /// Copy the text to a register.
    Yank,
    /// Copy the text to a register and remove it.
    Delete,
    /// Copy the text to a register, remove it and start inserting.
    Change,
}

/// A write to a register that the host has to carry out: one fragment of
/// text per range, in the order of the ranges.
pub struct Yank {
    /// The register written to.
    pub register: char,
    /// The fragments.
    pub values: Vec<Vec<char>>,
}

impl View for Yank {
    type V = (char, Seq<Seq<char>>);

    /// The register, and the fragments as plain values.
    open spec fn view(&self) -> (char, Seq<Seq<char>>) {
        (self.register, Seq::new(self.values@.len(), |i: int| self.values@[i]@))
    }
}

/// What the host shows once it has tried to write a yank to its register.
pub enum Notice {
    /// The write went through: so many selections went to the register.
    /// `plural` says whether "selections" takes its s.
    Yanked { selections: usize, plural: bool, register: char },
    /// The write failed, with the host's message.
    Error(String),
}

impl Yank {
    /// What to show for the outcome `written` of the write: the number of
    /// fragments and the register where it went through, the host's message
    /// where it failed.
    pub fn notice(&self, written: Result<(), String>) -> (notice: Notice)
        ensures
            notice == match written {
                Ok(_) => Notice::Yanked {
                    selections: self.values@.len() as usize,
                    plural: self.values@.len() != 1,
                    register: self.register,
                },
                Err(message) => Notice::Error(message),
            },
    {
        match written {
            Ok(_) => Notice::Yanked {
                selections: self.values.len(),
                plural: self.values.len() != 1,
                register: self.register,
            },
            Err(message) => Notice::Error(message),
        }
    }
}

/// What an operator that ran leaves for the host to carry out.
pub struct Outcome {
    /// The write to a register.
    pub yank: Yank,
    /// The ranges that were removed, as they lay in the text before the
    /// operator ran; none for a yank.
    pub removed: Option<Selection>,
}

/// What an operator that ran leaves for the host, as plain values.
pub struct OutcomeView {
    /// The register written to.
    pub register: char,
    /// The fragments written, one per range that was copied.
    pub fragments: Seq<Seq<char>>,
    /// The ranges removed; none for a yank.
    pub removed: Option<Seq<Range>>,
}

impl View for Outcome {
    type V = OutcomeView;

    open spec fn view(&self) -> OutcomeView {
        OutcomeView {
            register: self.yank@.0,
            fragments: self.yank@.1,
            removed: match self.removed {
                Some(selection) => Some(selection@),
                None => None,
            },
        }
    }
}

/// The operators.
pub struct EvilOps;

/// The write that copies `ranges` of the text: to the register named, or to
/// the default register where none is, one fragment per range.
pub open spec fn yank_of(cx: ContextView, register: Option<char>, ranges: Seq<Range>) -> (
    char,
    Seq<Seq<char>>,
) {
    (
        match register {
            Some(name) => name,
            None => cx.default_yank_register,
        },
        fragments_of(cx.text, ranges),
    )
}

/// What operator `cmd` leaves for the host when it copies `to_yank` and
/// removes `to_delete`: the write of one fragment per range of `to_yank`,
/// whatever the operator, and the ranges removed, unless it is a yank.
pub open spec fn outcome_of(
    cx: ContextView,
    cmd: EvilOperator,
    register: Option<char>,
    to_yank: Seq<Range>,
    to_delete: Seq<Range>,
) -> OutcomeView {
    OutcomeView {
        register: yank_of(cx, register, to_yank).0,
        fragments: yank_of(cx, register, to_yank).1,
        removed: if cmd == EvilOperator::Yank {
            None
        } else {
            Some(to_delete)
        },
    }
}

/// The state after `ranges` are deleted from the text: the text without
/// them, and every cursor collapsed to where its range was.
pub open spec fn after_delete(cx: ContextView, ranges: Seq<Range>) -> ContextView {
    ContextView {
        text: delete_in(cx.text, ranges),
        selection: collapsed_after_delete(cx.text, ranges),
        ..cx
    }
}

/// The state after operator `cmd` ran with `ranges` as what it removes. A
/// yank changes nothing. A delete removes the ranges. A change removes them
/// and enters insert mode, which ends line-wise selection.
pub open spec fn after_operator(cx: ContextView, cmd: EvilOperator, ranges: Seq<Range>) -> ContextView {
    match cmd {
        EvilOperator::Yank => cx,
        EvilOperator::Delete => after_delete(cx, ranges),
        EvilOperator::Change => ContextView {
            mode: Mode::Insert,
            visual_line: false,
            ..after_delete(cx, ranges)
        },
    }
}

/// The whole lines that operator `cmd` removes for a count of `count`. A
/// change leaves the terminator of the last line in the text, so that the
/// line it empties stays a line of its own; a delete takes it.
pub open spec fn lines_to_delete(cx: ContextView, cmd: EvilOperator, count: usize) -> Seq<Range> {
    full_line_ranges(cx.text, cx.selection, count as nat, cmd != EvilOperator::Change)
}

/// The whole lines that an operator copies for a count of `count`: always
/// with the terminator of the last line.
pub open spec fn lines_to_yank(cx: ContextView, count: usize) -> Seq<Range> {
    full_line_ranges(cx.text, cx.selection, count as nat, true)
}

/// Whatever the operator, as many fragments are written as ranges are
/// copied, and fragment `i` is the text of range `i`.
pub proof fn lemma_one_fragment_per_range(
    cx: ContextView,
    cmd: EvilOperator,
    register: Option<char>,
    to_yank: Seq<Range>,
    to_delete: Seq<Range>,
)
    ensures
        outcome_of(cx, cmd, register, to_yank, to_delete).fragments.len() == to_yank.len(),
        forall|i: int|
            0 <= i < to_yank.len() ==> #[trigger] outcome_of(
                cx,
                cmd,
                register,
                to_yank,
                to_delete,
            ).fragments[i] == fragment(cx.text, to_yank[i].from() as int, to_yank[i].to() as int),
{
}

/// Changing a line never joins it with the line that follows: where every
/// range lies within one line, a change of one whole line per cursor leaves
/// the text with as many lines as it had.
pub proof fn lemma_change_keeps_line_count(cx: ContextView, count: usize)
    requires
        cx.text.len() <= usize::MAX,
        count <= 1,
        forall|k: int|
            0 <= k < cx.selection.len() ==> (#[trigger] cx.selection[k]).line_range_in(cx.text).0
                == cx.selection[k].line_range_in(cx.text).1,
    ensures
        len_lines(
            after_operator(
                cx,
                EvilOperator::Change,
                lines_to_delete(cx, EvilOperator::Change, count),
            ).text,
        ) == len_lines(cx.text),
{
    let s = cx.text;
    let ranges = lines_to_delete(cx, EvilOperator::Change, count);
    assert forall|i: int| 0 <= i < s.len() && covered(ranges, i) implies s[i] != '\n' by {
        let k = choose|k: int|
            0 <= k < ranges.len() && (#[trigger] ranges[k]).from() <= i < ranges[k].to();
        let range = cx.selection[k];
        let line = range.line_range_in(s).0;
        assert(ranges[k] == full_line_range(s, range, count as nat, false));
        lemma_char_to_line_monotonic(s, range.from() as int, range.from() as int);
        lemma_line_starts(s, s.len() as int);
        assert(line_to_char(s, line) <= line_end(s, line) <= s.len());
        lemma_line_content(s, line, i);
    }
    lemma_delete_keeps_lines(s, ranges);
}

impl EvilOps {
    /// The whole lines of every cursor, extended to `count` lines, with or
    /// without the terminator of the last line.
    pub fn get_full_line_selection(cx: &Context, count: usize, include_last_newline: bool) -> (out:
        Selection)
        ensures
            out@ == full_line_ranges(cx@.text, cx@.selection, count as nat, include_last_newline),
    {
        full_line_selection(&cx.text, &cx.selection, count, include_last_newline)
    }

    /// The write that copies `selection` to `register`, or to the default
    /// register where none is named: exactly one fragment per range, in
    /// order.
    pub fn yank_selection(cx: &Context, selection: &Selection, register: Option<char>) -> (yank: Yank)
        ensures
            yank@ == yank_of(cx@, register, selection@),
            yank.values@.len() == selection@.len(),
    {
        let register: char = match register {
            Some(name) => name,
            None => cx.default_yank_register,
        };
        let values: Vec<Vec<char>> = selection.fragments(&cx.text);
        let yank = Yank { register, values };
        assert(yank@.1 =~= fragments_of(cx@.text, selection@));
        yank
    }

    /// Removes the ranges of `selection` from the text in one edit and
    /// leaves a cursor where each range was.
    pub fn delete_selection_without_yank(
        cx: &mut Context,
        selection: &Selection,
        _set_status_message: bool,
    )
        ensures
            final(cx)@ == after_delete(old(cx)@, selection@),
    {
        let (text, cursors) = delete_ranges(&cx.text, selection);
        cx.text = text;
        cx.selection = cursors;
    }

    /// Runs operator `cmd`: copies `selection_to_yank` to the register, and
    /// for a delete or a change removes `selection_to_delete`. Whatever the
    /// operator, the copy holds one fragment per range of
    /// `selection_to_yank`, taken from the text as it was before anything is
    /// removed.
    pub fn run_operator(
        cx: &mut Context,
        cmd: EvilOperator,
        register: Option<char>,
        selection_to_yank: &Selection,
        selection_to_delete: &Selection,
    ) -> (done: Outcome)
        ensures
            done@ == outcome_of(
                old(cx)@,
                cmd,
                register,
                selection_to_yank@,
                selection_to_delete@,
            ),
            done.yank.values@.len() == selection_to_yank@.len(),
            final(cx)@ == after_operator(old(cx)@, cmd, selection_to_delete@),
    {
        let yank: Yank = Self::yank_selection(cx, selection_to_yank, register);
        match cmd {
            EvilOperator::Delete | EvilOperator::Change => {
                Self::delete_selection_without_yank(cx, selection_to_delete, true);
            },
            EvilOperator::Yank => {
                return Outcome { yank, removed: None };
            },
        }
        if cmd == EvilOperator::Change {
            cx.mode = Mode::Insert;
            cx.vim_state.exit_visual_line();
        }
        Outcome { yank, removed: Some(selection_to_delete.duplicate()) }
    }

    /// Runs operator `cmd` on the selection as it stands: what is copied is
    /// what is removed.
    pub fn run_operator_for_current_selection(
        cx: &mut Context,
        cmd: EvilOperator,
        register: Option<char>,
    ) -> (done: Outcome)
        ensures
            done@ == outcome_of(old(cx)@, cmd, register, old(cx)@.selection, old(cx)@.selection),
            done.yank.values@.len() == old(cx)@.selection.len(),
            final(cx)@ == after_operator(old(cx)@, cmd, old(cx)@.selection),
    {
        let selection: Selection = cx.selection.duplicate();
        Self::run_operator(cx, cmd, register, &selection, &selection)
    }

    /// Runs operator `cmd` on `count` whole lines from each cursor. What is
    /// copied always ends with the terminator of the last line. What a
    /// change removes does not.
    pub fn run_operator_lines(
        cx: &mut Context,
        cmd: EvilOperator,
        register: Option<char>,
        count: usize,
    ) -> (done: Outcome)
        ensures
            done@ == outcome_of(
                old(cx)@,
                cmd,
                register,
                lines_to_yank(old(cx)@, count),
                lines_to_delete(old(cx)@, cmd, count),
            ),
            done.yank.values@.len() == old(cx)@.selection.len(),
            final(cx)@ == after_operator(old(cx)@, cmd, lines_to_delete(old(cx)@, cmd, count)),
    {
        let selection: Selection = Self::get_full_line_selection(cx, count, true);
        if cmd != EvilOperator::Change {
            Self::run_operator(cx, cmd, register, &selection, &selection)
        } else {
            let delete_selection: Selection = Self::get_full_line_selection(cx, count, false);
            Self::run_operator(cx, cmd, register, &selection, &delete_selection)
        }
    }
}

} // verus!
