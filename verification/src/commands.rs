//! The commands that the keymap binds.

use crate::context::{Context, ContextView, Mode};
use crate::dispatch::{after_invocation, left_for_host, outcome_of_invocation, select_mode_left};
use crate::lines::{full_line_ranges, full_line_selection};
use crate::operator::{EvilOperator, EvilOps, Outcome};
use crate::paragraph::{
    movement_paragraph_backward, movement_paragraph_forward, paragraph_backward_in,
    paragraph_forward_in,
};
use crate::range::{Movement, Range};
use crate::selection::Selection;
use crate::text::TextBuffer;
use vstd::prelude::*;

verus! {

/// A motion of the host editor that a command asks for.
#[derive(Clone, Copy, Debug, PartialEq, Eq, Structural)]
pub enum EditorCommand {
    /// Go to the last line.
    GotoLastLine,
    /// Go to the line that the count names.
    GotoLine,
    /// Extend the selection down by whole lines of text.
    ExtendLineDown,
    /// Extend the selection down by lines as displayed.
    ExtendVisualLineDown,
    /// Extend the selection up by whole lines of text.
    ExtendLineUp,
    /// Extend the selection up by lines as displayed.
    ExtendVisualLineUp,
}

/// Every range collapsed to the point under its cursor.
pub open spec fn collapsed(s: Seq<char>, ranges: Seq<Range>) -> Seq<Range> {
    Seq::new(
        ranges.len(),
        |i: int|
            Range { anchor: ranges[i].cursor_in(s) as usize, head: ranges[i].cursor_in(s) as usize },
    )
}

/// The state with every range extended to the whole lines that it touches.
pub open spec fn extended_to_line_bounds(cx: ContextView) -> ContextView {
    ContextView { selection: full_line_ranges(cx.text, cx.selection, 1, true), ..cx }
}

/// The state after the hook that runs behind every command. Outside select
/// mode every range collapses to its cursor. In select mode a line-wise
/// selection is extended to whole lines, and a range-wise one is left alone.
pub open spec fn after_command_hook(cx: ContextView) -> ContextView {
    if cx.mode != Mode::Select {
        ContextView { selection: collapsed(cx.text, cx.selection), ..cx }
    } else if cx.visual_line {
        extended_to_line_bounds(cx)
    } else {
        cx
    }
}

/// The way a motion treats the anchor in this state: it extends in select
/// mode and moves otherwise.
pub open spec fn motion_behavior(cx: ContextView) -> Movement {
    if cx.mode == Mode::Select {
        Movement::Extend
    } else {
        Movement::Move
    }
}

/// The state after a motion by paragraphs, down if `forward` and up if not:
/// every range is moved by the count in force, and outside select mode the
/// editor is in normal mode afterwards.
pub open spec fn after_paragraph_motion(cx: ContextView, forward: bool) -> ContextView {
    ContextView {
        selection: Seq::new(
            cx.selection.len(),
            |i: int|
                if forward {
                    paragraph_forward_in(
                        cx.text,
                        cx.selection[i],
                        cx.repeat() as nat,
                        motion_behavior(cx),
                    )
                } else {
                    paragraph_backward_in(
                        cx.text,
                        cx.selection[i],
                        cx.repeat() as nat,
                        motion_behavior(cx),
                    )
                },
        ),
        mode: if cx.mode == Mode::Select {
            Mode::Select
        } else {
            Mode::Normal
        },
        ..cx
    }
}

/// The line-wise flag never outlives select mode: where a set flag went with
/// select mode before, it does so after the hook and after a motion by
/// paragraphs.
pub proof fn lemma_commands_keep_flag(cx: ContextView, forward: bool)
    requires
        cx.flag_agrees(),
    ensures
        after_command_hook(cx).flag_agrees(),
        after_paragraph_motion(cx, forward).flag_agrees(),
{
}

/// Collapses every range to the point under its cursor.
fn collapse_selection(text: &TextBuffer, selection: &Selection) -> (out: Selection)
    ensures
        out@ == collapsed(text@, selection@),
{
    let ranges: &Vec<Range> = selection.ranges();
    let mut out: Vec<Range> = Vec::new();
    let mut i: usize = 0;
    while i < ranges.len()
        invariant
            i <= ranges@.len(),
            ranges@ == selection@,
            out@.len() == i,
            forall|k: int| 0 <= k < i ==> #[trigger] out@[k] == collapsed(text@, selection@)[k],
        decreases ranges@.len() - i,
    {
        out.push(Range::point(ranges[i].cursor(text)));
        i = i + 1;
    }
    assert(out@ == collapsed(text@, selection@));
    Selection::new(out)
}

/// Moves every range by paragraphs, by the count in force: extending in
/// select mode, moving otherwise.
fn goto_para_impl(cx: &mut Context, forward: bool)
    ensures
        final(cx)@ == (ContextView {
            selection: after_paragraph_motion(old(cx)@, forward).selection,
            ..old(cx)@
        }),
{
    let count: usize = cx.count();
    let behavior: Movement = if cx.mode == Mode::Select {
        Movement::Extend
    } else {
        Movement::Move
    };
    let ranges: &Vec<Range> = cx.selection.ranges();
    let mut out: Vec<Range> = Vec::new();
    let mut i: usize = 0;
    while i < ranges.len()
        invariant
            i <= ranges@.len(),
            ranges@ == cx@.selection,
            count == cx@.repeat(),
            behavior == motion_behavior(cx@),
            out@.len() == i,
            forall|k: int|
                0 <= k < i ==> #[trigger] out@[k] == after_paragraph_motion(cx@, forward).selection[k],
        decreases ranges@.len() - i,
    {
        let moved: Range = if forward {
            movement_paragraph_forward(&cx.text, ranges[i], count, behavior)
        } else {
            movement_paragraph_backward(&cx.text, ranges[i], count, behavior)
        };
        out.push(moved);
        i = i + 1;
    }
    assert(out@ == after_paragraph_motion(cx@, forward).selection);
    cx.selection = Selection::new(out);
}

/// What runs around the commands of the host.
pub struct VimOps;

impl VimOps {
    /// The hook that runs behind every command: it keeps every cursor a
    /// point outside select mode, and a line-wise selection on whole lines.
    pub fn hook_after_each_command(cx: &mut Context)
        ensures
            final(cx)@ == after_command_hook(old(cx)@),
    {
        if cx.mode != Mode::Select {
            cx.selection = collapse_selection(&cx.text, &cx.selection);
        } else {
            if cx.vim_state.is_visual_line() {
                cx.selection = full_line_selection(&cx.text, &cx.selection, 1, true);
            }
        }
    }
}

/// Enters line-wise select mode: select mode, the flag set, and every range
/// extended to the whole lines that it touches.
pub fn vim_visual_lines(cx: &mut Context)
    ensures
        final(cx)@ == extended_to_line_bounds(
            ContextView { mode: Mode::Select, visual_line: true, ..old(cx)@ },
        ),
        final(cx)@.flag_agrees(),
{
    cx.mode = Mode::Select;
    cx.vim_state.visual_line();
    cx.selection = full_line_selection(&cx.text, &cx.selection, 1, true);
}

/// The motion that goes to a line: to the last line where no count was
/// typed, to the line of the count otherwise.
pub fn vim_goto_line(cx: &Context) -> (command: EditorCommand)
    ensures
        command == if cx@.count.is_none() {
            EditorCommand::GotoLastLine
        } else {
            EditorCommand::GotoLine
        },
{
    if cx.count.is_none() {
        EditorCommand::GotoLastLine
    } else {
        EditorCommand::GotoLine
    }
}

/// The motion that extends the selection down: by lines of text where
/// selection is line-wise, by lines as displayed otherwise.
pub fn vim_extend_visual_line_down(cx: &Context) -> (command: EditorCommand)
    ensures
        command == if cx@.visual_line {
            EditorCommand::ExtendLineDown
        } else {
            EditorCommand::ExtendVisualLineDown
        },
{
    if cx.vim_state.is_visual_line() {
        EditorCommand::ExtendLineDown
    } else {
        EditorCommand::ExtendVisualLineDown
    }
}

/// The motion that extends the selection up: by lines of text where
/// selection is line-wise, by lines as displayed otherwise.
pub fn vim_extend_visual_line_up(cx: &Context) -> (command: EditorCommand)
    ensures
        command == if cx@.visual_line {
            EditorCommand::ExtendLineUp
        } else {
            EditorCommand::ExtendVisualLineUp
        },
{
    if cx.vim_state.is_visual_line() {
        EditorCommand::ExtendLineUp
    } else {
        EditorCommand::ExtendVisualLineUp
    }
}

/// Enters normal mode and ends line-wise selection.
pub fn vim_normal_mode(cx: &mut Context)
    ensures
        final(cx)@ == (ContextView { mode: Mode::Normal, visual_line: false, ..old(cx)@ }),
        final(cx)@.flag_agrees(),
{
    cx.mode = Mode::Normal;
    cx.vim_state.exit_visual_line();
}

/// Leaves select mode for normal mode, if it is in force, and ends line-wise
/// selection.
pub fn vim_exit_select_mode(cx: &mut Context)
    ensures
        final(cx)@ == select_mode_left(old(cx)@),
        final(cx)@.flag_agrees(),
{
    if cx.mode == Mode::Select {
        cx.mode = Mode::Normal;
    }
    cx.vim_state.exit_visual_line();
}

/// Moves every cursor down by paragraphs, extending in select mode.
pub fn vim_move_paragraph_forward(cx: &mut Context)
    ensures
        final(cx)@ == after_paragraph_motion(old(cx)@, true),
{
    goto_para_impl(cx, true);
    if cx.mode != Mode::Select {
        cx.mode = Mode::Normal;
    }
}

/// Moves every cursor up by paragraphs, extending in select mode.
pub fn vim_move_paragraph_backward(cx: &mut Context)
    ensures
        final(cx)@ == after_paragraph_motion(old(cx)@, false),
{
    goto_para_impl(cx, false);
    if cx.mode != Mode::Select {
        cx.mode = Mode::Normal;
    }
}

/// Invokes the delete operator with the register in force.
pub fn vim_delete(cx: &mut Context) -> (done: Option<Outcome>)
    ensures
        final(cx)@ == after_invocation(old(cx)@, EvilOperator::Delete, old(cx)@.register),
        left_for_host(done) == outcome_of_invocation(old(cx)@, EvilOperator::Delete, old(cx)@.register),
{
    let register: Option<char> = cx.register;
    EvilOps::operator_impl(cx, EvilOperator::Delete, register)
}

/// Invokes the yank operator with the register in force.
pub fn vim_yank(cx: &mut Context) -> (done: Option<Outcome>)
    ensures
        final(cx)@ == after_invocation(old(cx)@, EvilOperator::Yank, old(cx)@.register),
        left_for_host(done) == outcome_of_invocation(old(cx)@, EvilOperator::Yank, old(cx)@.register),
{
    let register: Option<char> = cx.register;
    EvilOps::operator_impl(cx, EvilOperator::Yank, register)
}

/// Invokes the yank operator with the clipboard register, `+`.
pub fn vim_yank_to_clipboard(cx: &mut Context) -> (done: Option<Outcome>)
    ensures
        final(cx)@ == after_invocation(old(cx)@, EvilOperator::Yank, Some('+')),
        left_for_host(done) == outcome_of_invocation(old(cx)@, EvilOperator::Yank, Some('+')),
{
    EvilOps::operator_impl(cx, EvilOperator::Yank, Some('+'))
}

/// Invokes the change operator with the register in force.
pub fn vim_change(cx: &mut Context) -> (done: Option<Outcome>)
    ensures
        final(cx)@ == after_invocation(old(cx)@, EvilOperator::Change, old(cx)@.register),
        left_for_host(done) == outcome_of_invocation(old(cx)@, EvilOperator::Change, old(cx)@.register),
{
    let register: Option<char> = cx.register;
    EvilOps::operator_impl(cx, EvilOperator::Change, register)
}

} // verus!
