//! When operators run: at once on a selection, or after the key that names
//! their scope.

use crate::context::{Context, ContextView, Mode, PendingScope};
use crate::operator::{
    after_operator, lines_to_delete, lines_to_yank, outcome_of, EvilOperator, EvilOps, Outcome,
    OutcomeView,
};
use crate::selection::{has_extent, Selection};
use crate::textobject::{object_for_key, resolved_ranges, Found, ObjectKind, TextObject};
use vstd::prelude::*;

verus! {

/// Whether an operator invoked in this state runs at once: in select mode,
/// with a selection that covers something.
pub open spec fn runs_immediately(cx: ContextView) -> bool {
    cx.mode == Mode::Select && has_extent(cx.selection)
}

/// The state with select mode left for normal mode, if it was in force, and
/// line-wise selection ended.
pub open spec fn select_mode_left(cx: ContextView) -> ContextView {
    ContextView {
        mode: if cx.mode == Mode::Select {
            Mode::Normal
        } else {
            cx.mode
        },
        visual_line: false,
        ..cx
    }
}

/// The state after operator `cmd` was invoked with `register`: run at once
/// on the selection, with select mode left afterwards, or waiting for the
/// key of its scope with the count in force.
pub open spec fn after_invocation(cx: ContextView, cmd: EvilOperator, register: Option<char>) -> ContextView {
    if runs_immediately(cx) {
        select_mode_left(after_operator(cx, cmd, cx.selection))
    } else {
        ContextView {
            on_next_key: Some(
                PendingScope::Scope { operator: cmd, register, count: cx.repeat() },
            ),
            ..cx
        }
    }
}

/// What invoking operator `cmd` with `register` leaves for the host:
/// something where the operator runs at once, nothing where it waits.
pub open spec fn outcome_of_invocation(
    cx: ContextView,
    cmd: EvilOperator,
    register: Option<char>,
) -> Option<OutcomeView> {
    if runs_immediately(cx) {
        Some(outcome_of(cx, cmd, register, cx.selection, cx.selection))
    } else {
        None
    }
}

/// The state once the operator waits for the key of a text object taken as
/// `kind` says: the legend is on display, and the register and the count
/// that the operator was invoked with wait with it.
pub open spec fn awaiting_object(
    cx: ContextView,
    kind: ObjectKind,
    operator: EvilOperator,
    register: Option<char>,
    count: usize,
) -> ContextView {
    ContextView {
        on_next_key: Some(PendingScope::Object { operator, register, count, kind }),
        autoinfo: Some(kind),
        ..cx
    }
}

/// Whether `key` asks for the operator to run on whole lines.
pub open spec fn is_line_key(key: Option<char>) -> bool {
    key == Some('d') || key == Some('y') || key == Some('c')
}

/// The state after `key` arrived while `operator` waited for its scope.
/// `i` and `a` ask for a text object, inside or around, and hand the
/// register and the count on to it. `d`, `y` and `c` run the operator on
/// `count` whole lines, whichever operator waits. Any other key, or an event
/// that is no character, changes nothing. The legend is taken down first in
/// every case.
pub open spec fn after_scope_key(
    cx: ContextView,
    operator: EvilOperator,
    register: Option<char>,
    count: usize,
    key: Option<char>,
) -> ContextView {
    let cleared = ContextView { autoinfo: None, ..cx };
    if key == Some('i') {
        awaiting_object(cleared, ObjectKind::Inside, operator, register, count)
    } else if key == Some('a') {
        awaiting_object(cleared, ObjectKind::Around, operator, register, count)
    } else if is_line_key(key) {
        after_operator(cleared, operator, lines_to_delete(cleared, operator, count))
    } else {
        cleared
    }
}

/// What `key` leads to while `operator` waits for its scope: the operator
/// run on whole lines, for a line key; nothing otherwise.
pub open spec fn outcome_of_scope_key(
    cx: ContextView,
    operator: EvilOperator,
    register: Option<char>,
    count: usize,
    key: Option<char>,
) -> Option<OutcomeView> {
    if is_line_key(key) {
        Some(
            outcome_of(
                cx,
                operator,
                register,
                lines_to_yank(cx, count),
                lines_to_delete(cx, operator, count),
            ),
        )
    } else {
        None
    }
}

/// The object that `key` names, if it is a character that names one.
pub open spec fn object_of(key: Option<char>) -> Option<TextObject> {
    match key {
        Some(ch) => object_for_key(ch),
        None => None,
    }
}

/// The state after `key` arrived while `operator` waited for the key of a
/// text object, given what the host found for each range. A key that names
/// an object runs the operator on the ranges of that object. A key that
/// names none changes nothing. The legend is taken down first in every
/// case.
pub open spec fn after_object_key(
    cx: ContextView,
    operator: EvilOperator,
    key: Option<char>,
    found: Seq<Found>,
) -> ContextView {
    let cleared = ContextView { autoinfo: None, ..cx };
    match object_of(key) {
        Some(object) => after_operator(
            cleared,
            operator,
            resolved_ranges(cx.text, object, cx.selection, found),
        ),
        None => cleared,
    }
}

/// What `key` leads to while `operator` waits for the key of a text
/// object: the operator run on the ranges of the object, with `register`,
/// the register that it was invoked with, for a key that names one; nothing
/// otherwise.
pub open spec fn outcome_of_object_key(
    cx: ContextView,
    operator: EvilOperator,
    register: Option<char>,
    key: Option<char>,
    found: Seq<Found>,
) -> Option<OutcomeView> {
    match object_of(key) {
        Some(object) => Some(
            outcome_of(
                cx,
                operator,
                register,
                resolved_ranges(cx.text, object, cx.selection, found),
                resolved_ranges(cx.text, object, cx.selection, found),
            ),
        ),
        None => None,
    }
}

/// The state with nothing waiting for a key.
pub open spec fn nothing_pending(cx: ContextView) -> ContextView {
    ContextView { on_next_key: None, ..cx }
}

/// The state after the next key event. What waited is used up, whatever the
/// key; where nothing waited, nothing changes.
pub open spec fn after_key(cx: ContextView, key: Option<char>, found: Seq<Found>) -> ContextView {
    match cx.on_next_key {
        None => cx,
        Some(PendingScope::Scope { operator, register, count }) => after_scope_key(
            nothing_pending(cx),
            operator,
            register,
            count,
            key,
        ),
        Some(PendingScope::Object { operator, register, count, kind }) => after_object_key(
            nothing_pending(cx),
            operator,
            key,
            found,
        ),
    }
}

/// What the next key event leaves for the host.
pub open spec fn outcome_of_key(cx: ContextView, key: Option<char>, found: Seq<Found>) -> Option<
    OutcomeView,
> {
    match cx.on_next_key {
        None => None,
        Some(PendingScope::Scope { operator, register, count }) => outcome_of_scope_key(
            cx,
            operator,
            register,
            count,
            key,
        ),
        Some(PendingScope::Object { operator, register, count, kind }) => outcome_of_object_key(
            cx,
            operator,
            register,
            key,
            found,
        ),
    }
}

/// The plain value of an outcome that may be there.
pub open spec fn left_for_host(outcome: Option<Outcome>) -> Option<OutcomeView> {
    match outcome {
        Some(done) => Some(done@),
        None => None,
    }
}

/// The line-wise flag never outlives select mode: where a set flag went with
/// select mode before, it does so after an operator is invoked, after the
/// next key is handled, and after what waits is dropped.
pub proof fn lemma_flag_agrees(
    cx: ContextView,
    cmd: EvilOperator,
    register: Option<char>,
    key: Option<char>,
    found: Seq<Found>,
)
    requires
        cx.flag_agrees(),
    ensures
        after_invocation(cx, cmd, register).flag_agrees(),
        after_key(cx, key, found).flag_agrees(),
        nothing_pending(cx).flag_agrees(),
{
}

/// What waits for a key is used up by one event: an operator that waits for
/// its scope goes on to wait for an object only on `i` or `a`, an operator
/// that waits for an object never waits again, and after two events nothing
/// waits.
pub proof fn lemma_pending_fires_once(
    cx: ContextView,
    first: Option<char>,
    found_first: Seq<Found>,
    second: Option<char>,
    found_second: Seq<Found>,
)
    ensures
        after_key(cx, first, found_first).on_next_key.is_some() ==> (cx.on_next_key matches Some(
            PendingScope::Scope { .. },
        ) && (first == Some('i') || first == Some('a'))),
        after_key(
            after_key(cx, first, found_first),
            second,
            found_second,
        ).on_next_key.is_none(),
{
}

/// The register and the count that an operator is invoked with stay with it
/// until it runs. After `i` or `a` the operator waits with both, whatever
/// register or count is in force by then; the lookup asks for that count;
/// and the key of an object writes to that register, or to the default
/// register where none was named at the invocation.
pub proof fn lemma_object_keeps_register_and_count(
    cx: ContextView,
    cmd: EvilOperator,
    register: Option<char>,
    later: ContextView,
    scope: char,
    key: char,
    found: Seq<Found>,
)
    requires
        !runs_immediately(cx),
        scope == 'i' || scope == 'a',
        object_for_key(key).is_some(),
        later.on_next_key == after_invocation(cx, cmd, register).on_next_key,
        later.default_yank_register == cx.default_yank_register,
    ensures
        after_key(later, Some(scope), found).on_next_key == Some(
            PendingScope::Object {
                operator: cmd,
                register,
                count: cx.repeat(),
                kind: if scope == 'i' {
                    ObjectKind::Inside
                } else {
                    ObjectKind::Around
                },
            },
        ),
        forall|asked: ContextView|
            asked.on_next_key == after_key(later, Some(scope), found).on_next_key
                && asked.default_yank_register == cx.default_yank_register ==> {
                &&& (#[trigger] asked.lookup_for(Some(key))) matches Some(lookup)
                &&& lookup.count == cx.repeat()
                &&& lookup.object == object_for_key(key).unwrap()
                &&& outcome_of_key(asked, Some(key), found) matches Some(outcome)
                &&& outcome.register == match register {
                    Some(name) => name,
                    None => cx.default_yank_register,
                }
            },
{
}

/// A key that names no object aborts the operator that waits for one: the
/// text, the cursors and the mode stay as they are, and nothing is left for
/// the host to write or remove.
pub proof fn lemma_unmapped_key_changes_nothing(
    cx: ContextView,
    operator: EvilOperator,
    key: Option<char>,
    found: Seq<Found>,
)
    requires
        object_of(key).is_none(),
    ensures
        after_object_key(cx, operator, key, found) == (ContextView { autoinfo: None, ..cx }),
        forall|register: Option<char>|
            (#[trigger] outcome_of_object_key(cx, operator, register, key, found)).is_none(),
{
}

impl EvilOps {
    /// Invokes operator `cmd`. In select mode with a selection that covers
    /// something it runs at once, on that selection: nothing is left waiting
    /// for a key, select mode is left, and what the host has to carry out
    /// comes back. Otherwise nothing is changed but that the operator now
    /// waits for the key of its scope.
    pub fn operator_impl(cx: &mut Context, cmd: EvilOperator, register: Option<char>) -> (done:
        Option<Outcome>)
        ensures
            final(cx)@ == after_invocation(old(cx)@, cmd, register),
            left_for_host(done) == outcome_of_invocation(old(cx)@, cmd, register),
            runs_immediately(old(cx)@) ==> final(cx)@.mode != Mode::Select && final(cx)@.on_next_key
                == old(cx)@.on_next_key,
    {
        if cx.mode == Mode::Select && cx.selection.is_extended() {
            let done: Outcome = Self::run_operator_for_current_selection(cx, cmd, register);
            if cx.mode == Mode::Select {
                cx.mode = Mode::Normal;
            }
            cx.vim_state.exit_visual_line();
            return Some(done);
        }
        let count: usize = cx.count();
        cx.on_next_key = Some(PendingScope::Scope { operator: cmd, register, count });
        None
    }

    /// Handles the key that arrives while operator `cmd` waits for its
    /// scope.
    pub fn scope_key(
        cx: &mut Context,
        cmd: EvilOperator,
        register: Option<char>,
        count: usize,
        key: Option<char>,
    ) -> (done: Option<Outcome>)
        ensures
            final(cx)@ == after_scope_key(old(cx)@, cmd, register, count, key),
            left_for_host(done) == outcome_of_scope_key(old(cx)@, cmd, register, count, key),
    {
        cx.autoinfo = None;
        match key {
            Some('i') => {
                vim_operate_textobject(cx, ObjectKind::Inside, cmd, register, count);
                None
            },
            Some('a') => {
                vim_operate_textobject(cx, ObjectKind::Around, cmd, register, count);
                None
            },
            Some('d') | Some('y') | Some('c') => Some(
                Self::run_operator_lines(cx, cmd, register, count),
            ),
            _ => None,
        }
    }

    /// Handles the key that arrives while operator `op` waits for the key of
    /// a text object. `register` is the register that the operator was
    /// invoked with, and the one written to. `found` holds what the host
    /// found for each range, in the order of the ranges.
    pub fn textobject_key(
        cx: &mut Context,
        op: EvilOperator,
        register: Option<char>,
        key: Option<char>,
        found: &Vec<Found>,
    ) -> (done: Option<Outcome>)
        ensures
            final(cx)@ == after_object_key(old(cx)@, op, key, found@),
            left_for_host(done) == outcome_of_object_key(old(cx)@, op, register, key, found@),
    {
        cx.autoinfo = None;
        let object: Option<TextObject> = match key {
            Some(ch) => TextObject::from_key(ch),
            None => None,
        };
        match object {
            Some(object) => {
                let selection: Selection = object.resolve_all(&cx.text, &cx.selection, found);
                Some(Self::run_operator(cx, op, register, &selection, &selection))
            },
            None => None,
        }
    }

    /// Hands the next key event to what waits for it. `key` is the character
    /// of the event, if it has one. `found` holds what the host found for
    /// each range for the lookup that `Context::lookup_for` asked for, and is
    /// not read otherwise. What waited is used up by this one event. An
    /// operator that runs writes to the register that it was invoked with.
    pub fn resume(cx: &mut Context, key: Option<char>, found: &Vec<Found>) -> (done: Option<Outcome>)
        ensures
            final(cx)@ == after_key(old(cx)@, key, found@),
            left_for_host(done) == outcome_of_key(old(cx)@, key, found@),
    {
        let pending: Option<PendingScope> = cx.on_next_key;
        cx.on_next_key = None;
        match pending {
            None => None,
            Some(PendingScope::Scope { operator, register, count }) => Self::scope_key(
                cx,
                operator,
                register,
                count,
                key,
            ),
            Some(PendingScope::Object { operator, register, count, kind }) => Self::textobject_key(
                cx,
                operator,
                register,
                key,
                found,
            ),
        }
    }

    /// Drops what waits for a key, with no other effect.
    pub fn cancel(cx: &mut Context)
        ensures
            final(cx)@ == nothing_pending(old(cx)@),
    {
        cx.on_next_key = None;
    }
}

/// Makes operator `op` wait for the key of a text object taken as `objtype`
/// says, together with the register and the count that it was invoked with,
/// and puts up the legend.
pub fn vim_operate_textobject(
    cx: &mut Context,
    objtype: ObjectKind,
    op: EvilOperator,
    register: Option<char>,
    count: usize,
)
    ensures
        final(cx)@ == awaiting_object(old(cx)@, objtype, op, register, count),
{
    cx.on_next_key = Some(PendingScope::Object { operator: op, register, count, kind: objtype });
    cx.autoinfo = Some(objtype);
}

} // verus!
