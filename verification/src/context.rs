//! What a command reads and changes: the state of the editor as far as the
//! engine is concerned.

use crate::operator::EvilOperator;
use crate::range::Range;
use crate::selection::Selection;
use crate::state::AtomicState;
use crate::text::TextBuffer;
use crate::textobject::{object_for_key, ObjectKind, TextObject};
use vstd::prelude::*;

verus! {

/// The mode of the editor.
#[derive(Clone, Copy, Debug, PartialEq, Eq, Structural)]
pub enum Mode {
    /// Keys are commands, and every cursor is a point.
    Normal,
    /// Keys are commands, and motions extend the selection.
    Select,
    /// Keys are text.
    Insert,
}

/// An operator that was invoked and waits for one more key. It is used up by
/// the next key, whatever that key is, or dropped without any effect.
#[derive(Clone, Copy, Debug, PartialEq, Eq, Structural)]
pub enum PendingScope {
    /// The operator waits for the key that names its scope.
    Scope { operator: EvilOperator, register: Option<char>, count: usize },
    /// The scope is a text object, and the operator waits for the key that
    /// names the object. The register and the count are those that the
    /// operator was invoked with.
    Object { operator: EvilOperator, register: Option<char>, count: usize, kind: ObjectKind },
}

/// The state that the commands work on.
pub struct Context {
    /// The mode of the editor.
    pub mode: Mode,
    /// The number typed before the command, if one was.
    pub count: Option<usize>,
    /// The register named before the command, if one was.
    pub register: Option<char>,
    /// The register that a yank goes to when none was named.
    pub default_yank_register: char,
    /// The text.
    pub text: TextBuffer,
    /// The cursors.
    pub selection: Selection,
    /// Whether selection is line-wise.
    pub vim_state: AtomicState,
    /// The operator that waits for the next key, if one does.
    pub on_next_key: Option<PendingScope>,
    /// The legend on display, if one is: that of the objects taken this way.
    pub autoinfo: Option<ObjectKind>,
}

/// The state that the commands work on, as plain values.
pub struct ContextView {
    pub mode: Mode,
    pub count: Option<usize>,
    pub register: Option<char>,
    pub default_yank_register: char,
    pub text: Seq<char>,
    pub selection: Seq<Range>,
    pub visual_line: bool,
    pub on_next_key: Option<PendingScope>,
    pub autoinfo: Option<ObjectKind>,
}

impl View for Context {
    type V = ContextView;

    open spec fn view(&self) -> ContextView {
        ContextView {
            mode: self.mode,
            count: self.count,
            register: self.register,
            default_yank_register: self.default_yank_register,
            text: self.text@,
            selection: self.selection@,
            visual_line: self.vim_state.is_visual_line(),
            on_next_key: self.on_next_key,
            autoinfo: self.autoinfo,
        }
    }
}

/// What the host is asked to find for every range before an object key is
/// handed over.
#[derive(Clone, Copy, Debug, PartialEq, Eq, Structural)]
pub struct Lookup {
    /// The object to find.
    pub object: TextObject,
    /// Whether to take it with or without what delimits it.
    pub kind: ObjectKind,
    /// How many nested or consecutive objects to take: the count that the
    /// operator was invoked with.
    pub count: usize,
}

impl ContextView {
    /// The repeat count in force: the number typed, or one where none was
    /// typed or zero was.
    pub open spec fn repeat(self) -> usize {
        match self.count {
            Some(n) => if n == 0 {
                1
            } else {
                n
            },
            None => 1,
        }
    }

    /// A set line-wise flag goes with select mode only.
    pub open spec fn flag_agrees(self) -> bool {
        self.visual_line ==> self.mode == Mode::Select
    }

    /// What the host has to look up before key `key` is handed over: an
    /// object, where an operator waits for one and `key` names one.
    pub open spec fn lookup_for(self, key: Option<char>) -> Option<Lookup> {
        match (self.on_next_key, key) {
            (Some(PendingScope::Object { operator, register, count, kind }), Some(ch)) => match object_for_key(
                ch,
            ) {
                Some(object) => Some(Lookup { object, kind, count }),
                None => None,
            },
            _ => None,
        }
    }
}

impl Context {
    /// The state of an editor that holds `text` with the cursors of
    /// `selection`, in normal mode, with nothing typed and nothing waiting.
    pub fn new(text: TextBuffer, selection: Selection, default_yank_register: char) -> (cx: Context)
        ensures
            cx@ == (ContextView {
                mode: Mode::Normal,
                count: None,
                register: None,
                default_yank_register,
                text: text@,
                selection: selection@,
                visual_line: false,
                on_next_key: None,
                autoinfo: None,
            }),
    {
        Context {
            mode: Mode::Normal,
            count: None,
            register: None,
            default_yank_register,
            text,
            selection,
            vim_state: AtomicState::new(),
            on_next_key: None,
            autoinfo: None,
        }
    }

    /// The repeat count in force: the number typed, or one.
    pub fn count(&self) -> (n: usize)
        ensures
            n == self@.repeat(),
            n >= 1,
    {
        match self.count {
            Some(n) => if n == 0 {
                1
            } else {
                n
            },
            None => 1,
        }
    }

    /// What the host has to look up for every range before key `key` is
    /// handed over.
    pub fn lookup_for(&self, key: Option<char>) -> (lookup: Option<Lookup>)
        ensures
            lookup == self@.lookup_for(key),
    {
        match (self.on_next_key, key) {
            (Some(PendingScope::Object { operator, register, count, kind }), Some(ch)) => match TextObject::from_key(
                ch,
            ) {
                Some(object) => Some(Lookup { object, kind, count }),
                None => None,
            },
            _ => None,
        }
    }
}

} // verus!
