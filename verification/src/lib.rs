//! A modal operator-plus-scope command engine for a multi-cursor text editor.
//!
//! An operator (yank, delete, change) is combined with a scope (a text object
//! or a run of whole lines) and applied to every cursor of a selection in one
//! edit. All of the engine's rules are stated over a plain model of the text:
//! a sequence of characters in which `'\n'` ends a line, alone or behind a
//! `'\r'`, and every character is one cursor position but for `"\r\n"`, which
//! is one.
//!
//! The engine does no input or output. The host hands it the state of the
//! editor as a [`context::Context`], calls a command, and carries out what
//! comes back: the write to a register, the ranges removed, the motion asked
//! for. An operator that waits for a key is a value in the context, used up
//! by the next key event or dropped.

pub mod commands;
pub mod context;
pub mod dispatch;
pub mod edit;
pub mod lines;
pub mod operator;
pub mod paragraph;
pub mod range;
pub mod selection;
pub mod state;
pub mod text;
pub mod textobject;
