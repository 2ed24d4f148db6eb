//! The flag that tells line-wise selection from range-wise selection.

use vstd::prelude::*;

verus! {

/// Whether the selection mode in force extends by whole lines.
pub struct AtomicState {
    visual_lines: bool,
}

impl AtomicState {
    pub closed spec fn spec_is_visual_line(&self) -> bool {
        self.visual_lines
    }

    /// The state with the flag cleared.
    pub fn new() -> (state: AtomicState)
        ensures
            !state.is_visual_line(),
    {
        AtomicState { visual_lines: false }
    }

    /// Sets the flag: selection is line-wise from now on.
    pub fn visual_line(&mut self)
        ensures
            final(self).is_visual_line(),
    {
        self.visual_lines = true;
    }

    /// Clears the flag: selection is range-wise from now on.
    pub fn exit_visual_line(&mut self)
        ensures
            !final(self).is_visual_line(),
    {
        self.visual_lines = false;
    }

    /// Whether the flag is set.
    #[verifier::when_used_as_spec(spec_is_visual_line)]
    pub fn is_visual_line(&self) -> (set: bool)
        ensures
            set == self.spec_is_visual_line(),
    {
        self.visual_lines
    }
}

impl Default for AtomicState {
    fn default() -> (state: AtomicState)
        ensures
            !state.is_visual_line(),
    {
        AtomicState::new()
    }
}

} // verus!
