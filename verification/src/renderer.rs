//! The linear walker's progress state: which step the renderer is on and
//! how many steps the document holds. Painting itself happens outside the
//! library, against these counters.

use vstd::prelude::*;

verus! {

/// Progress counters for the confirm-to-continue walker.
#[derive(Debug, Clone, PartialEq)]
pub struct Renderer {
    /// The step most recently rendered, 0 before the first
    pub current_step: usize,
    /// How many steps the document holds
    pub total_steps: usize,
}

impl Renderer {
    pub fn new() -> (r: Renderer)
        ensures
            r.current_step == 0,
            r.total_steps == 0,
    {
        Renderer { current_step: 0, total_steps: 0 }
    }

    pub fn set_total_steps(&mut self, total: usize)
        ensures
            final(self).total_steps == total,
            final(self).current_step == old(self).current_step,
    {
        self.total_steps = total;
    }

    /// Move the walker to the next step; the counter sticks at the machine
    /// limit rather than wrapping.
    pub fn advance_step(&mut self)
        ensures
            old(self).current_step < usize::MAX
                ==> final(self).current_step == old(self).current_step + 1,
            old(self).current_step == usize::MAX ==> final(self).current_step == usize::MAX,
            final(self).total_steps == old(self).total_steps,
    {
        if self.current_step < usize::MAX {
            self.current_step = self.current_step + 1;
        }
    }
}

impl Default for Renderer {
    fn default() -> (r: Renderer)
        ensures
            r.current_step == 0,
            r.total_steps == 0,
    {
        Renderer::new()
    }
}

}
