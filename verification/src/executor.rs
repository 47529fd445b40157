//! The interactive executor's state: the renderer it walks the document
//! with. The walk itself — painting and dropping into a sub-shell between
//! steps — happens outside the library.

use vstd::prelude::*;

use crate::renderer::Renderer;

verus! {

/// The confirm-to-continue walker's session state.
#[derive(Debug, Clone, PartialEq)]
pub struct InteractiveExecutor {
    /// The renderer tracking walk progress
    pub renderer: Renderer,
}

impl InteractiveExecutor {
    pub fn new() -> (r: InteractiveExecutor)
        ensures
            r.renderer.current_step == 0,
            r.renderer.total_steps == 0,
    {
        InteractiveExecutor { renderer: Renderer::new() }
    }
}

impl Default for InteractiveExecutor {
    fn default() -> (r: InteractiveExecutor)
        ensures
            r.renderer.current_step == 0,
            r.renderer.total_steps == 0,
    {
        InteractiveExecutor::new()
    }
}

}
