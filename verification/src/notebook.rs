//! Per-notebook output state.  Rendering a notebook walks its sections and
//! writes one table-of-contents page; the walk itself is input / output work
//! done by the surrounding program, so the notebook renderer carries no state
//! of its own.
use vstd::prelude::*;

verus! {

/// Renders one notebook.
pub struct Renderer;

impl Renderer {
    /// A fresh notebook renderer.
    pub fn new() -> (r: Renderer) {
        Renderer
    }
}

} // verus!
