//! Rendering front door.
//!
//! The renderer itself carries no state: pixel loops, color mapping and
//! image encoding live with the callers, outside the verified engine.

use vstd::prelude::*;

verus! {

/// Handle for rendering fractals to images.
#[derive(Debug, Clone, Copy, PartialEq, Eq, Structural)]
pub struct FractalRenderer;

impl FractalRenderer {
    /// Create a new fractal renderer.
    pub fn new() -> (r: FractalRenderer)
        ensures
            r == (FractalRenderer {  }),
    {
        FractalRenderer {  }
    }
}

} // verus!
