//! The interface between the scheduler and a presentation sink.

use vstd::prelude::*;
use crate::canvas::Canvas;

verus! {

/// A sink that presents a canvas once per frame.
pub trait Renderer {
    /// Presents the canvas. Returns whether the sketch is to go on; `false`
    /// is the one signal by which a sink stops it.
    fn update(&mut self, canvas: &Canvas) -> bool;
}

} // verus!
