//! A flat-colour quad between two absolute corners.

use vstd::prelude::*;
use crate::Color;
use crate::components::component::Point;

verus! {

/// The geometry of a colour-filled rectangle, in absolute view-space
/// coordinates.
#[derive(Clone, Copy, Debug)]
pub struct Quad {
    pub top_left: Point,
    pub bottom_right: Point,
    pub color: Color,
}

impl Quad {
    pub open spec fn wf(self) -> bool {
        self.top_left.wf() && self.bottom_right.wf()
    }

    pub fn new(top_left: Point, bottom_right: Point, color: Color) -> (r: Quad)
        ensures
            r == (Quad { top_left, bottom_right, color }),
    {
        Quad { top_left, bottom_right, color }
    }
}

} // verus!
