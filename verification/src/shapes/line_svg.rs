//! A glyph's line segments, in glyph space and resolved to view space.

use vstd::prelude::*;
use crate::Color;
use crate::svg::Line;

verus! {

/// The renderable form of one glyph: the segments in the unit glyph box as
/// supplied by the font backend, and, once resolved, the same segments in
/// absolute view-space coordinates.
#[derive(Clone, Debug)]
pub struct LineSvg {
    pub lines: Vec<Line>,
    pub color: Color,
    pub abs_lines: Vec<Line>,
}

impl LineSvg {
    pub open spec fn wf(self) -> bool {
        &&& forall|i: int| 0 <= i < self.lines@.len() ==> (#[trigger] self.lines@[i]).wf()
        &&& forall|i: int| 0 <= i < self.abs_lines@.len() ==> (#[trigger] self.abs_lines@[i]).wf()
    }

    pub fn new(lines: Vec<Line>, color: Color) -> (r: LineSvg)
        requires
            forall|i: int| 0 <= i < lines@.len() ==> (#[trigger] lines@[i]).wf(),
        ensures
            r.wf(),
            r.lines@ == lines@,
            r.color == color,
            r.abs_lines@.len() == 0,
    {
        LineSvg { lines, color, abs_lines: Vec::new() }
    }
}

} // verus!
