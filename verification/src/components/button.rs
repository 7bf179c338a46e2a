//! A clickable rectangle with a caller-supplied action.

use vstd::prelude::*;
use crate::{Color, LayoutError};
use crate::components::component::{box_valid_rat, ComponentBasicResizeData, Point};
use crate::components::clickable::fresh_basic_exec;
use crate::components::plain::fresh_basic;
use crate::shapes::quad::Quad;

verus! {

/// A clickable leaf whose click events carry a swappable callback handle
/// instead of a fixed hook.
#[derive(Clone, Copy, Debug)]
pub struct ButtonComponent {
    pub basic: ComponentBasicResizeData,
    pub color: Color,
    pub quad: Quad,
    pub callback: u64,
}

impl ButtonComponent {
    /// A new button, dirty, holding the given relative box; `callback` is
    /// the handle delivered with every click on it.  Rejects an inverted
    /// box.
    pub fn new(top_left: Point, bottom_right: Point, color: Color, callback: u64) -> (r: Result<
        ButtonComponent,
        LayoutError,
    >)
        requires
            top_left.wf(),
            bottom_right.wf(),
        ensures
            (match r {
                Ok(c) => {
                    &&& box_valid_rat(top_left@, bottom_right@)
                    &&& c.basic == fresh_basic(top_left, bottom_right)
                    &&& c.color == color
                    &&& c.quad == (Quad { top_left, bottom_right, color })
                    &&& c.callback == callback
                }
                Err(e) => e == LayoutError::DegenerateRectangle && !box_valid_rat(
                    top_left@,
                    bottom_right@,
                ),
            }),
    {
        if top_left.x.lt(&bottom_right.x) && bottom_right.y.lt(&top_left.y) {
            Ok(
                ButtonComponent {
                    basic: fresh_basic_exec(top_left, bottom_right),
                    color,
                    quad: Quad { top_left, bottom_right, color },
                    callback,
                },
            )
        } else {
            Err(LayoutError::DegenerateRectangle)
        }
    }
}

} // verus!
