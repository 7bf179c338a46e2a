//! A colour-filled rectangle that reports clicks.

use vstd::prelude::*;
use crate::{Color, LayoutError};
use crate::components::component::{box_valid_rat, Point};
use crate::components::plain::fresh_basic;
use crate::components::component::ComponentBasicResizeData;
use crate::shapes::quad::Quad;

verus! {

/// A leaf widget like the plain one whose hook, named by `action`, is
/// invoked when a click lands inside its box.
#[derive(Clone, Copy, Debug)]
pub struct ClickableComponent {
    pub basic: ComponentBasicResizeData,
    pub color: Color,
    pub quad: Quad,
    pub action: u64,
}

impl ClickableComponent {
    /// A new leaf, dirty, holding the given relative box; `action` names the
    /// hook that its click events carry.  Rejects an inverted box.
    pub fn new(top_left: Point, bottom_right: Point, color: Color, action: u64) -> (r: Result<
        ClickableComponent,
        LayoutError,
    >)
        requires
            top_left.wf(),
            bottom_right.wf(),
        ensures
            (match r {
                Ok(c) => {
                    &&& box_valid_rat(top_left@, bottom_right@)
                    &&& c.basic == fresh_basic(top_left, bottom_right)
                    &&& c.color == color
                    &&& c.quad == (Quad { top_left, bottom_right, color })
                    &&& c.action == action
                }
                Err(e) => e == LayoutError::DegenerateRectangle && !box_valid_rat(
                    top_left@,
                    bottom_right@,
                ),
            }),
    {
        if top_left.x.lt(&bottom_right.x) && bottom_right.y.lt(&top_left.y) {
            Ok(
                ClickableComponent {
                    basic: fresh_basic_exec(top_left, bottom_right),
                    color,
                    quad: Quad { top_left, bottom_right, color },
                    action,
                },
            )
        } else {
            Err(LayoutError::DegenerateRectangle)
        }
    }
}

/// Executable twin of [`fresh_basic`].
pub fn fresh_basic_exec(top_left: Point, bottom_right: Point) -> (r: ComponentBasicResizeData)
    ensures
        r == fresh_basic(top_left, bottom_right),
{
    ComponentBasicResizeData {
        top_left,
        bottom_right,
        needs_resize: true,
        absolute: crate::components::component::ComponentBasicData { top_left, bottom_right },
    }
}

} // verus!
