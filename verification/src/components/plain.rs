//! A colour-filled rectangle with no click behaviour.

use vstd::prelude::*;
use crate::{Color, LayoutError};
use crate::components::component::{box_valid_rat, ComponentBasicData, ComponentBasicResizeData, Point};
use crate::shapes::quad::Quad;

verus! {

/// A leaf widget drawing its whole box in one colour.
#[derive(Clone, Copy, Debug)]
pub struct PlainComponent {
    pub basic: ComponentBasicResizeData,
    pub color: Color,
    pub quad: Quad,
}

impl PlainComponent {
    /// A new leaf, dirty, holding the given relative box.  Rejects a box
    /// whose corners are inverted on either axis.
    pub fn new(top_left: Point, bottom_right: Point, color: Color) -> (r: Result<
        PlainComponent,
        LayoutError,
    >)
        requires
            top_left.wf(),
            bottom_right.wf(),
        ensures
            (match r {
                Ok(c) => {
                    &&& box_valid_rat(top_left@, bottom_right@)
                    &&& c.basic == fresh_basic(top_left, bottom_right)
                    &&& c.color == color
                    &&& c.quad == (Quad { top_left, bottom_right, color })
                }
                Err(e) => e == LayoutError::DegenerateRectangle && !box_valid_rat(
                    top_left@,
                    bottom_right@,
                ),
            }),
    {
        if top_left.x.lt(&bottom_right.x) && bottom_right.y.lt(&top_left.y) {
            Ok(
                PlainComponent {
                    basic: ComponentBasicResizeData {
                        top_left,
                        bottom_right,
                        needs_resize: true,
                        absolute: ComponentBasicData { top_left, bottom_right },
                    },
                    color,
                    quad: Quad { top_left, bottom_right, color },
                },
            )
        } else {
            Err(LayoutError::DegenerateRectangle)
        }
    }
}

/// The state every freshly constructed node starts from: the given relative
/// box, marked dirty, with the relative box standing in for the not yet
/// resolved absolute box.
pub open spec fn fresh_basic(top_left: Point, bottom_right: Point) -> ComponentBasicResizeData {
    ComponentBasicResizeData {
        top_left,
        bottom_right,
        needs_resize: true,
        absolute: ComponentBasicData { top_left, bottom_right },
    }
}

} // verus!
