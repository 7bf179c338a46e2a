//! The container node: an ordered list of owned children.

use vstd::prelude::*;
use crate::LayoutError;
use crate::components::component::{box_valid_rat, Component, ComponentBasicResizeData, Point};
use crate::components::clickable::fresh_basic_exec;
use crate::components::plain::fresh_basic;

verus! {

/// A container that resolves its own box and propagates rendering, resizes
/// and clicks to its children in insertion order.
#[derive(Debug)]
pub struct LayoutComponent {
    pub basic: ComponentBasicResizeData,
    pub components: Vec<Component>,
}

impl LayoutComponent {
    /// A new container with no children, dirty, holding the given relative
    /// box.  Rejects an inverted box.
    pub fn new(top_left: Point, bottom_right: Point) -> (r: Result<LayoutComponent, LayoutError>)
        requires
            top_left.wf(),
            bottom_right.wf(),
        ensures
            (match r {
                Ok(c) => {
                    &&& box_valid_rat(top_left@, bottom_right@)
                    &&& c.basic == fresh_basic(top_left, bottom_right)
                    &&& c.components@.len() == 0
                }
                Err(e) => e == LayoutError::DegenerateRectangle && !box_valid_rat(
                    top_left@,
                    bottom_right@,
                ),
            }),
    {
        if top_left.x.lt(&bottom_right.x) && bottom_right.y.lt(&top_left.y) {
            Ok(LayoutComponent { basic: fresh_basic_exec(top_left, bottom_right), components: Vec::new() })
        } else {
            Err(LayoutError::DegenerateRectangle)
        }
    }

    /// Appends a child; the child will resolve against this container's box
    /// on the next render.
    pub fn add_component(&mut self, component: Component)
        ensures
            final(self).basic == old(self).basic,
            final(self).components@ == old(self).components@.push(component),
    {
        self.components.push(component);
    }
}

} // verus!
