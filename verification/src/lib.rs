use vstd::prelude::*;

pub mod components;
pub mod rational;
pub mod shapes;
pub mod svg;

verus! {

/// A flat colour, one byte per channel.
#[derive(Clone, Copy, Debug, PartialEq, Eq, Structural)]
pub struct Color {
    pub r: u8,
    pub g: u8,
    pub b: u8,
}

/// The errors of the layout engine.
#[derive(Clone, Copy, Debug, PartialEq, Eq, Structural)]
pub enum LayoutError {
    /// A relative box has its corners inverted on some axis.
    DegenerateRectangle,
    /// The font backend supplied no outline for the requested glyph.
    MissingGlyph,
    /// An exact coordinate no longer fits the 64-bit representation.
    NumericOverflow,
}

/// A click delivered to a widget: the widget's action handle and the
/// pointer position in view space.
#[derive(Clone, Copy, Debug)]
pub struct ClickEvent {
    pub action: u64,
    pub position: crate::components::component::Point,
}

/// What the renderer backend is asked to draw.
#[derive(Clone, Debug)]
pub enum DrawCommand {
    /// A flat-colour quad between two absolute view-space corners.
    Quad(crate::shapes::quad::Quad),
    /// A set of absolute view-space line segments in one colour.
    Lines { lines: Vec<crate::svg::Line>, color: Color },
}

/// The render state that the entry point would otherwise hard-code: the
/// clear colour of the canvas and the box of the root container.
#[derive(Clone, Copy, Debug)]
pub struct UiConfig {
    pub clear_color: Color,
    pub root_top_left: crate::components::component::Point,
    pub root_bottom_right: crate::components::component::Point,
}

} // verus!
