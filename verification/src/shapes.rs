//! The drawable primitives that leaf widgets regenerate from their boxes.

pub mod line_svg;
pub mod quad;
