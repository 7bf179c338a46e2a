//! A leaf widget rendering one glyph as line segments.

use vstd::prelude::*;
use crate::LayoutError;
use crate::Color;
use crate::components::component::{box_valid_rat, ComponentBasicResizeData, Point};
use crate::components::clickable::fresh_basic_exec;
use crate::components::plain::fresh_basic;
use crate::rational::{rat_int, Frac};
use crate::shapes::line_svg::LineSvg;
use crate::svg::{lines_of, Svg};

verus! {

/// How a glyph sits inside its box: the glyph box spans the given
/// percentages of the widget box on each axis, drawn in the given colour.
#[derive(Clone, Copy, Debug)]
pub struct FontStyle {
    pub size_x: Frac,
    pub size_y: Frac,
    pub color: Color,
}

impl FontStyle {
    pub open spec fn wf(self) -> bool {
        self.size_x.wf() && self.size_y.wf()
    }
}

/// A leaf widget holding one glyph's outline, decomposed into line segments
/// in the unit glyph box, and rescaling them into its absolute box whenever
/// it turns clean.
#[derive(Clone, Debug)]
pub struct TextComponent {
    pub basic: ComponentBasicResizeData,
    pub font_style: FontStyle,
    pub svg: LineSvg,
}

impl TextComponent {
    /// A new text leaf, dirty, with the glyph's segments taken from the
    /// outline.  Rejects an inverted box; fails with `MissingGlyph` when the
    /// outline holds no segment, and with `NumericOverflow` when
    /// normalising the outline overflows.
    pub fn new(top_left: Point, bottom_right: Point, svg: Svg, font_style: FontStyle) -> (r:
        Result<TextComponent, LayoutError>)
        requires
            top_left.wf(),
            bottom_right.wf(),
            svg.wf(),
            font_style.wf(),
        ensures
            (match r {
                Ok(c) => {
                    &&& box_valid_rat(top_left@, bottom_right@)
                    &&& c.basic == fresh_basic(top_left, bottom_right)
                    &&& c.font_style == font_style
                    &&& c.svg.color == font_style.color
                    &&& c.svg.abs_lines@.len() == 0
                    &&& c.svg.wf()
                    &&& lines_of(
                        svg.commands_view(),
                        0,
                        (rat_int(0), rat_int(0)),
                        svg.width_spec(),
                        svg.height_spec(),
                    ) matches Some(s)
                    &&& c.svg.lines@.len() == s.len()
                    &&& s.len() > 0
                    &&& forall|k: int|
                        0 <= k < s.len() ==> ((#[trigger] c.svg.lines@[k]).x1@, c.svg.lines@[k].y1@,
                        c.svg.lines@[k].x2@, c.svg.lines@[k].y2@) == s[k]
                }
                Err(e) => {
                    ||| (e == LayoutError::DegenerateRectangle && !box_valid_rat(
                        top_left@,
                        bottom_right@,
                    ))
                    ||| (e == LayoutError::NumericOverflow && box_valid_rat(
                        top_left@,
                        bottom_right@,
                    ) && lines_of(
                        svg.commands_view(),
                        0,
                        (rat_int(0), rat_int(0)),
                        svg.width_spec(),
                        svg.height_spec(),
                    ) is None)
                    ||| (e == LayoutError::MissingGlyph && box_valid_rat(
                        top_left@,
                        bottom_right@,
                    ) && lines_of(
                        svg.commands_view(),
                        0,
                        (rat_int(0), rat_int(0)),
                        svg.width_spec(),
                        svg.height_spec(),
                    ) == Some(Seq::<(crate::rational::Rat, crate::rational::Rat,
                    crate::rational::Rat, crate::rational::Rat)>::empty()))
                }
            }),
    {
        if !(top_left.x.lt(&bottom_right.x) && bottom_right.y.lt(&top_left.y)) {
            return Err(LayoutError::DegenerateRectangle);
        }
        match svg.get_lines() {
            None => Err(LayoutError::NumericOverflow),
            Some(lines) => {
                if lines.len() == 0 {
                    proof {
                        assert(lines_of(
                            svg.commands_view(),
                            0,
                            (rat_int(0), rat_int(0)),
                            svg.width_spec(),
                            svg.height_spec(),
                        ) matches Some(s) && s.len() == 0);
                        let s = lines_of(
                            svg.commands_view(),
                            0,
                            (rat_int(0), rat_int(0)),
                            svg.width_spec(),
                            svg.height_spec(),
                        )->Some_0;
                        assert(s =~= Seq::empty());
                    }
                    Err(LayoutError::MissingGlyph)
                } else {
                    Ok(
                        TextComponent {
                            basic: fresh_basic_exec(top_left, bottom_right),
                            font_style,
                            svg: LineSvg::new(lines, font_style.color),
                        },
                    )
                }
            }
        }
    }
}

} // verus!
