//! Glyph outlines as line segments.
//!
//! The font backend hands the engine one glyph's outline as a list of path
//! commands together with the glyph's bounding-box extent.  [`Svg::get_lines`]
//! flattens that outline into straight line segments — curve commands
//! contribute their chord — and normalises every coordinate by the bounding
//! box, so the result lives in the unit glyph box.

use vstd::prelude::*;
use crate::rational::{
    Frac, Rat, rat_eq, rat_inv, rat_int, rat_lt, rat_wf, try_rat_mul,
};

verus! {

/// One straight line segment.
#[derive(Clone, Copy, Debug)]
pub struct Line {
    pub x1: Frac,
    pub y1: Frac,
    pub x2: Frac,
    pub y2: Frac,
}

impl Line {
    pub open spec fn wf(self) -> bool {
        self.x1.wf() && self.y1.wf() && self.x2.wf() && self.y2.wf()
    }
}

/// One command of a glyph outline path.
#[derive(Clone, Copy, Debug)]
pub enum PathCommand {
    MoveTo { x: Frac, y: Frac },
    LineTo { x: Frac, y: Frac },
    QuadTo { x1: Frac, y1: Frac, x: Frac, y: Frac },
    CurveTo { x1: Frac, y1: Frac, x2: Frac, y2: Frac, x: Frac, y: Frac },
    Close,
}

pub open spec fn path_command_wf(c: PathCommand) -> bool {
    match c {
        PathCommand::MoveTo { x, y } => x.wf() && y.wf(),
        PathCommand::LineTo { x, y } => x.wf() && y.wf(),
        PathCommand::QuadTo { x1, y1, x, y } => x1.wf() && y1.wf() && x.wf() && y.wf(),
        PathCommand::CurveTo { x1, y1, x2, y2, x, y } => x1.wf() && y1.wf() && x2.wf() && y2.wf()
            && x.wf() && y.wf(),
        PathCommand::Close => true,
    }
}

/// Collects the outline commands that a font backend reports for a glyph.
pub struct Builder(pub Vec<PathCommand>);

impl Builder {
    pub open spec fn wf(self) -> bool {
        forall|i: int| 0 <= i < self.0@.len() ==> path_command_wf(#[trigger] self.0@[i])
    }

    pub fn new() -> (r: Builder)
        ensures
            r.wf(),
            r.0@.len() == 0,
    {
        Builder(Vec::new())
    }

    pub fn move_to(&mut self, x: Frac, y: Frac)
        requires
            old(self).wf(),
            x.wf(),
            y.wf(),
        ensures
            final(self).wf(),
            final(self).0@ == old(self).0@.push(PathCommand::MoveTo { x, y }),
    {
        self.0.push(PathCommand::MoveTo { x, y });
    }

    pub fn line_to(&mut self, x: Frac, y: Frac)
        requires
            old(self).wf(),
            x.wf(),
            y.wf(),
        ensures
            final(self).wf(),
            final(self).0@ == old(self).0@.push(PathCommand::LineTo { x, y }),
    {
        self.0.push(PathCommand::LineTo { x, y });
    }

    pub fn quad_to(&mut self, x1: Frac, y1: Frac, x: Frac, y: Frac)
        requires
            old(self).wf(),
            x1.wf(),
            y1.wf(),
            x.wf(),
            y.wf(),
        ensures
            final(self).wf(),
            final(self).0@ == old(self).0@.push(PathCommand::QuadTo { x1, y1, x, y }),
    {
        self.0.push(PathCommand::QuadTo { x1, y1, x, y });
    }

    pub fn curve_to(&mut self, x1: Frac, y1: Frac, x2: Frac, y2: Frac, x: Frac, y: Frac)
        requires
            old(self).wf(),
            x1.wf(),
            y1.wf(),
            x2.wf(),
            y2.wf(),
            x.wf(),
            y.wf(),
        ensures
            final(self).wf(),
            final(self).0@ == old(self).0@.push(PathCommand::CurveTo { x1, y1, x2, y2, x, y }),
    {
        self.0.push(PathCommand::CurveTo { x1, y1, x2, y2, x, y });
    }

    pub fn close(&mut self)
        requires
            old(self).wf(),
        ensures
            final(self).wf(),
            final(self).0@ == old(self).0@.push(PathCommand::Close),
    {
        self.0.push(PathCommand::Close);
    }
}

/// The model of one segment after normalisation: both endpoints divided by
/// the bounding-box extent.
pub open spec fn norm_point(x: Rat, y: Rat, w: Rat, h: Rat) -> Option<(Rat, Rat)> {
    match try_rat_mul(x, rat_inv(w)) {
        Some(nx) => match try_rat_mul(y, rat_inv(h)) {
            Some(ny) => Some((nx, ny)),
            None => None,
        },
        None => None,
    }
}

/// The pen position after a command, given the one before it.
pub open spec fn pen_after(c: PathCommand, pos: (Rat, Rat)) -> (Rat, Rat) {
    match c {
        PathCommand::MoveTo { x, y } => (x@, y@),
        PathCommand::LineTo { x, y } => (x@, y@),
        PathCommand::QuadTo { x1, y1, x, y } => (x@, y@),
        PathCommand::CurveTo { x1, y1, x2, y2, x, y } => pos,
        PathCommand::Close => pos,
    }
}

/// Whether a command draws a segment from the current pen position to its
/// endpoint.  Lines and the chords of quadratic curves draw; moves, cubic
/// curves and close commands do not.
pub open spec fn draws_segment(c: PathCommand) -> bool {
    c matches PathCommand::LineTo { .. } || c matches PathCommand::QuadTo { .. }
}

/// The normalised segments of the commands from index `i` on, with pen
/// position `pos`, or `None` if a normalisation overflows.
pub open spec fn lines_of(
    cmds: Seq<PathCommand>,
    i: int,
    pos: (Rat, Rat),
    w: Rat,
    h: Rat,
) -> Option<Seq<(Rat, Rat, Rat, Rat)>>
    decreases cmds.len() - i,
{
    if i < 0 || i >= cmds.len() {
        Some(Seq::empty())
    } else {
        let c = cmds[i];
        let next = pen_after(c, pos);
        let rest = lines_of(cmds, i + 1, next, w, h);
        if draws_segment(c) {
            match (norm_point(pos.0, pos.1, w, h), norm_point(next.0, next.1, w, h)) {
                (Some(p1), Some(p2)) => match rest {
                    Some(r) => Some(seq![(p1.0, p1.1, p2.0, p2.1)] + r),
                    None => None,
                },
                _ => None,
            }
        } else {
            rest
        }
    }
}

/// A glyph outline: the path commands of one glyph and the extent of its
/// bounding box, in font units.
pub struct Svg {
    commands: Vec<PathCommand>,
    width: Frac,
    height: Frac,
}

impl Svg {
    pub closed spec fn commands_view(&self) -> Seq<PathCommand> {
        self.commands@
    }

    pub closed spec fn width_spec(&self) -> Rat {
        self.width@
    }

    pub closed spec fn height_spec(&self) -> Rat {
        self.height@
    }

    pub closed spec fn wf(&self) -> bool {
        &&& forall|i: int|
            0 <= i < self.commands@.len() ==> path_command_wf(#[trigger] self.commands@[i])
        &&& self.width.wf()
        &&& self.height.wf()
        &&& rat_lt(rat_int(0), self.width@)
        &&& rat_lt(rat_int(0), self.height@)
    }

    /// A glyph outline; the bounding box must have positive extent.
    pub fn new(builder: Builder, width: Frac, height: Frac) -> (r: Svg)
        requires
            builder.wf(),
            width.wf(),
            height.wf(),
            rat_lt(rat_int(0), width@),
            rat_lt(rat_int(0), height@),
        ensures
            r.wf(),
            r.commands_view() == builder.0@,
            r.width_spec() == width@,
            r.height_spec() == height@,
    {
        Svg { commands: builder.0, width, height }
    }

    /// Flattens the outline into normalised line segments: each line or
    /// quadratic-curve command contributes the segment from the pen position
    /// to its endpoint, both divided by the bounding-box extent.  Fails only
    /// when a normalisation overflows the coordinate range.
    pub fn get_lines(&self) -> (r: Option<Vec<Line>>)
        requires
            self.wf(),
        ensures
            (match r {
                Some(v) => {
                    &&& lines_of(
                        self.commands_view(),
                        0,
                        (rat_int(0), rat_int(0)),
                        self.width_spec(),
                        self.height_spec(),
                    ) matches Some(s)
                    &&& v@.len() == s.len()
                    &&& forall|k: int|
                        0 <= k < s.len() ==> {
                            &&& (#[trigger] v@[k]).wf()
                            &&& v@[k].x1@ == s[k].0
                            &&& v@[k].y1@ == s[k].1
                            &&& v@[k].x2@ == s[k].2
                            &&& v@[k].y2@ == s[k].3
                        }
                }
                None => lines_of(
                    self.commands_view(),
                    0,
                    (rat_int(0), rat_int(0)),
                    self.width_spec(),
                    self.height_spec(),
                ) is None,
            }),
    {
        let winv = self.width.invert();
        let hinv = self.height.invert();
        let mut out: Vec<Line> = Vec::new();
        let mut cx = Frac::from_int(0);
        let mut cy = Frac::from_int(0);
        let mut i: usize = 0;
        let ghost cmds = self.commands@;
        let ghost w = self.width@;
        let ghost h = self.height@;
        #[verifier::loop_isolation(false)]
        while i < self.commands.len()
            invariant
                i <= cmds.len(),
                cx.wf(),
                cy.wf(),
                forall|k: int| 0 <= k < out@.len() ==> (#[trigger] out@[k]).wf(),
                (match lines_of(cmds, i as int, (cx@, cy@), w, h) {
                    Some(rest) => {
                        &&& lines_of(cmds, 0, (rat_int(0), rat_int(0)), w, h) matches Some(all)
                        &&& all.len() == out@.len() + rest.len()
                        &&& forall|k: int|
                            0 <= k < out@.len() ==> {
                                &&& all[k] == ((#[trigger] out@[k]).x1@, out@[k].y1@, out@[k].x2@,
                                out@[k].y2@)
                            }
                        &&& forall|k: int|
                            out@.len() <= k < all.len() ==> all[k] == rest[k - out@.len()]
                    }
                    None => lines_of(cmds, 0, (rat_int(0), rat_int(0)), w, h) is None,
                }),
            decreases cmds.len() - i,
        {
            let c = self.commands[i];
            let ghost pos = (cx@, cy@);
            let mut draws: bool = false;
            let mut nx = cx;
            let mut ny = cy;
            match c {
                PathCommand::MoveTo { x, y } => {
                    nx = x;
                    ny = y;
                }
                PathCommand::LineTo { x, y } => {
                    nx = x;
                    ny = y;
                    draws = true;
                }
                PathCommand::QuadTo { x1: _, y1: _, x, y } => {
                    nx = x;
                    ny = y;
                    draws = true;
                }
                PathCommand::CurveTo { .. } => {}
                PathCommand::Close => {}
            }
            assert((nx@, ny@) == pen_after(c, pos));
            assert(draws == draws_segment(c));
            if draws {
                let sx1 = cx.try_mul(&winv);
                let sy1 = cy.try_mul(&hinv);
                let sx2 = nx.try_mul(&winv);
                let sy2 = ny.try_mul(&hinv);
                match (sx1, sy1, sx2, sy2) {
                    (Some(a), Some(b), Some(d), Some(e)) => {
                        out.push(Line { x1: a, y1: b, x2: d, y2: e });
                    }
                    _ => {
                        assert(norm_point(pos.0, pos.1, w, h) is None || norm_point(
                            pen_after(c, pos).0,
                            pen_after(c, pos).1,
                            w,
                            h,
                        ) is None);
                        return None;
                    }
                }
            }
            cx = nx;
            cy = ny;
            i = i + 1;
        }
        Some(out)
    }
}

} // verus!
