//! Points, the coordinate mapper, and the laws it obeys.
//!
//! Rectangles live in *view space*, the square from (-1, 1) down to (1, -1)
//! with the vertical axis growing upward.  Interpolation happens in *compute
//! space*, the unit square with the vertical axis growing downward.  The
//! functions of [`ComponentUtils`] convert between the two and place a
//! relative box inside a parent box; their exact behaviour is given by the
//! `*_rat` spec functions over [`Rat`] pairs.

use vstd::prelude::*;
use crate::{ClickEvent, Color, DrawCommand, LayoutError};
use crate::components::button::ButtonComponent;
use crate::components::clickable::ClickableComponent;
use crate::components::layout::LayoutComponent;
use crate::components::plain::PlainComponent;
use crate::components::text::TextComponent;
use crate::shapes::line_svg::LineSvg;
use crate::shapes::quad::Quad;
use crate::svg::Line;
use crate::rational::{
    Frac, Rat, rat_add, rat_eq, rat_fits, rat_lt, rat_mul, rat_neg, rat_sub, rat_wf,
    try_rat_add, try_rat_mul, try_rat_sub,
    lemma_add_wf_auto, lemma_sub_wf_auto, lemma_mul_wf_auto, lemma_neg_wf_auto,
    lemma_congruence, lemma_rat_add_assoc, lemma_rat_cancel_sub_add, lemma_rat_eq_scaled,
    lemma_rat_eq_trans, lemma_rat_mul_assoc, lemma_rat_mul_distrib_add, lemma_rat_mul_distrib_sub,
    lemma_try_ops_exact,
};

verus! {

/// Model of a point: a pair of exact rationals.
pub struct RatPoint {
    pub x: Rat,
    pub y: Rat,
}

pub open spec fn rpt_wf(p: RatPoint) -> bool {
    rat_wf(p.x) && rat_wf(p.y)
}

/// Both coordinates are equal in value.
pub open spec fn rpt_eq(p: RatPoint, q: RatPoint) -> bool {
    rat_eq(p.x, q.x) && rat_eq(p.y, q.y)
}

/// An executable point.
#[derive(Clone, Copy, Debug)]
pub struct Point {
    pub x: Frac,
    pub y: Frac,
}

impl View for Point {
    type V = RatPoint;

    open spec fn view(&self) -> RatPoint {
        RatPoint { x: self.x@, y: self.y@ }
    }
}

impl Point {
    pub open spec fn wf(self) -> bool {
        self.x.wf() && self.y.wf()
    }

    pub fn new(x: Frac, y: Frac) -> (r: Point)
        ensures
            r == (Point { x, y }),
    {
        Point { x, y }
    }
}

pub open spec fn rat_one() -> Rat {
    Rat { n: 1, d: 1 }
}

pub open spec fn rat_two() -> Rat {
    Rat { n: 2, d: 1 }
}

pub open spec fn rat_half() -> Rat {
    Rat { n: 1, d: 2 }
}

/// Top-left corner of the full view-space canvas.
pub open spec fn full_view_top_left() -> RatPoint {
    RatPoint { x: Rat { n: -1, d: 1 }, y: Rat { n: 1, d: 1 } }
}

/// Bottom-right corner of the full view-space canvas.
pub open spec fn full_view_bottom_right() -> RatPoint {
    RatPoint { x: Rat { n: 1, d: 1 }, y: Rat { n: -1, d: 1 } }
}

/// One horizontal axis of the view-to-compute map: `(v + 1) / 2`.
pub open spec fn v2c_x_rat(a: Rat) -> Rat {
    rat_mul(rat_add(a, rat_one()), rat_half())
}

/// One vertical axis of the view-to-compute map: `(-v + 1) / 2`.
pub open spec fn v2c_y_rat(a: Rat) -> Rat {
    rat_mul(rat_add(rat_neg(a), rat_one()), rat_half())
}

/// One horizontal axis of the compute-to-view map: `2 c - 1`.
pub open spec fn c2v_x_rat(a: Rat) -> Rat {
    rat_sub(rat_mul(a, rat_two()), rat_one())
}

/// One vertical axis of the compute-to-view map: `-(2 c - 1)`.
pub open spec fn c2v_y_rat(a: Rat) -> Rat {
    rat_neg(c2v_x_rat(a))
}

/// View to compute space: negate the vertical axis, add one to both axes,
/// halve both axes.
pub open spec fn view_to_compute_rat(p: RatPoint) -> RatPoint {
    RatPoint { x: v2c_x_rat(p.x), y: v2c_y_rat(p.y) }
}

/// Compute to view space: double both axes, subtract one, negate the
/// vertical axis.  Exact inverse of [`view_to_compute_rat`].
pub open spec fn compute_to_view_rat(p: RatPoint) -> RatPoint {
    RatPoint { x: c2v_x_rat(p.x), y: c2v_y_rat(p.y) }
}

/// One horizontal axis of a whole resolution step.
pub open spec fn resolve_x_rat(p1: Rat, p2: Rat, b: Rat) -> Rat {
    c2v_x_rat(lerp_rat(v2c_x_rat(p1), v2c_x_rat(p2), v2c_x_rat(b)))
}

/// One vertical axis of a whole resolution step.
pub open spec fn resolve_y_rat(p1: Rat, p2: Rat, b: Rat) -> Rat {
    c2v_y_rat(lerp_rat(v2c_y_rat(p1), v2c_y_rat(p2), v2c_y_rat(b)))
}

/// One axis of the affine interpolation: `p1 + (p2 - p1) * t`.
pub open spec fn lerp_rat(p1: Rat, p2: Rat, t: Rat) -> Rat {
    rat_add(p1, rat_mul(rat_sub(p2, p1), t))
}

/// Per-axis interpolation of `t` inside the compute-space box `(ptl, pbr)`.
pub open spec fn interpolate_rat(ptl: RatPoint, pbr: RatPoint, t: RatPoint) -> RatPoint {
    RatPoint { x: lerp_rat(ptl.x, pbr.x, t.x), y: lerp_rat(ptl.y, pbr.y, t.y) }
}

/// Resolves the view-space point `p`, read as a fraction of the parent box,
/// into an absolute view-space point.
pub open spec fn resolve_point_rat(ptl: RatPoint, pbr: RatPoint, p: RatPoint) -> RatPoint {
    compute_to_view_rat(
        interpolate_rat(view_to_compute_rat(ptl), view_to_compute_rat(pbr), view_to_compute_rat(p)),
    )
}

/// Strictly inside the box: on-edge points are excluded on every side.
pub open spec fn in_bound_rat(tl: RatPoint, br: RatPoint, p: RatPoint) -> bool {
    &&& rat_lt(tl.x, p.x)
    &&& rat_lt(p.x, br.x)
    &&& rat_lt(p.y, tl.y)
    &&& rat_lt(br.y, p.y)
}

// ---------------------------------------------------------------------------
// Checked mirrors: what the 64-bit implementation returns, including the
// exact conditions under which it fails.
// ---------------------------------------------------------------------------

/// One axis of [`view_to_compute_rat`], checked.
pub open spec fn try_axis_v2c(a: Rat) -> Option<Rat> {
    match try_rat_add(a, rat_one()) {
        Some(s) => try_rat_mul(s, rat_half()),
        None => None,
    }
}

pub open spec fn try_view_to_compute(p: RatPoint) -> Option<RatPoint> {
    match (try_axis_v2c(p.x), try_axis_v2c(rat_neg(p.y))) {
        (Some(x), Some(y)) => Some(RatPoint { x, y }),
        _ => None,
    }
}

/// One axis of [`compute_to_view_rat`] before the vertical negation, checked.
pub open spec fn try_axis_c2v(a: Rat) -> Option<Rat> {
    match try_rat_mul(a, rat_two()) {
        Some(s) => try_rat_sub(s, rat_one()),
        None => None,
    }
}

pub open spec fn try_compute_to_view(p: RatPoint) -> Option<RatPoint> {
    match (try_axis_c2v(p.x), try_axis_c2v(p.y)) {
        (Some(x), Some(y)) => Some(RatPoint { x, y: rat_neg(y) }),
        _ => None,
    }
}

/// One axis of the interpolation, checked.
pub open spec fn try_axis_lerp(p1: Rat, p2: Rat, t: Rat) -> Option<Rat> {
    match try_rat_sub(p2, p1) {
        Some(diff) => match try_rat_mul(diff, t) {
            Some(scaled) => try_rat_add(p1, scaled),
            None => None,
        },
        None => None,
    }
}

pub open spec fn try_interpolate(ptl: RatPoint, pbr: RatPoint, t: RatPoint) -> Option<RatPoint> {
    match (try_axis_lerp(ptl.x, pbr.x, t.x), try_axis_lerp(ptl.y, pbr.y, t.y)) {
        (Some(x), Some(y)) => Some(RatPoint { x, y }),
        _ => None,
    }
}

pub open spec fn try_resolve_point(ptl: RatPoint, pbr: RatPoint, p: RatPoint) -> Option<RatPoint> {
    match (try_view_to_compute(ptl), try_view_to_compute(pbr), try_view_to_compute(p)) {
        (Some(ctl), Some(cbr), Some(t)) => match try_interpolate(ctl, cbr, t) {
            Some(q) => try_compute_to_view(q),
            None => None,
        },
        _ => None,
    }
}

pub open spec fn try_resolve_box(ptl: RatPoint, pbr: RatPoint, btl: RatPoint, bbr: RatPoint)
    -> Option<(RatPoint, RatPoint)> {
    match (try_resolve_point(ptl, pbr, btl), try_resolve_point(ptl, pbr, bbr)) {
        (Some(tl), Some(br)) => Some((tl, br)),
        _ => None,
    }
}

/// Relates an executable optional point to its model.
pub open spec fn opt_point_is(r: Option<Point>, s: Option<RatPoint>) -> bool {
    match r {
        Some(q) => q.wf() && s == Some(q@),
        None => s is None,
    }
}

// ---------------------------------------------------------------------------
// Executable coordinate mapper.
// ---------------------------------------------------------------------------

/// The stateless coordinate mapper used by every component.
pub struct ComponentUtils {}

impl ComponentUtils {
    /// Maps a view-space point into compute space.
    pub fn view_to_compute(point: &Point) -> (r: Option<Point>)
        requires
            point.wf(),
        ensures
            opt_point_is(r, try_view_to_compute(point@)),
    {
        let one = Frac::from_int(1);
        let half = Frac::new(1, 2);
        let nx = point.x.try_add(&one);
        let ny = point.y.neg().try_add(&one);
        match (nx, ny) {
            (Some(sx), Some(sy)) => {
                match (sx.try_mul(&half), sy.try_mul(&half)) {
                    (Some(cx), Some(cy)) => Some(Point { x: cx, y: cy }),
                    _ => None,
                }
            }
            _ => None,
        }
    }

    /// Maps a compute-space point back into view space.
    pub fn compute_to_view(point: &Point) -> (r: Option<Point>)
        requires
            point.wf(),
        ensures
            opt_point_is(r, try_compute_to_view(point@)),
    {
        let one = Frac::from_int(1);
        let two = Frac::from_int(2);
        let nx = point.x.try_mul(&two);
        let ny = point.y.try_mul(&two);
        match (nx, ny) {
            (Some(sx), Some(sy)) => {
                match (sx.try_sub(&one), sy.try_sub(&one)) {
                    (Some(cx), Some(cy)) => Some(Point { x: cx, y: cy.neg() }),
                    _ => None,
                }
            }
            _ => None,
        }
    }

    /// Per-axis affine interpolation of `point` inside the compute-space box.
    pub fn calculate_absolute(parent_top_left: &Point, parent_bottom_right: &Point, point: &Point)
        -> (r: Option<Point>)
        requires
            parent_top_left.wf(),
            parent_bottom_right.wf(),
            point.wf(),
        ensures
            opt_point_is(r, try_interpolate(parent_top_left@, parent_bottom_right@, point@)),
    {
        let dx = parent_bottom_right.x.try_sub(&parent_top_left.x);
        let dy = parent_bottom_right.y.try_sub(&parent_top_left.y);
        match (dx, dy) {
            (Some(ddx), Some(ddy)) => {
                match (ddx.try_mul(&point.x), ddy.try_mul(&point.y)) {
                    (Some(mx), Some(my)) => {
                        match (parent_top_left.x.try_add(&mx), parent_top_left.y.try_add(&my)) {
                            (Some(rx), Some(ry)) => Some(Point { x: rx, y: ry }),
                            _ => None,
                        }
                    }
                    _ => None,
                }
            }
            _ => None,
        }
    }

    /// Resolves one view-space point, read as a fraction of the parent box,
    /// to an absolute view-space point.
    pub fn calculate_absolute_point_from_relative_view_points(
        parent_top_left: &Point,
        parent_bottom_right: &Point,
        point: &Point,
    ) -> (r: Option<Point>)
        requires
            parent_top_left.wf(),
            parent_bottom_right.wf(),
            point.wf(),
        ensures
            opt_point_is(r, try_resolve_point(parent_top_left@, parent_bottom_right@, point@)),
    {
        let ctl = Self::view_to_compute(parent_top_left);
        let cbr = Self::view_to_compute(parent_bottom_right);
        let t = Self::view_to_compute(point);
        match (ctl, cbr, t) {
            (Some(a), Some(b), Some(c)) => {
                match Self::calculate_absolute(&a, &b, &c) {
                    Some(q) => Self::compute_to_view(&q),
                    None => None,
                }
            }
            _ => None,
        }
    }

    /// Resolves a whole relative box against the parent box.
    pub fn calculate_absolute_box_from_relative_view_points(
        parent_top_left: &Point,
        parent_bottom_right: &Point,
        box_top_left: &Point,
        box_bottom_right: &Point,
    ) -> (r: Option<(Point, Point)>)
        requires
            parent_top_left.wf(),
            parent_bottom_right.wf(),
            box_top_left.wf(),
            box_bottom_right.wf(),
        ensures
            (match r {
                Some(q) => {
                    &&& q.0.wf()
                    &&& q.1.wf()
                    &&& try_resolve_box(
                        parent_top_left@,
                        parent_bottom_right@,
                        box_top_left@,
                        box_bottom_right@,
                    ) == Some((q.0@, q.1@))
                }
                None => try_resolve_box(
                    parent_top_left@,
                    parent_bottom_right@,
                    box_top_left@,
                    box_bottom_right@,
                ) is None,
            }),
    {
        let tl = Self::calculate_absolute_point_from_relative_view_points(
            parent_top_left,
            parent_bottom_right,
            box_top_left,
        );
        let br = Self::calculate_absolute_point_from_relative_view_points(
            parent_top_left,
            parent_bottom_right,
            box_bottom_right,
        );
        match (tl, br) {
            (Some(a), Some(b)) => Some((a, b)),
            _ => None,
        }
    }

    /// Converts a pixel position to view space: both axes scaled to two
    /// units across the surface, the origin centred, the vertical flipped.
    pub fn pixel_to_view(x: u32, y: u32, width: u32, height: u32) -> (r: Point)
        requires
            width >= 1,
            height >= 1,
        ensures
            r.wf(),
            r@.x == (Rat { n: 2 * x - width, d: width as int }),
            r@.y == (Rat { n: height - 2 * y, d: height as int }),
    {
        let nx: i64 = 2 * (x as i64) - (width as i64);
        let ny: i64 = (height as i64) - 2 * (y as i64);
        Point { x: Frac::new(nx, width as i64), y: Frac::new(ny, height as i64) }
    }

    /// Strict hit test of a point against a view-space box.
    pub fn point_in_box(top_left: &Point, bottom_right: &Point, point: &Point) -> (r: bool)
        requires
            top_left.wf(),
            bottom_right.wf(),
            point.wf(),
        ensures
            r == in_bound_rat(top_left@, bottom_right@, point@),
    {
        top_left.x.lt(&point.x) && point.x.lt(&bottom_right.x) && point.y.lt(&top_left.y)
            && bottom_right.y.lt(&point.y)
    }
}

// ---------------------------------------------------------------------------
// Laws.
// ---------------------------------------------------------------------------

/// Round trip: mapping any point to compute space and back returns the
/// point, exactly.
pub proof fn lemma_round_trip(p: RatPoint)
    requires
        rpt_wf(p),
    ensures
        rpt_eq(compute_to_view_rat(view_to_compute_rat(p)), p),
{
    let c = compute_to_view_rat(view_to_compute_rat(p));
    assert(c.x == (Rat { n: 2 * p.x.n, d: 2 * p.x.d }));
    assert(c.y == (Rat { n: 2 * p.y.n, d: 2 * p.y.d }));
    assert((2 * p.x.n) * p.x.d == p.x.n * (2 * p.x.d)) by (nonlinear_arith);
    assert((2 * p.y.n) * p.y.d == p.y.n * (2 * p.y.d)) by (nonlinear_arith);
}

/// Interpolation inside the compute-space image of the full canvas, whose
/// corners are zero and one over a denominator of two.
proof fn lemma_lerp_unit(t: Rat)
    ensures
        lerp_rat(Rat { n: 0, d: 2 }, Rat { n: 2, d: 2 }, t) == (Rat { n: 8 * t.n, d: 8 * t.d }),
{
    let p1 = Rat { n: 0, d: 2 };
    let p2 = Rat { n: 2, d: 2 };
    let diff = rat_sub(p2, p1);
    assert(diff == (Rat { n: 4, d: 4 }));
    let m = rat_mul(diff, t);
    assert(m == (Rat { n: 4 * t.n, d: 4 * t.d }));
    let r = rat_add(p1, m);
    assert(r == (Rat { n: 8 * t.n, d: 8 * t.d }));
}

/// Identity parent: resolving any box against the full view-space canvas
/// returns the box unchanged.
pub proof fn lemma_identity_parent(b: RatPoint)
    requires
        rpt_wf(b),
    ensures
        rpt_eq(resolve_point_rat(full_view_top_left(), full_view_bottom_right(), b), b),
{
    let ctl = view_to_compute_rat(full_view_top_left());
    let cbr = view_to_compute_rat(full_view_bottom_right());
    assert(ctl.x == (Rat { n: 0, d: 2 }));
    assert(ctl.y == (Rat { n: 0, d: 2 }));
    assert(cbr.x == (Rat { n: 2, d: 2 }));
    assert(cbr.y == (Rat { n: 2, d: 2 }));
    let t = view_to_compute_rat(b);
    assert(t.x == (Rat { n: b.x.n + b.x.d, d: 2 * b.x.d }));
    assert(t.y == (Rat { n: b.y.d - b.y.n, d: 2 * b.y.d }));
    let q = interpolate_rat(ctl, cbr, t);
    lemma_lerp_unit(t.x);
    lemma_lerp_unit(t.y);
    assert(q.x == lerp_rat(Rat { n: 0, d: 2 }, Rat { n: 2, d: 2 }, t.x));
    assert(q.y == lerp_rat(Rat { n: 0, d: 2 }, Rat { n: 2, d: 2 }, t.y));
    assert(q.x == (Rat { n: 8 * t.x.n, d: 8 * t.x.d }));
    assert(q.y == (Rat { n: 8 * t.y.n, d: 8 * t.y.d }));
    let r = compute_to_view_rat(q);
    assert(r.x == (Rat { n: 16 * t.x.n - 8 * t.x.d, d: 8 * t.x.d }));
    assert(r.y == (Rat { n: 8 * t.y.d - 16 * t.y.n, d: 8 * t.y.d }));
    assert(r.x == (Rat { n: 16 * b.x.n, d: 16 * b.x.d }));
    assert(r.y == (Rat { n: 16 * b.y.n, d: 16 * b.y.d }));
    assert((16 * b.x.n) * b.x.d == b.x.n * (16 * b.x.d)) by (nonlinear_arith);
    assert((16 * b.y.n) * b.y.d == b.y.n * (16 * b.y.d)) by (nonlinear_arith);
}

/// Boundary exclusion: a point whose coordinate equals an edge of the box
/// is never inside it.
pub proof fn lemma_boundary_excluded(tl: RatPoint, br: RatPoint, p: RatPoint)
    requires
        rpt_wf(tl),
        rpt_wf(br),
        rpt_wf(p),
        rat_eq(p.x, tl.x) || rat_eq(p.x, br.x) || rat_eq(p.y, tl.y) || rat_eq(p.y, br.y),
    ensures
        !in_bound_rat(tl, br, p),
{
}

/// The two conversion constants are well-formed.
proof fn lemma_consts_wf()
    ensures
        rat_wf(rat_one()),
        rat_wf(rat_two()),
        rat_wf(rat_half()),
{
}

/// Mapping a compute-space coordinate to view space and back returns it,
/// on the horizontal axis.
proof fn lemma_v2c_c2v_x(u: Rat)
    requires
        rat_wf(u),
    ensures
        rat_eq(v2c_x_rat(c2v_x_rat(u)), u),
        rat_eq(u, v2c_x_rat(c2v_x_rat(u))),
{
    let w = c2v_x_rat(u);
    assert(w == (Rat { n: 2 * u.n - u.d, d: u.d }));
    let v = v2c_x_rat(w);
    assert(v == (Rat { n: 2 * u.n, d: 2 * u.d }));
    lemma_rat_eq_scaled(u, v, 2);
}

/// Mapping a compute-space coordinate to view space and back returns it,
/// on the vertical axis.
proof fn lemma_v2c_c2v_y(u: Rat)
    requires
        rat_wf(u),
    ensures
        rat_eq(v2c_y_rat(c2v_y_rat(u)), u),
        rat_eq(u, v2c_y_rat(c2v_y_rat(u))),
{
    let w = c2v_y_rat(u);
    assert(w == (Rat { n: u.d - 2 * u.n, d: u.d }));
    let v = v2c_y_rat(w);
    assert(v == (Rat { n: 2 * u.n, d: 2 * u.d }));
    lemma_rat_eq_scaled(u, v, 2);
}

/// Equal compute-space coordinates map to equal view-space coordinates.
proof fn lemma_c2v_x_congr(u: Rat, ub: Rat)
    requires
        rat_wf(u),
        rat_wf(ub),
        rat_eq(u, ub),
    ensures
        rat_eq(c2v_x_rat(u), c2v_x_rat(ub)),
{
    broadcast use lemma_add_wf_auto, lemma_sub_wf_auto, lemma_mul_wf_auto, lemma_neg_wf_auto;

    lemma_consts_wf();
    lemma_congruence(u, ub, rat_two(), rat_two());
    lemma_congruence(rat_mul(u, rat_two()), rat_mul(ub, rat_two()), rat_one(), rat_one());
}

/// Equal compute-space coordinates map to equal view-space coordinates,
/// vertical axis.
proof fn lemma_c2v_y_congr(u: Rat, ub: Rat)
    requires
        rat_wf(u),
        rat_wf(ub),
        rat_eq(u, ub),
    ensures
        rat_eq(c2v_y_rat(u), c2v_y_rat(ub)),
{
    broadcast use lemma_add_wf_auto, lemma_sub_wf_auto, lemma_mul_wf_auto, lemma_neg_wf_auto;

    lemma_consts_wf();
    lemma_c2v_x_congr(u, ub);
    lemma_congruence(c2v_x_rat(u), c2v_x_rat(ub), rat_one(), rat_one());
}

/// Equal endpoints and weights interpolate to equal results.
proof fn lemma_lerp_congr(p1: Rat, p1b: Rat, p2: Rat, p2b: Rat, t: Rat, tb: Rat)
    requires
        rat_wf(p1),
        rat_wf(p1b),
        rat_wf(p2),
        rat_wf(p2b),
        rat_wf(t),
        rat_wf(tb),
        rat_eq(p1, p1b),
        rat_eq(p2, p2b),
        rat_eq(t, tb),
    ensures
        rat_eq(lerp_rat(p1, p2, t), lerp_rat(p1b, p2b, tb)),
{
    broadcast use lemma_add_wf_auto, lemma_sub_wf_auto, lemma_mul_wf_auto, lemma_neg_wf_auto;

    lemma_congruence(p2, p2b, p1, p1b);
    lemma_congruence(rat_sub(p2, p1), rat_sub(p2b, p1b), t, tb);
    lemma_congruence(p1, p1b, rat_mul(rat_sub(p2, p1), t), rat_mul(rat_sub(p2b, p1b), tb));
}

/// Interpolating inside an interpolated box equals interpolating with the
/// composed weights: the affine maps of nested boxes compose.
proof fn lemma_lerp_compose(a1: Rat, a2: Rat, b1: Rat, b2: Rat, t: Rat)
    requires
        rat_wf(a1),
        rat_wf(a2),
        rat_wf(b1),
        rat_wf(b2),
        rat_wf(t),
    ensures
        rat_eq(
            lerp_rat(a1, a2, lerp_rat(b1, b2, t)),
            lerp_rat(lerp_rat(a1, a2, b1), lerp_rat(a1, a2, b2), t),
        ),
{
    broadcast use lemma_add_wf_auto, lemma_sub_wf_auto, lemma_mul_wf_auto, lemma_neg_wf_auto;

    let s = rat_sub(a2, a1);
    let q = rat_sub(b2, b1);
    let u = rat_mul(q, t);
    let inner = rat_add(b1, u);
    let ms1 = rat_mul(s, b1);
    let msu = rat_mul(s, u);
    let j1 = rat_add(a1, ms1);
    let j2 = rat_add(a1, rat_mul(s, b2));
    let d0 = rat_sub(j2, j1);
    let lhs = rat_add(a1, rat_mul(s, inner));
    let rhs = rat_add(j1, rat_mul(d0, t));
    assert(lerp_rat(b1, b2, t) == inner);
    assert(lerp_rat(a1, a2, b1) == j1);
    assert(lerp_rat(a1, a2, b2) == j2);
    assert(lerp_rat(a1, a2, inner) == lhs);
    assert(lerp_rat(j1, j2, t) == rhs);
    // The difference of the resolved endpoints is the scaled difference of
    // the relative endpoints.
    lemma_rat_cancel_sub_add(a1, rat_mul(s, b2), ms1);
    lemma_rat_mul_distrib_sub(s, b2, b1);
    lemma_rat_eq_trans(d0, rat_sub(rat_mul(s, b2), ms1), rat_mul(s, q));
    // Rewrite the right-hand side over that difference.
    lemma_congruence(d0, rat_mul(s, q), t, t);
    lemma_congruence(j1, j1, rat_mul(d0, t), rat_mul(rat_mul(s, q), t));
    lemma_rat_mul_assoc(s, q, t);
    assert(rat_mul(rat_mul(s, q), t) == msu);
    lemma_rat_add_assoc(a1, ms1, msu);
    assert(rat_add(j1, msu) == rat_add(a1, rat_add(ms1, msu)));
    // Rewrite the left-hand side to the same form.
    lemma_rat_mul_distrib_add(s, b1, u);
    lemma_congruence(a1, a1, rat_mul(s, inner), rat_add(ms1, msu));
    lemma_rat_eq_trans(lhs, rat_add(a1, rat_add(ms1, msu)), rhs);
}

/// Nesting composes on the horizontal axis.
proof fn lemma_resolve_x_compose(a1: Rat, a2: Rat, b1: Rat, b2: Rat, c: Rat)
    requires
        rat_wf(a1),
        rat_wf(a2),
        rat_wf(b1),
        rat_wf(b2),
        rat_wf(c),
    ensures
        rat_eq(
            resolve_x_rat(a1, a2, resolve_x_rat(b1, b2, c)),
            resolve_x_rat(resolve_x_rat(a1, a2, b1), resolve_x_rat(a1, a2, b2), c),
        ),
{
    broadcast use lemma_add_wf_auto, lemma_sub_wf_auto, lemma_mul_wf_auto, lemma_neg_wf_auto;

    lemma_consts_wf();
    let aa1 = v2c_x_rat(a1);
    let aa2 = v2c_x_rat(a2);
    let bb1 = v2c_x_rat(b1);
    let bb2 = v2c_x_rat(b2);
    let cc = v2c_x_rat(c);
    let lb = lerp_rat(bb1, bb2, cc);
    let j1 = lerp_rat(aa1, aa2, bb1);
    let j2 = lerp_rat(aa1, aa2, bb2);
    let rin = c2v_x_rat(lb);
    assert(resolve_x_rat(b1, b2, c) == rin);
    // Left side: the inner conversion to view space and back cancels.
    lemma_v2c_c2v_x(lb);
    lemma_lerp_congr(aa1, aa1, aa2, aa2, v2c_x_rat(rin), lb);
    lemma_c2v_x_congr(lerp_rat(aa1, aa2, v2c_x_rat(rin)), lerp_rat(aa1, aa2, lb));
    lemma_lerp_compose(aa1, aa2, bb1, bb2, cc);
    lemma_c2v_x_congr(lerp_rat(aa1, aa2, lb), lerp_rat(j1, j2, cc));
    lemma_rat_eq_trans(
        resolve_x_rat(a1, a2, rin),
        c2v_x_rat(lerp_rat(aa1, aa2, lb)),
        c2v_x_rat(lerp_rat(j1, j2, cc)),
    );
    // Right side: the resolved endpoints convert back to the interpolated
    // compute-space endpoints.
    let r1 = resolve_x_rat(a1, a2, b1);
    let r2 = resolve_x_rat(a1, a2, b2);
    assert(r1 == c2v_x_rat(j1));
    assert(r2 == c2v_x_rat(j2));
    lemma_v2c_c2v_x(j1);
    lemma_v2c_c2v_x(j2);
    lemma_lerp_congr(v2c_x_rat(r1), j1, v2c_x_rat(r2), j2, cc, cc);
    lemma_c2v_x_congr(lerp_rat(v2c_x_rat(r1), v2c_x_rat(r2), cc), lerp_rat(j1, j2, cc));
    lemma_rat_eq_trans(
        resolve_x_rat(a1, a2, rin),
        c2v_x_rat(lerp_rat(j1, j2, cc)),
        resolve_x_rat(r1, r2, c),
    );
}

/// Nesting composes on the vertical axis.
proof fn lemma_resolve_y_compose(a1: Rat, a2: Rat, b1: Rat, b2: Rat, c: Rat)
    requires
        rat_wf(a1),
        rat_wf(a2),
        rat_wf(b1),
        rat_wf(b2),
        rat_wf(c),
    ensures
        rat_eq(
            resolve_y_rat(a1, a2, resolve_y_rat(b1, b2, c)),
            resolve_y_rat(resolve_y_rat(a1, a2, b1), resolve_y_rat(a1, a2, b2), c),
        ),
{
    broadcast use lemma_add_wf_auto, lemma_sub_wf_auto, lemma_mul_wf_auto, lemma_neg_wf_auto;

    lemma_consts_wf();
    let aa1 = v2c_y_rat(a1);
    let aa2 = v2c_y_rat(a2);
    let bb1 = v2c_y_rat(b1);
    let bb2 = v2c_y_rat(b2);
    let cc = v2c_y_rat(c);
    let lb = lerp_rat(bb1, bb2, cc);
    let j1 = lerp_rat(aa1, aa2, bb1);
    let j2 = lerp_rat(aa1, aa2, bb2);
    let rin = c2v_y_rat(lb);
    assert(resolve_y_rat(b1, b2, c) == rin);
    lemma_v2c_c2v_y(lb);
    lemma_lerp_congr(aa1, aa1, aa2, aa2, v2c_y_rat(rin), lb);
    lemma_c2v_y_congr(lerp_rat(aa1, aa2, v2c_y_rat(rin)), lerp_rat(aa1, aa2, lb));
    lemma_lerp_compose(aa1, aa2, bb1, bb2, cc);
    lemma_c2v_y_congr(lerp_rat(aa1, aa2, lb), lerp_rat(j1, j2, cc));
    lemma_rat_eq_trans(
        resolve_y_rat(a1, a2, rin),
        c2v_y_rat(lerp_rat(aa1, aa2, lb)),
        c2v_y_rat(lerp_rat(j1, j2, cc)),
    );
    let r1 = resolve_y_rat(a1, a2, b1);
    let r2 = resolve_y_rat(a1, a2, b2);
    assert(r1 == c2v_y_rat(j1));
    assert(r2 == c2v_y_rat(j2));
    lemma_v2c_c2v_y(j1);
    lemma_v2c_c2v_y(j2);
    lemma_lerp_congr(v2c_y_rat(r1), j1, v2c_y_rat(r2), j2, cc, cc);
    lemma_c2v_y_congr(lerp_rat(v2c_y_rat(r1), v2c_y_rat(r2), cc), lerp_rat(j1, j2, cc));
    lemma_rat_eq_trans(
        resolve_y_rat(a1, a2, rin),
        c2v_y_rat(lerp_rat(j1, j2, cc)),
        resolve_y_rat(r1, r2, c),
    );
}

/// Nesting associativity: resolving a grandchild box against a resolved
/// child box gives the same absolute position as composing the two
/// resolutions, for every axis of both corners.
pub proof fn lemma_nesting_associative(
    atl: RatPoint,
    abr: RatPoint,
    btl: RatPoint,
    bbr: RatPoint,
    c: RatPoint,
)
    requires
        rpt_wf(atl),
        rpt_wf(abr),
        rpt_wf(btl),
        rpt_wf(bbr),
        rpt_wf(c),
    ensures
        rpt_eq(
            resolve_point_rat(atl, abr, resolve_point_rat(btl, bbr, c)),
            resolve_point_rat(
                resolve_point_rat(atl, abr, btl),
                resolve_point_rat(atl, abr, bbr),
                c,
            ),
        ),
{
    lemma_resolve_x_compose(atl.x, abr.x, btl.x, bbr.x, c.x);
    lemma_resolve_y_compose(atl.y, abr.y, btl.y, bbr.y, c.y);
}

} // verus!
// ---------------------------------------------------------------------------
// The component tree.
// ---------------------------------------------------------------------------

verus! {

/// A pair of corners, used for the cached absolute box.
#[derive(Clone, Copy, Debug)]
pub struct ComponentBasicData {
    pub top_left: Point,
    pub bottom_right: Point,
}

/// The state every node carries: the relative box it was constructed with,
/// the dirty flag, and the cached absolute box, which is meaningful only
/// while the flag is clear.
#[derive(Clone, Copy, Debug)]
pub struct ComponentBasicResizeData {
    pub top_left: Point,
    pub bottom_right: Point,
    pub needs_resize: bool,
    pub absolute: ComponentBasicData,
}

/// A proper view-space box: left of right, top above bottom.
pub open spec fn box_valid_rat(tl: RatPoint, br: RatPoint) -> bool {
    rat_lt(tl.x, br.x) && rat_lt(br.y, tl.y)
}

/// A coordinate that is well-formed and within the representable range.
pub open spec fn rat_ok(a: Rat) -> bool {
    rat_wf(a) && rat_fits(a)
}

pub open spec fn rpt_ok(p: RatPoint) -> bool {
    rat_ok(p.x) && rat_ok(p.y)
}

// Models of the tree's data, over exact rationals.

pub struct BasicV {
    pub top_left: RatPoint,
    pub bottom_right: RatPoint,
    pub needs_resize: bool,
    pub abs_top_left: RatPoint,
    pub abs_bottom_right: RatPoint,
}

pub struct QuadV {
    pub top_left: RatPoint,
    pub bottom_right: RatPoint,
    pub color: Color,
}

pub struct LineV {
    pub x1: Rat,
    pub y1: Rat,
    pub x2: Rat,
    pub y2: Rat,
}

#[verifier::ext_equal]
pub struct LineSvgV {
    pub lines: Seq<LineV>,
    pub color: Color,
    pub abs_lines: Seq<LineV>,
}

pub struct FontStyleV {
    pub size_x: Rat,
    pub size_y: Rat,
    pub color: Color,
}

/// The model of a tree node.
#[verifier::ext_equal]
pub enum NodeV {
    Plain { basic: BasicV, color: Color, quad: QuadV },
    Clickable { basic: BasicV, color: Color, quad: QuadV, action: u64 },
    Button { basic: BasicV, color: Color, quad: QuadV, callback: u64 },
    Text { basic: BasicV, font_style: FontStyleV, svg: LineSvgV },
    Layout { basic: BasicV, components: Seq<NodeV> },
}

/// The model of a draw command.
#[verifier::ext_equal]
pub enum DrawCmdV {
    Quad(QuadV),
    Lines { lines: Seq<LineV>, color: Color },
}

pub open spec fn basic_view(b: ComponentBasicResizeData) -> BasicV {
    BasicV {
        top_left: b.top_left@,
        bottom_right: b.bottom_right@,
        needs_resize: b.needs_resize,
        abs_top_left: b.absolute.top_left@,
        abs_bottom_right: b.absolute.bottom_right@,
    }
}

pub open spec fn quad_view(q: Quad) -> QuadV {
    QuadV { top_left: q.top_left@, bottom_right: q.bottom_right@, color: q.color }
}

pub open spec fn line_view(l: Line) -> LineV {
    LineV { x1: l.x1@, y1: l.y1@, x2: l.x2@, y2: l.y2@ }
}

pub open spec fn lines_view(v: Seq<Line>) -> Seq<LineV> {
    v.map_values(|l: Line| line_view(l))
}

pub open spec fn line_svg_view(s: LineSvg) -> LineSvgV {
    LineSvgV { lines: lines_view(s.lines@), color: s.color, abs_lines: lines_view(s.abs_lines@) }
}

pub open spec fn font_view(f: crate::components::text::FontStyle) -> FontStyleV {
    FontStyleV { size_x: f.size_x@, size_y: f.size_y@, color: f.color }
}

pub open spec fn cmd_view(c: DrawCommand) -> DrawCmdV {
    match c {
        DrawCommand::Quad(q) => DrawCmdV::Quad(quad_view(q)),
        DrawCommand::Lines { lines, color } => DrawCmdV::Lines {
            lines: lines_view(lines@),
            color,
        },
    }
}

pub open spec fn cmds_view(s: Seq<DrawCommand>) -> Seq<DrawCmdV> {
    s.map_values(|c: DrawCommand| cmd_view(c))
}

/// One node of the widget tree: a closed set of variants standing in for
/// the dynamic dispatch a trait object would give.
#[derive(Debug)]
pub enum Component {
    Plain(PlainComponent),
    Clickable(ClickableComponent),
    Button(ButtonComponent),
    Text(TextComponent),
    Layout(LayoutComponent),
}

pub open spec fn views_of(cs: Seq<Component>) -> Seq<NodeV>
    decreases cs,
{
    if cs.len() == 0 {
        Seq::empty()
    } else {
        seq![component_view(cs[0])] + views_of(cs.drop_first())
    }
}

/// The model of a child list is the list of the children's models.
pub broadcast proof fn lemma_views_of(cs: Seq<Component>)
    ensures
        (#[trigger] views_of(cs)).len() == cs.len(),
        forall|k: int| 0 <= k < cs.len() ==> views_of(cs)[k] == component_view(cs[k]),
    decreases cs.len(),
{
    if cs.len() > 0 {
        lemma_views_of(cs.drop_first());
        assert forall|k: int| 0 <= k < cs.len() implies views_of(cs)[k] == component_view(
            cs[k],
        ) by {
            if k > 0 {
                assert(views_of(cs.drop_first())[k - 1] == component_view(cs.drop_first()[k - 1]));
            }
        }
    }
}

/// The model of a node, including every descendant.
pub open spec fn component_view(c: Component) -> NodeV
    decreases c,
{
    match c {
        Component::Plain(p) => NodeV::Plain {
            basic: basic_view(p.basic),
            color: p.color,
            quad: quad_view(p.quad),
        },
        Component::Clickable(p) => NodeV::Clickable {
            basic: basic_view(p.basic),
            color: p.color,
            quad: quad_view(p.quad),
            action: p.action,
        },
        Component::Button(p) => NodeV::Button {
            basic: basic_view(p.basic),
            color: p.color,
            quad: quad_view(p.quad),
            callback: p.callback,
        },
        Component::Text(t) => NodeV::Text {
            basic: basic_view(t.basic),
            font_style: font_view(t.font_style),
            svg: line_svg_view(t.svg),
        },
        Component::Layout(l) => NodeV::Layout {
            basic: basic_view(l.basic),
            components: views_of(l.components@),
        },
    }
}

pub open spec fn basic_v_of(n: NodeV) -> BasicV {
    match n {
        NodeV::Plain { basic, .. } => basic,
        NodeV::Clickable { basic, .. } => basic,
        NodeV::Button { basic, .. } => basic,
        NodeV::Text { basic, .. } => basic,
        NodeV::Layout { basic, .. } => basic,
    }
}

/// Replaces the shared node state, keeping everything else.
pub open spec fn set_basic(n: NodeV, b: BasicV) -> NodeV {
    match n {
        NodeV::Plain { basic, color, quad } => NodeV::Plain { basic: b, color, quad },
        NodeV::Clickable { basic, color, quad, action } => NodeV::Clickable {
            basic: b,
            color,
            quad,
            action,
        },
        NodeV::Button { basic, color, quad, callback } => NodeV::Button {
            basic: b,
            color,
            quad,
            callback,
        },
        NodeV::Text { basic, font_style, svg } => NodeV::Text { basic: b, font_style, svg },
        NodeV::Layout { basic, components } => NodeV::Layout { basic: b, components },
    }
}

pub open spec fn basic_wf(b: BasicV) -> bool {
    &&& rpt_ok(b.top_left)
    &&& rpt_ok(b.bottom_right)
    &&& rpt_ok(b.abs_top_left)
    &&& rpt_ok(b.abs_bottom_right)
    &&& box_valid_rat(b.top_left, b.bottom_right)
}

pub open spec fn quad_wf_v(q: QuadV) -> bool {
    rpt_ok(q.top_left) && rpt_ok(q.bottom_right)
}

pub open spec fn line_wf_v(l: LineV) -> bool {
    rat_ok(l.x1) && rat_ok(l.y1) && rat_ok(l.x2) && rat_ok(l.y2)
}

pub open spec fn svg_wf_v(s: LineSvgV) -> bool {
    &&& forall|k: int| 0 <= k < s.lines.len() ==> line_wf_v(#[trigger] s.lines[k])
    &&& forall|k: int| 0 <= k < s.abs_lines.len() ==> line_wf_v(#[trigger] s.abs_lines[k])
}

/// Well-formedness of a whole tree: every coordinate representable and
/// every relative box proper.
pub open spec fn node_wf(n: NodeV) -> bool
    decreases n,
{
    match n {
        NodeV::Plain { basic, quad, .. } => basic_wf(basic) && quad_wf_v(quad),
        NodeV::Clickable { basic, quad, .. } => basic_wf(basic) && quad_wf_v(quad),
        NodeV::Button { basic, quad, .. } => basic_wf(basic) && quad_wf_v(quad),
        NodeV::Text { basic, font_style, svg } => basic_wf(basic) && rat_ok(font_style.size_x)
            && rat_ok(font_style.size_y) && svg_wf_v(svg),
        NodeV::Layout { basic, components } => basic_wf(basic) && forall|k: int|
            0 <= k < components.len() ==> node_wf(#[trigger] components[k]),
    }
}

pub open spec fn mark_all_v(cs: Seq<NodeV>) -> Seq<NodeV>
    decreases cs,
{
    if cs.len() == 0 {
        Seq::empty()
    } else {
        seq![marked_dirty_v(cs[0])] + mark_all_v(cs.drop_first())
    }
}

/// Marking a child list dirty marks each child dirty, in place.
pub broadcast proof fn lemma_mark_all(cs: Seq<NodeV>)
    ensures
        (#[trigger] mark_all_v(cs)).len() == cs.len(),
        forall|k: int| 0 <= k < cs.len() ==> mark_all_v(cs)[k] == marked_dirty_v(cs[k]),
    decreases cs.len(),
{
    if cs.len() > 0 {
        lemma_mark_all(cs.drop_first());
        assert forall|k: int| 0 <= k < cs.len() implies mark_all_v(cs)[k] == marked_dirty_v(
            cs[k],
        ) by {
            if k > 0 {
                assert(mark_all_v(cs.drop_first())[k - 1] == marked_dirty_v(cs.drop_first()[k - 1]));
            }
        }
    }
}

/// The tree with every node marked dirty, nothing else changed.
pub open spec fn marked_dirty_v(n: NodeV) -> NodeV
    decreases n,
{
    match n {
        NodeV::Layout { basic, components } => NodeV::Layout {
            basic: BasicV { needs_resize: true, ..basic },
            components: mark_all_v(components),
        },
        _ => set_basic(n, BasicV { needs_resize: true, ..basic_v_of(n) }),
    }
}

/// The node with its relative box replaced, descendants untouched.
pub open spec fn with_box_v(n: NodeV, tl: RatPoint, br: RatPoint) -> NodeV {
    set_basic(n, BasicV { top_left: tl, bottom_right: br, ..basic_v_of(n) })
}

/// The absolute box a node renders with: resolved against the parent when
/// dirty, the cached one otherwise.
pub open spec fn resolved_abs(b: BasicV, ptl: RatPoint, pbr: RatPoint) -> Option<
    (RatPoint, RatPoint),
> {
    if b.needs_resize {
        try_resolve_box(ptl, pbr, b.top_left, b.bottom_right)
    } else {
        Some((b.abs_top_left, b.abs_bottom_right))
    }
}

pub open spec fn clean_basic(b: BasicV, atl: RatPoint, abr: RatPoint) -> BasicV {
    BasicV { needs_resize: false, abs_top_left: atl, abs_bottom_right: abr, ..b }
}

pub open spec fn rat_hundredth() -> Rat {
    Rat { n: 1, d: 100 }
}

/// The bottom-right corner of the glyph box: the widget's top-left corner
/// offset by the box extent scaled with the font-style percentages.
pub open spec fn try_font_box(atl: RatPoint, abr: RatPoint, sx: Rat, sy: Rat) -> Option<RatPoint> {
    match try_rat_mul(sx, rat_hundredth()) {
        None => None,
        Some(fx) => match try_rat_mul(sy, rat_hundredth()) {
            None => None,
            Some(fy) => match try_rat_sub(abr.x, atl.x) {
                None => None,
                Some(dx) => match try_rat_mul(dx, fx) {
                    None => None,
                    Some(ox) => match try_rat_add(atl.x, ox) {
                        None => None,
                        Some(bx) => match try_rat_sub(atl.y, abr.y) {
                            None => None,
                            Some(dy) => match try_rat_mul(dy, fy) {
                                None => None,
                                Some(oy) => match try_rat_sub(atl.y, oy) {
                                    None => None,
                                    Some(by) => Some(RatPoint { x: bx, y: by }),
                                },
                            },
                        },
                    },
                },
            },
        },
    }
}

/// Every glyph segment with both endpoints resolved inside the glyph box.
pub open spec fn map_lines_v(lines: Seq<LineV>, ftl: RatPoint, fbr: RatPoint, i: int) -> Option<
    Seq<LineV>,
>
    decreases lines.len() - i,
{
    if i < 0 || i >= lines.len() {
        Some(Seq::empty())
    } else {
        let l = lines[i];
        match try_resolve_point(ftl, fbr, RatPoint { x: l.x1, y: l.y1 }) {
            None => None,
            Some(p1) => match try_resolve_point(ftl, fbr, RatPoint { x: l.x2, y: l.y2 }) {
                None => None,
                Some(p2) => match map_lines_v(lines, ftl, fbr, i + 1) {
                    None => None,
                    Some(rest) => Some(
                        seq![LineV { x1: p1.x, y1: p1.y, x2: p2.x, y2: p2.y }] + rest,
                    ),
                },
            },
        }
    }
}

/// What rendering a node against a parent box does: the node with its
/// absolute box resolved and its geometry regenerated where it was dirty,
/// and the draw commands it emits, leaves first in tree order.  `None`
/// exactly when some coordinate overflows.
pub open spec fn render_v(n: NodeV, ptl: RatPoint, pbr: RatPoint) -> Option<
    (NodeV, Seq<DrawCmdV>),
>
    decreases n, 0int,
{
    match resolved_abs(basic_v_of(n), ptl, pbr) {
        None => None,
        Some(ab) => match n {
            NodeV::Plain { basic, color, quad } => {
                let q2 = if basic.needs_resize {
                    QuadV { top_left: ab.0, bottom_right: ab.1, color }
                } else {
                    quad
                };
                Some(
                    (
                        NodeV::Plain { basic: clean_basic(basic, ab.0, ab.1), color, quad: q2 },
                        seq![DrawCmdV::Quad(q2)],
                    ),
                )
            }
            NodeV::Clickable { basic, color, quad, action } => {
                let q2 = if basic.needs_resize {
                    QuadV { top_left: ab.0, bottom_right: ab.1, color }
                } else {
                    quad
                };
                Some(
                    (
                        NodeV::Clickable {
                            basic: clean_basic(basic, ab.0, ab.1),
                            color,
                            quad: q2,
                            action,
                        },
                        seq![DrawCmdV::Quad(q2)],
                    ),
                )
            }
            NodeV::Button { basic, color, quad, callback } => {
                let q2 = if basic.needs_resize {
                    QuadV { top_left: ab.0, bottom_right: ab.1, color }
                } else {
                    quad
                };
                Some(
                    (
                        NodeV::Button {
                            basic: clean_basic(basic, ab.0, ab.1),
                            color,
                            quad: q2,
                            callback,
                        },
                        seq![DrawCmdV::Quad(q2)],
                    ),
                )
            }
            NodeV::Text { basic, font_style, svg } => {
                if basic.needs_resize {
                    match try_font_box(ab.0, ab.1, font_style.size_x, font_style.size_y) {
                        None => None,
                        Some(fbr) => match map_lines_v(svg.lines, ab.0, fbr, 0) {
                            None => None,
                            Some(abs) => Some(
                                (
                                    NodeV::Text {
                                        basic: clean_basic(basic, ab.0, ab.1),
                                        font_style,
                                        svg: LineSvgV {
                                            lines: svg.lines,
                                            color: svg.color,
                                            abs_lines: abs,
                                        },
                                    },
                                    seq![DrawCmdV::Lines { lines: abs, color: svg.color }],
                                ),
                            ),
                        },
                    }
                } else {
                    Some(
                        (
                            NodeV::Text { basic: clean_basic(basic, ab.0, ab.1), font_style, svg },
                            seq![DrawCmdV::Lines { lines: svg.abs_lines, color: svg.color }],
                        ),
                    )
                }
            }
            NodeV::Layout { basic, components } => {
                match render_children_v(components, 0, ab.0, ab.1) {
                    None => None,
                    Some(r) => Some(
                        (
                            NodeV::Layout {
                                basic: clean_basic(basic, ab.0, ab.1),
                                components: r.0,
                            },
                            r.1,
                        ),
                    ),
                }
            }
        },
    }
}

/// The children from index `i` on, rendered in insertion order against the
/// container's resolved box, with their commands concatenated.
pub open spec fn render_children_v(cs: Seq<NodeV>, i: int, tl: RatPoint, br: RatPoint) -> Option<
    (Seq<NodeV>, Seq<DrawCmdV>),
>
    decreases cs, cs.len() - i,
{
    if i < 0 || i >= cs.len() {
        Some((Seq::empty(), Seq::empty()))
    } else {
        match render_v(cs[i], tl, br) {
            None => None,
            Some(h) => match render_children_v(cs, i + 1, tl, br) {
                None => None,
                Some(t) => Some((seq![h.0] + t.0, h.1 + t.1)),
            },
        }
    }
}

/// Strictly inside the node's cached absolute box.
pub open spec fn in_bound_v(n: NodeV, p: RatPoint) -> bool {
    in_bound_rat(basic_v_of(n).abs_top_left, basic_v_of(n).abs_bottom_right, p)
}

/// The click events a dispatch at this node delivers: leaves with a hook
/// report themselves; a container forwards to every child whose box
/// contains the point, in insertion order.
pub open spec fn click_events(n: NodeV, pos: Point) -> Seq<ClickEvent>
    decreases n, 0int,
{
    match n {
        NodeV::Plain { .. } => Seq::empty(),
        NodeV::Text { .. } => Seq::empty(),
        NodeV::Clickable { action, .. } => seq![ClickEvent { action, position: pos }],
        NodeV::Button { callback, .. } => seq![ClickEvent { action: callback, position: pos }],
        NodeV::Layout { components, .. } => click_children(components, 0, pos),
    }
}

pub open spec fn click_children(cs: Seq<NodeV>, i: int, pos: Point) -> Seq<ClickEvent>
    decreases cs, cs.len() - i,
{
    if i < 0 || i >= cs.len() {
        Seq::empty()
    } else {
        (if in_bound_v(cs[i], pos@) {
            click_events(cs[i], pos)
        } else {
            Seq::empty()
        }) + click_children(cs, i + 1, pos)
    }
}

/// Every node of the tree is dirty.
pub open spec fn all_dirty_v(n: NodeV) -> bool
    decreases n,
{
    basic_v_of(n).needs_resize && match n {
        NodeV::Layout { components, .. } => forall|k: int|
            0 <= k < components.len() ==> all_dirty_v(#[trigger] components[k]),
        _ => true,
    }
}

/// Every node of the tree is clean.
pub open spec fn all_clean_v(n: NodeV) -> bool
    decreases n,
{
    !basic_v_of(n).needs_resize && match n {
        NodeV::Layout { components, .. } => forall|k: int|
            0 <= k < components.len() ==> all_clean_v(#[trigger] components[k]),
        _ => true,
    }
}

} // verus!
verus! {

/// Copies a line list; the segments are plain values.
fn clone_lines(v: &Vec<Line>) -> (r: Vec<Line>)
    ensures
        r@ == v@,
{
    let mut out: Vec<Line> = Vec::new();
    let mut i: usize = 0;
    #[verifier::loop_isolation(false)]
    while i < v.len()
        invariant
            i <= v@.len(),
            out@ == v@.subrange(0, i as int),
        decreases v@.len() - i,
    {
        out.push(v[i]);
        i = i + 1;
    }
    assert(out@ =~= v@);
    out
}

/// The shared state with the dirty flag raised.
fn dirty_basic(b: &ComponentBasicResizeData) -> (r: ComponentBasicResizeData)
    ensures
        basic_view(r) == (BasicV { needs_resize: true, ..basic_view(*b) }),
        r == (ComponentBasicResizeData { needs_resize: true, ..*b }),
{
    ComponentBasicResizeData {
        top_left: b.top_left,
        bottom_right: b.bottom_right,
        needs_resize: true,
        absolute: b.absolute,
    }
}

impl Component {
    /// The shared node state.
    pub fn basic_ref(&self) -> (r: &ComponentBasicResizeData)
        ensures
            basic_view(*r) == basic_v_of(component_view(*self)),
    {
        match self {
            Component::Plain(p) => &p.basic,
            Component::Clickable(p) => &p.basic,
            Component::Button(p) => &p.basic,
            Component::Text(t) => &t.basic,
            Component::Layout(l) => &l.basic,
        }
    }

    /// The top-left corner of the absolute box; meaningful once the node
    /// has rendered and is clean.
    pub fn get_top_left(&self) -> (r: Point)
        requires
            node_wf(component_view(*self)),
        ensures
            r@ == basic_v_of(component_view(*self)).abs_top_left,
            r.wf(),
    {
        broadcast use crate::rational::Frac::lemma_wf_view;

        self.basic_ref().absolute.top_left
    }

    /// The bottom-right corner of the absolute box; meaningful once the
    /// node has rendered and is clean.
    pub fn get_bottom_right(&self) -> (r: Point)
        requires
            node_wf(component_view(*self)),
        ensures
            r@ == basic_v_of(component_view(*self)).abs_bottom_right,
            r.wf(),
    {
        broadcast use crate::rational::Frac::lemma_wf_view;

        self.basic_ref().absolute.bottom_right
    }

    /// Whether the point lies strictly inside the node's absolute box;
    /// points on an edge are outside.
    pub fn in_bound(&self, point: &Point) -> (r: bool)
        requires
            node_wf(component_view(*self)),
            point.wf(),
        ensures
            r == in_bound_v(component_view(*self), point@),
    {
        broadcast use crate::rational::Frac::lemma_wf_view;

        let b = self.basic_ref();
        ComponentUtils::point_in_box(&b.absolute.top_left, &b.absolute.bottom_right, point)
    }

    /// Dispatches a click: leaves with a hook append their event, a
    /// container forwards to each child whose box contains the point, in
    /// insertion order.
    pub fn on_click(&self, position: &Point, events: &mut Vec<ClickEvent>)
        requires
            node_wf(component_view(*self)),
            position.wf(),
        ensures
            final(events)@ == old(events)@ + click_events(component_view(*self), *position),
        decreases *self,
    {
        broadcast use lemma_views_of, crate::rational::Frac::lemma_wf_view;

        match self {
            Component::Plain(_) => {
                assert(final(events)@ =~= old(events)@ + Seq::<ClickEvent>::empty());
            }
            Component::Text(_) => {
                assert(final(events)@ =~= old(events)@ + Seq::<ClickEvent>::empty());
            }
            Component::Clickable(p) => {
                let ev = ClickEvent { action: p.action, position: *position };
                events.push(ev);
                assert(final(events)@ =~= old(events)@ + seq![ev]);
            }
            Component::Button(p) => {
                let ev = ClickEvent { action: p.callback, position: *position };
                events.push(ev);
                assert(final(events)@ =~= old(events)@ + seq![ev]);
            }
            Component::Layout(l) => {
                let ghost vs = views_of(l.components@);
                proof {
                    assert(component_view(*self) == (NodeV::Layout {
                        basic: basic_view(l.basic),
                        components: vs,
                    }));
                    assert(forall|k: int| 0 <= k < vs.len() ==> node_wf(#[trigger] vs[k]));
                }
                let mut i: usize = 0;
                #[verifier::loop_isolation(false)]
                while i < l.components.len()
                    invariant
                        i <= l.components@.len(),
                        old(events)@ + click_children(vs, 0, *position) == events@
                            + click_children(vs, i as int, *position),
                    decreases l.components@.len() - i,
                {
                    proof {
                        assert(*l == (*self)->Layout_0);
                        assert(decreases_to!(*self => (*self)->Layout_0));
                        assert(decreases_to!(*l => l.components));
                        assert(decreases_to!(l.components => l.components@));
                        assert(decreases_to!(l.components@ => l.components@[i as int]));
                        assert(decreases_to!(*self => l.components@[i as int]));
                        assert(node_wf(vs[i as int]));
                    }
                    let child = &l.components[i];
                    let ghost before = events@;
                    let ghost child_part = if in_bound_v(vs[i as int], position@) {
                        click_events(vs[i as int], *position)
                    } else {
                        Seq::<ClickEvent>::empty()
                    };
                    if child.in_bound(position) {
                        child.on_click(position, events);
                    }
                    proof {
                        assert(events@ =~= before + child_part);
                        assert(click_children(vs, i as int, *position) == child_part
                            + click_children(vs, i + 1, *position));
                        assert((before + child_part) + click_children(vs, i + 1, *position)
                            =~= before + (child_part + click_children(vs, i + 1, *position)));
                    }
                    i = i + 1;
                }
                proof {
                    assert(click_children(vs, l.components@.len() as int, *position)
                        =~= Seq::<ClickEvent>::empty());
                    assert(events@ + Seq::<ClickEvent>::empty() =~= events@);
                }
            }
        }
    }

    /// The tree rebuilt with every node marked dirty.
    fn marked(c: &Component) -> (r: Component)
        requires
            node_wf(component_view(*c)),
        ensures
            component_view(r) == marked_dirty_v(component_view(*c)),
            node_wf(component_view(r)),
        decreases *c,
    {
        broadcast use lemma_views_of, lemma_mark_all;

        match c {
            Component::Plain(p) => Component::Plain(
                PlainComponent { basic: dirty_basic(&p.basic), color: p.color, quad: p.quad },
            ),
            Component::Clickable(p) => Component::Clickable(
                ClickableComponent {
                    basic: dirty_basic(&p.basic),
                    color: p.color,
                    quad: p.quad,
                    action: p.action,
                },
            ),
            Component::Button(p) => Component::Button(
                ButtonComponent {
                    basic: dirty_basic(&p.basic),
                    color: p.color,
                    quad: p.quad,
                    callback: p.callback,
                },
            ),
            Component::Text(t) => Component::Text(
                TextComponent {
                    basic: dirty_basic(&t.basic),
                    font_style: t.font_style,
                    svg: LineSvg {
                        lines: clone_lines(&t.svg.lines),
                        color: t.svg.color,
                        abs_lines: clone_lines(&t.svg.abs_lines),
                    },
                },
            ),
            Component::Layout(l) => {
                let ghost vs = views_of(l.components@);
                let mut out: Vec<Component> = Vec::new();
                let mut i: usize = 0;
                #[verifier::loop_isolation(false)]
                while i < l.components.len()
                    invariant
                        i <= l.components@.len(),
                        out@.len() == i,
                        forall|k: int|
                            0 <= k < i ==> component_view(#[trigger] out@[k]) == marked_dirty_v(
                                vs[k],
                            ) && node_wf(component_view(out@[k])),
                    decreases l.components@.len() - i,
                {
                    proof {
                        assert(*l == (*c)->Layout_0);
                        assert(decreases_to!(*c => (*c)->Layout_0));
                        assert(decreases_to!(*l => l.components));
                        assert(decreases_to!(l.components => l.components@));
                        assert(decreases_to!(l.components@ => l.components@[i as int]));
                        assert(decreases_to!(*c => l.components@[i as int]));
                        assert(node_wf(vs[i as int]));
                    }
                    let m = Self::marked(&l.components[i]);
                    out.push(m);
                    i = i + 1;
                }
                let node = Component::Layout(
                    LayoutComponent { basic: dirty_basic(&l.basic), components: out },
                );
                proof {
                    assert(views_of(node->Layout_0.components@) =~= mark_all_v(vs));
                }
                node
            }
        }
    }

    /// Marks this node and every descendant dirty without changing any
    /// box, so that the whole subtree resolves afresh on the next render.
    pub fn on_resize(&mut self)
        requires
            node_wf(component_view(*old(self))),
        ensures
            component_view(*final(self)) == marked_dirty_v(component_view(*old(self))),
            node_wf(component_view(*final(self))),
    {
        let m = Self::marked(&*self);
        *self = m;
    }

    /// The node with its relative box replaced, descendants untouched.
    fn set_box_owned(c: Component, top_left: Point, bottom_right: Point) -> (r: Component)
        requires
            node_wf(component_view(c)),
            top_left.wf(),
            bottom_right.wf(),
            box_valid_rat(top_left@, bottom_right@),
        ensures
            component_view(r) == with_box_v(component_view(c), top_left@, bottom_right@),
            node_wf(component_view(r)),
    {
        broadcast use crate::rational::Frac::lemma_wf_view;

        match c {
            Component::Plain(mut p) => {
                p.basic.top_left = top_left;
                p.basic.bottom_right = bottom_right;
                Component::Plain(p)
            }
            Component::Clickable(mut p) => {
                p.basic.top_left = top_left;
                p.basic.bottom_right = bottom_right;
                Component::Clickable(p)
            }
            Component::Button(mut p) => {
                p.basic.top_left = top_left;
                p.basic.bottom_right = bottom_right;
                Component::Button(p)
            }
            Component::Text(mut t) => {
                t.basic.top_left = top_left;
                t.basic.bottom_right = bottom_right;
                Component::Text(t)
            }
            Component::Layout(mut l) => {
                l.basic.top_left = top_left;
                l.basic.bottom_right = bottom_right;
                Component::Layout(l)
            }
        }
    }

    /// Replaces the node's relative box and marks the whole subtree dirty.
    /// A box with inverted corners is rejected and nothing changes.
    pub fn resize(&mut self, new_box_top_left: Point, new_box_bottom_right: Point) -> (r: Result<
        (),
        LayoutError,
    >)
        requires
            node_wf(component_view(*old(self))),
            new_box_top_left.wf(),
            new_box_bottom_right.wf(),
        ensures
            (match r {
                Ok(()) => {
                    &&& box_valid_rat(new_box_top_left@, new_box_bottom_right@)
                    &&& component_view(*final(self)) == marked_dirty_v(
                        with_box_v(
                            component_view(*old(self)),
                            new_box_top_left@,
                            new_box_bottom_right@,
                        ),
                    )
                    &&& node_wf(component_view(*final(self)))
                }
                Err(e) => {
                    &&& e == LayoutError::DegenerateRectangle
                    &&& !box_valid_rat(new_box_top_left@, new_box_bottom_right@)
                    &&& *final(self) == *old(self)
                }
            }),
    {
        if !(new_box_top_left.x.lt(&new_box_bottom_right.x) && new_box_bottom_right.y.lt(
            &new_box_top_left.y,
        )) {
            return Err(LayoutError::DegenerateRectangle);
        }
        let zero = Point { x: Frac::from_int(0), y: Frac::from_int(0) };
        let mut tmp = Component::Plain(
            PlainComponent {
                basic: ComponentBasicResizeData {
                    top_left: zero,
                    bottom_right: zero,
                    needs_resize: true,
                    absolute: ComponentBasicData { top_left: zero, bottom_right: zero },
                },
                color: Color { r: 0, g: 0, b: 0 },
                quad: Quad { top_left: zero, bottom_right: zero, color: Color { r: 0, g: 0, b: 0 } },
            },
        );
        core::mem::swap(self, &mut tmp);
        let boxed = Self::set_box_owned(tmp, new_box_top_left, new_box_bottom_right);
        let m = Self::marked(&boxed);
        *self = m;
        Ok(())
    }
}

} // verus!
verus! {

/// The absolute box a node will use: resolved against the parent when the
/// node is dirty, the cached box otherwise.
fn resolve_basic(b: &ComponentBasicResizeData, parent_top_left: &Point, parent_bottom_right: &Point)
    -> (r: Option<(Point, Point)>)
    requires
        basic_wf(basic_view(*b)),
        parent_top_left.wf(),
        parent_bottom_right.wf(),
    ensures
        (match r {
            Some(q) => {
                &&& resolved_abs(basic_view(*b), parent_top_left@, parent_bottom_right@)
                    == Some((q.0@, q.1@))
                &&& q.0.wf()
                &&& q.1.wf()
            }
            None => resolved_abs(basic_view(*b), parent_top_left@, parent_bottom_right@) is None,
        }),
{
    broadcast use crate::rational::Frac::lemma_wf_view;

    if b.needs_resize {
        ComponentUtils::calculate_absolute_box_from_relative_view_points(
            parent_top_left,
            parent_bottom_right,
            &b.top_left,
            &b.bottom_right,
        )
    } else {
        Some((b.absolute.top_left, b.absolute.bottom_right))
    }
}

/// The shared state after a successful resolve: clean, with the absolute
/// box cached.
fn cleaned_basic(b: &ComponentBasicResizeData, atl: Point, abr: Point) -> (r:
    ComponentBasicResizeData)
    ensures
        basic_view(r) == clean_basic(basic_view(*b), atl@, abr@),
{
    ComponentBasicResizeData {
        top_left: b.top_left,
        bottom_right: b.bottom_right,
        needs_resize: false,
        absolute: ComponentBasicData { top_left: atl, bottom_right: abr },
    }
}

impl Component {
    /// Renders a node against the given parent box: resolves the absolute
    /// box if the node is dirty, regenerates the dirty leaf geometry, and
    /// collects the draw commands of the subtree in order.  Fails exactly
    /// when a coordinate overflows, leaving nothing behind.
    #[verifier::rlimit(80)]
    fn rendered(c: &Component, parent_top_left: &Point, parent_bottom_right: &Point) -> (r: Result<
        (Component, Vec<DrawCommand>),
        LayoutError,
    >)
        requires
            node_wf(component_view(*c)),
            parent_top_left.wf(),
            parent_bottom_right.wf(),
        ensures
            (match r {
                Ok(pair) => {
                    &&& render_v(component_view(*c), parent_top_left@, parent_bottom_right@)
                        matches Some(s)
                    &&& component_view(pair.0) == s.0
                    &&& cmds_view(pair.1@) == s.1
                    &&& node_wf(component_view(pair.0))
                }
                Err(e) => e == LayoutError::NumericOverflow && render_v(
                    component_view(*c),
                    parent_top_left@,
                    parent_bottom_right@,
                ) is None,
            }),
        decreases *c, 1int,
    {
        broadcast use lemma_views_of, crate::rational::Frac::lemma_wf_view;

        match c {
            Component::Plain(p) => {
                match resolve_basic(&p.basic, parent_top_left, parent_bottom_right) {
                    None => Err(LayoutError::NumericOverflow),
                    Some((atl, abr)) => {
                        let q2 = if p.basic.needs_resize {
                            Quad { top_left: atl, bottom_right: abr, color: p.color }
                        } else {
                            p.quad
                        };
                        let node = Component::Plain(
                            PlainComponent {
                                basic: cleaned_basic(&p.basic, atl, abr),
                                color: p.color,
                                quad: q2,
                            },
                        );
                        let mut cmds: Vec<DrawCommand> = Vec::new();
                        cmds.push(DrawCommand::Quad(q2));
                        proof {
                            assert(cmds_view(cmds@) =~= seq![DrawCmdV::Quad(quad_view(q2))]);
                        }
                        Ok((node, cmds))
                    }
                }
            }
            Component::Clickable(p) => {
                match resolve_basic(&p.basic, parent_top_left, parent_bottom_right) {
                    None => Err(LayoutError::NumericOverflow),
                    Some((atl, abr)) => {
                        let q2 = if p.basic.needs_resize {
                            Quad { top_left: atl, bottom_right: abr, color: p.color }
                        } else {
                            p.quad
                        };
                        let node = Component::Clickable(
                            ClickableComponent {
                                basic: cleaned_basic(&p.basic, atl, abr),
                                color: p.color,
                                quad: q2,
                                action: p.action,
                            },
                        );
                        let mut cmds: Vec<DrawCommand> = Vec::new();
                        cmds.push(DrawCommand::Quad(q2));
                        proof {
                            assert(cmds_view(cmds@) =~= seq![DrawCmdV::Quad(quad_view(q2))]);
                        }
                        Ok((node, cmds))
                    }
                }
            }
            Component::Button(p) => {
                match resolve_basic(&p.basic, parent_top_left, parent_bottom_right) {
                    None => Err(LayoutError::NumericOverflow),
                    Some((atl, abr)) => {
                        let q2 = if p.basic.needs_resize {
                            Quad { top_left: atl, bottom_right: abr, color: p.color }
                        } else {
                            p.quad
                        };
                        let node = Component::Button(
                            ButtonComponent {
                                basic: cleaned_basic(&p.basic, atl, abr),
                                color: p.color,
                                quad: q2,
                                callback: p.callback,
                            },
                        );
                        let mut cmds: Vec<DrawCommand> = Vec::new();
                        cmds.push(DrawCommand::Quad(q2));
                        proof {
                            assert(cmds_view(cmds@) =~= seq![DrawCmdV::Quad(quad_view(q2))]);
                        }
                        Ok((node, cmds))
                    }
                }
            }
            Component::Text(t) => Self::rendered_text(t, parent_top_left, parent_bottom_right, c),
            Component::Layout(l) => Self::rendered_layout(l, parent_top_left, parent_bottom_right, c),
        }
    }

    /// The container arm of [`Component::rendered`]: resolves the box and
    /// renders every child against it, in insertion order.
    #[verifier::rlimit(80)]
    fn rendered_layout(
        l: &LayoutComponent,
        parent_top_left: &Point,
        parent_bottom_right: &Point,
        c: &Component,
    ) -> (r: Result<(Component, Vec<DrawCommand>), LayoutError>)
        requires
            *c == Component::Layout(*l),
            node_wf(component_view(*c)),
            parent_top_left.wf(),
            parent_bottom_right.wf(),
        ensures
            (match r {
                Ok(pair) => {
                    &&& render_v(component_view(*c), parent_top_left@, parent_bottom_right@)
                        matches Some(s)
                    &&& component_view(pair.0) == s.0
                    &&& cmds_view(pair.1@) == s.1
                    &&& node_wf(component_view(pair.0))
                }
                Err(e) => e == LayoutError::NumericOverflow && render_v(
                    component_view(*c),
                    parent_top_left@,
                    parent_bottom_right@,
                ) is None,
            }),
        decreases *c, 0int,
    {
        broadcast use lemma_views_of, crate::rational::Frac::lemma_wf_view;

        match resolve_basic(&l.basic, parent_top_left, parent_bottom_right) {
            None => Err(LayoutError::NumericOverflow),
            Some((atl, abr)) => {
                let ghost vs = views_of(l.components@);
                proof {
                    assert(component_view(*c) == (NodeV::Layout {
                        basic: basic_view(l.basic),
                        components: vs,
                    }));
                    assert(forall|k: int|
                        0 <= k < vs.len() ==> node_wf(#[trigger] vs[k]));
                }
                let mut new_children: Vec<Component> = Vec::new();
                let mut cmds: Vec<DrawCommand> = Vec::new();
                let mut i: usize = 0;
                #[verifier::loop_isolation(false)]
                while i < l.components.len()
                    invariant
                        i <= l.components@.len(),
                        new_children@.len() == i,
                        forall|k: int|
                            0 <= k < i ==> node_wf(
                                component_view(#[trigger] new_children@[k]),
                            ),
                        (match render_children_v(vs, i as int, atl@, abr@) {
                            Some(t) => {
                                &&& render_children_v(vs, 0, atl@, abr@) matches Some(
                                    whole,
                                )
                                &&& whole.0 == views_of(new_children@) + t.0
                                &&& whole.1 == cmds_view(cmds@) + t.1
                            }
                            None => render_children_v(vs, 0, atl@, abr@) is None,
                        }),
                    decreases l.components@.len() - i,
                {
                    proof {
                        assert(*l == (*c)->Layout_0);
                        assert(decreases_to!(*c => (*c)->Layout_0));
                        assert(decreases_to!(*l => l.components));
                        assert(decreases_to!(l.components => l.components@));
                        assert(decreases_to!(l.components@ => l.components@[i as int]));
                        assert(decreases_to!(*c => l.components@[i as int]));
                    }
                    let ghost nc1 = new_children@;
                    let ghost cm1 = cmds@;
                    match Self::rendered(&l.components[i], &atl, &abr) {
                        Err(e) => {
                            return Err(e);
                        }
                        Ok((node, mut k)) => {
                            let ghost k0 = k@;
                            proof {
                                let h = render_v(vs[i as int], atl@, abr@)->Some_0;
                                assert(render_children_v(vs, i as int, atl@, abr@)
                                    matches Some(t1) ==> t1.0 == seq![h.0]
                                    + render_children_v(vs, i + 1, atl@, abr@)->Some_0.0);
                            }
                            new_children.push(node);
                            cmds.append(&mut k);
                            proof {
                                let h = render_v(vs[i as int], atl@, abr@)->Some_0;
                                assert(views_of(new_children@) =~= views_of(nc1)
                                    + seq![component_view(node)]);
                                assert(cmds_view(cmds@) =~= cmds_view(cm1) + cmds_view(
                                    k0,
                                ));
                                if render_children_v(vs, i + 1, atl@, abr@) is Some {
                                    let t2 = render_children_v(
                                        vs,
                                        i + 1,
                                        atl@,
                                        abr@,
                                    )->Some_0;
                                    assert((views_of(nc1) + seq![h.0]) + t2.0
                                        =~= views_of(nc1) + (seq![h.0] + t2.0));
                                    assert((cmds_view(cm1) + h.1) + t2.1 =~= cmds_view(
                                        cm1,
                                    ) + (h.1 + t2.1));
                                }
                            }
                            i = i + 1;
                        }
                    }
                }
                proof {
                    assert(render_children_v(vs, l.components@.len() as int, atl@, abr@)
                        == Some((Seq::<NodeV>::empty(), Seq::<DrawCmdV>::empty())));
                    let whole = render_children_v(vs, 0, atl@, abr@)->Some_0;
                    assert(whole.0 =~= views_of(new_children@) + Seq::<NodeV>::empty());
                    assert(views_of(new_children@) + Seq::<NodeV>::empty() =~= views_of(
                        new_children@,
                    ));
                    assert(whole.1 =~= cmds_view(cmds@) + Seq::<DrawCmdV>::empty());
                    assert(cmds_view(cmds@) + Seq::<DrawCmdV>::empty() =~= cmds_view(
                        cmds@,
                    ));
                }
                let node = Component::Layout(
                    LayoutComponent {
                        basic: cleaned_basic(&l.basic, atl, abr),
                        components: new_children,
                    },
                );
                Ok((node, cmds))
            }
        }
    }

    /// The text arm of [`Component::rendered`]: resolves the glyph box
    /// inside the absolute box and maps every glyph segment into it.
    fn rendered_text(
        t: &TextComponent,
        parent_top_left: &Point,
        parent_bottom_right: &Point,
        c: &Component,
    ) -> (r: Result<(Component, Vec<DrawCommand>), LayoutError>)
        requires
            *c == Component::Text(*t),
            node_wf(component_view(*c)),
            parent_top_left.wf(),
            parent_bottom_right.wf(),
        ensures
            (match r {
                Ok(pair) => {
                    &&& render_v(component_view(*c), parent_top_left@, parent_bottom_right@)
                        matches Some(s)
                    &&& component_view(pair.0) == s.0
                    &&& cmds_view(pair.1@) == s.1
                    &&& node_wf(component_view(pair.0))
                }
                Err(e) => e == LayoutError::NumericOverflow && render_v(
                    component_view(*c),
                    parent_top_left@,
                    parent_bottom_right@,
                ) is None,
            }),
    {
        broadcast use crate::rational::Frac::lemma_wf_view;

        match resolve_basic(&t.basic, parent_top_left, parent_bottom_right) {
            None => Err(LayoutError::NumericOverflow),
            Some((atl, abr)) => {
                if !t.basic.needs_resize {
                    let node = Component::Text(
                        TextComponent {
                            basic: cleaned_basic(&t.basic, atl, abr),
                            font_style: t.font_style,
                            svg: LineSvg {
                                lines: clone_lines(&t.svg.lines),
                                color: t.svg.color,
                                abs_lines: clone_lines(&t.svg.abs_lines),
                            },
                        },
                    );
                    let mut cmds: Vec<DrawCommand> = Vec::new();
                    cmds.push(
                        DrawCommand::Lines {
                            lines: clone_lines(&t.svg.abs_lines),
                            color: t.svg.color,
                        },
                    );
                    proof {
                        assert(cmds_view(cmds@) =~= seq![DrawCmdV::Lines {
                            lines: lines_view(t.svg.abs_lines@),
                            color: t.svg.color,
                        }]);
                    }
                    return Ok((node, cmds));
                }
                let font_br = match font_box_exec(&atl, &abr, &t.font_style) {
                    Some(p) => p,
                    None => {
                        return Err(LayoutError::NumericOverflow);
                    }
                };
                proof {
                    assert forall|k: int|
                        0 <= k < t.svg.lines@.len() implies (#[trigger] t.svg.lines@[k]).wf() by {
                        assert(line_wf_v(lines_view(t.svg.lines@)[k]));
                        assert(lines_view(t.svg.lines@)[k] == line_view(t.svg.lines@[k]));
                    }
                }
                let abs_lines = match map_lines_exec(&t.svg.lines, &atl, &font_br) {
                    Some(v) => v,
                    None => {
                        return Err(LayoutError::NumericOverflow);
                    }
                };
                let cmd_lines = clone_lines(&abs_lines);
                let node = Component::Text(
                    TextComponent {
                        basic: cleaned_basic(&t.basic, atl, abr),
                        font_style: t.font_style,
                        svg: LineSvg {
                            lines: clone_lines(&t.svg.lines),
                            color: t.svg.color,
                            abs_lines,
                        },
                    },
                );
                let mut cmds: Vec<DrawCommand> = Vec::new();
                cmds.push(DrawCommand::Lines { lines: cmd_lines, color: t.svg.color });
                proof {
                    let all = map_lines_v(
                        lines_view(t.svg.lines@),
                        atl@,
                        font_br@,
                        0,
                    )->Some_0;
                    assert(cmds_view(cmds@) =~= seq![DrawCmdV::Lines {
                        lines: all,
                        color: t.svg.color,
                    }]);
                }
                Ok((node, cmds))
            }
        }
    }

    /// Renders the node against the parent box into `sink`.  On success the
    /// node holds its resolved state; on overflow nothing changes.
    pub fn render(
        &mut self,
        parent_top_left: &Point,
        parent_bottom_right: &Point,
        sink: &mut Vec<DrawCommand>,
    ) -> (r: Result<(), LayoutError>)
        requires
            node_wf(component_view(*old(self))),
            parent_top_left.wf(),
            parent_bottom_right.wf(),
        ensures
            (match r {
                Ok(()) => {
                    &&& render_v(
                        component_view(*old(self)),
                        parent_top_left@,
                        parent_bottom_right@,
                    ) matches Some(s)
                    &&& component_view(*final(self)) == s.0
                    &&& node_wf(component_view(*final(self)))
                    &&& cmds_view(final(sink)@) == cmds_view(old(sink)@) + s.1
                    &&& final(sink)@.len() == old(sink)@.len() + s.1.len()
                    &&& final(sink)@.subrange(0, old(sink)@.len() as int) == old(sink)@
                }
                Err(e) => {
                    &&& e == LayoutError::NumericOverflow
                    &&& render_v(
                        component_view(*old(self)),
                        parent_top_left@,
                        parent_bottom_right@,
                    ) is None
                    &&& *final(self) == *old(self)
                    &&& final(sink)@ == old(sink)@
                }
            }),
    {
        match Self::rendered(&*self, parent_top_left, parent_bottom_right) {
            Ok((node, mut cmds)) => {
                *self = node;
                let ghost added = cmds@;
                sink.append(&mut cmds);
                proof {
                    assert(cmds_view(sink@) =~= cmds_view(old(sink)@) + cmds_view(added));
                    assert(sink@.subrange(0, old(sink)@.len() as int) =~= old(sink)@);
                }
                Ok(())
            }
            Err(e) => Err(e),
        }
    }
}

} // verus!
verus! {

// ---------------------------------------------------------------------------
// Laws of the tree.
// ---------------------------------------------------------------------------

/// Dirty propagation, first half: after a resize notice, every node of the
/// subtree — every descendant leaf included — is dirty.
pub proof fn lemma_on_resize_marks_all_dirty(n: NodeV)
    ensures
        all_dirty_v(marked_dirty_v(n)),
    decreases n,
{
    broadcast use lemma_mark_all;

    match n {
        NodeV::Layout { basic, components } => {
            let m = marked_dirty_v(n);
            assert(m == (NodeV::Layout {
                basic: BasicV { needs_resize: true, ..basic },
                components: mark_all_v(components),
            }));
            assert forall|k: int| 0 <= k < mark_all_v(components).len() implies all_dirty_v(
                #[trigger] mark_all_v(components)[k],
            ) by {
                lemma_mark_all(components);
                lemma_on_resize_marks_all_dirty(components[k]);
                assert(mark_all_v(components)[k] == marked_dirty_v(components[k]));
            }
            assert(all_dirty_v(m));
        }
        _ => {}
    }
}

/// Dirty propagation, second half: a successful render leaves every node
/// of the subtree clean, so its geometry was regenerated no earlier than
/// this render.
pub proof fn lemma_render_clears_dirty(n: NodeV, ptl: RatPoint, pbr: RatPoint)
    ensures
        render_v(n, ptl, pbr) matches Some(p) ==> all_clean_v(p.0),
    decreases n, 1int,
{
    match render_v(n, ptl, pbr) {
        None => {}
        Some(p) => {
            match n {
                NodeV::Layout { basic, components } => {
                    let ab = resolved_abs(basic, ptl, pbr)->Some_0;
                    lemma_render_children_clear(components, 0, ab.0, ab.1);
                }
                _ => {}
            }
        }
    }
}

/// Each child a successful render returns is clean.
proof fn lemma_render_children_clear(cs: Seq<NodeV>, i: int, tl: RatPoint, br: RatPoint)
    ensures
        render_children_v(cs, i, tl, br) matches Some(t) ==> {
            &&& t.0.len() == if 0 <= i <= cs.len() {
                cs.len() - i
            } else {
                0
            }
            &&& forall|k: int| 0 <= k < t.0.len() ==> all_clean_v(#[trigger] t.0[k])
        },
    decreases cs, cs.len() - i,
{
    if 0 <= i < cs.len() {
        match render_children_v(cs, i, tl, br) {
            None => {}
            Some(t) => {
                lemma_render_clears_dirty(cs[i], tl, br);
                lemma_render_children_clear(cs, i + 1, tl, br);
            }
        }
    }
}

/// Whether a node is the clickable leaf variant.
pub open spec fn is_clickable_v(n: NodeV) -> bool {
    n matches NodeV::Clickable { .. }
}

pub open spec fn clickable_action(n: NodeV) -> u64 {
    match n {
        NodeV::Clickable { action, .. } => action,
        NodeV::Button { callback, .. } => callback,
        _ => 0,
    }
}

/// One event for each child that contains the point, in insertion order.
pub open spec fn clickable_fanout(cs: Seq<NodeV>, pos: Point, i: int) -> Seq<ClickEvent>
    decreases cs.len() - i,
{
    if i < 0 || i >= cs.len() {
        Seq::empty()
    } else {
        (if in_bound_v(cs[i], pos@) {
            seq![ClickEvent { action: clickable_action(cs[i]), position: pos }]
        } else {
            Seq::empty()
        }) + clickable_fanout(cs, pos, i + 1)
    }
}

proof fn lemma_click_children_fanout(cs: Seq<NodeV>, pos: Point, i: int)
    requires
        forall|k: int| i <= k < cs.len() ==> is_clickable_v(#[trigger] cs[k]),
    ensures
        click_children(cs, i, pos) == clickable_fanout(cs, pos, i),
    decreases cs.len() - i,
{
    if 0 <= i < cs.len() {
        lemma_click_children_fanout(cs, pos, i + 1);
        assert(is_clickable_v(cs[i]));
        let head = if in_bound_v(cs[i], pos@) {
            click_events(cs[i], pos)
        } else {
            Seq::<ClickEvent>::empty()
        };
        let head2 = if in_bound_v(cs[i], pos@) {
            seq![ClickEvent { action: clickable_action(cs[i]), position: pos }]
        } else {
            Seq::<ClickEvent>::empty()
        };
        assert(head =~= head2);
        assert(click_children(cs, i, pos) == head + click_children(cs, i + 1, pos));
        assert(clickable_fanout(cs, pos, i) == head2 + clickable_fanout(cs, pos, i + 1));
    }
}

/// Click fan-out: when a container of clickable children dispatches a
/// click, every child whose box contains the point — overlapping children
/// included — receives it exactly once, in insertion order, and a child
/// not containing the point receives nothing.
pub proof fn lemma_click_fan_out(basic: BasicV, cs: Seq<NodeV>, pos: Point)
    requires
        forall|k: int| 0 <= k < cs.len() ==> is_clickable_v(#[trigger] cs[k]),
    ensures
        click_events(NodeV::Layout { basic, components: cs }, pos) == clickable_fanout(cs, pos, 0),
{
    lemma_click_children_fanout(cs, pos, 0);
}

} // verus!

verus! {

/// The glyph box's bottom-right corner, from the absolute box and the
/// font-style percentages.
fn font_box_exec(atl: &Point, abr: &Point, style: &crate::components::text::FontStyle) -> (r:
    Option<Point>)
    requires
        atl.wf(),
        abr.wf(),
        style.wf(),
    ensures
        (match r {
            Some(p) => try_font_box(atl@, abr@, style.size_x@, style.size_y@) == Some(p@)
                && p.wf(),
            None => try_font_box(atl@, abr@, style.size_x@, style.size_y@) is None,
        }),
{
    let hundredth = Frac::new(1, 100);
    let fx = match style.size_x.try_mul(&hundredth) {
        Some(v) => v,
        None => {
            return None;
        }
    };
    let fy = match style.size_y.try_mul(&hundredth) {
        Some(v) => v,
        None => {
            return None;
        }
    };
    let dx = match abr.x.try_sub(&atl.x) {
        Some(v) => v,
        None => {
            return None;
        }
    };
    let ox = match dx.try_mul(&fx) {
        Some(v) => v,
        None => {
            return None;
        }
    };
    let bx = match atl.x.try_add(&ox) {
        Some(v) => v,
        None => {
            return None;
        }
    };
    let dy = match atl.y.try_sub(&abr.y) {
        Some(v) => v,
        None => {
            return None;
        }
    };
    let oy = match dy.try_mul(&fy) {
        Some(v) => v,
        None => {
            return None;
        }
    };
    let by = match atl.y.try_sub(&oy) {
        Some(v) => v,
        None => {
            return None;
        }
    };
    Some(Point { x: bx, y: by })
}

/// Maps every glyph segment into the glyph box; `None` exactly when a
/// coordinate overflows.
fn map_lines_exec(lines: &Vec<Line>, atl: &Point, fbr: &Point) -> (r: Option<Vec<Line>>)
    requires
        forall|k: int| 0 <= k < lines@.len() ==> (#[trigger] lines@[k]).wf(),
        atl.wf(),
        fbr.wf(),
    ensures
        (match r {
            Some(v) => {
                &&& map_lines_v(lines_view(lines@), atl@, fbr@, 0) matches Some(all)
                &&& lines_view(v@) == all
                &&& forall|k: int| 0 <= k < v@.len() ==> (#[trigger] v@[k]).wf()
            }
            None => map_lines_v(lines_view(lines@), atl@, fbr@, 0) is None,
        }),
{
    broadcast use crate::rational::Frac::lemma_wf_view;

    let ghost lv = lines_view(lines@);
    let mut out: Vec<Line> = Vec::new();
    let mut i: usize = 0;
    #[verifier::loop_isolation(false)]
    while i < lines.len()
        invariant
            i <= lines@.len(),
            lv.len() == lines@.len(),
            forall|k: int| 0 <= k < out@.len() ==> (#[trigger] out@[k]).wf(),
            (match map_lines_v(lv, atl@, fbr@, i as int) {
                Some(rest) => {
                    &&& map_lines_v(lv, atl@, fbr@, 0) matches Some(all)
                    &&& all.len() == out@.len() + rest.len()
                    &&& forall|k: int|
                        0 <= k < out@.len() ==> all[k] == line_view(#[trigger] out@[k])
                    &&& forall|k: int|
                        out@.len() <= k < all.len() ==> all[k] == rest[k - out@.len()]
                }
                None => map_lines_v(lv, atl@, fbr@, 0) is None,
            }),
        decreases lines@.len() - i,
    {
        let l = lines[i];
        proof {
            assert(lv[i as int] == line_view(lines@[i as int]));
        }
        let e1 = Point { x: l.x1, y: l.y1 };
        let e2 = Point { x: l.x2, y: l.y2 };
        let p1 = ComponentUtils::calculate_absolute_point_from_relative_view_points(
            atl,
            fbr,
            &e1,
        );
        let p2 = ComponentUtils::calculate_absolute_point_from_relative_view_points(
            atl,
            fbr,
            &e2,
        );
        match (p1, p2) {
            (Some(a), Some(b)) => {
                out.push(Line { x1: a.x, y1: a.y, x2: b.x, y2: b.y });
            }
            _ => {
                return None;
            }
        }
        i = i + 1;
    }
    proof {
        let all = map_lines_v(lv, atl@, fbr@, 0)->Some_0;
        assert(lines_view(out@) =~= all);
    }
    Some(out)
}

} // verus!
verus! {

// ---------------------------------------------------------------------------
// The checked operations against the exact model: whenever the 64-bit
// resolution succeeds, its result is equal in value to the exact one, so
// the laws above speak about what the executable mapper returns.
// ---------------------------------------------------------------------------

/// A successful checked view-to-compute axis equals the exact map.
proof fn lemma_try_axis_v2c_exact(a: Rat)
    requires
        rat_wf(a),
    ensures
        try_axis_v2c(a) matches Some(v) ==> rat_wf(v) && rat_eq(v, v2c_x_rat(a)),
{
    broadcast use lemma_add_wf_auto, lemma_sub_wf_auto, lemma_mul_wf_auto, lemma_neg_wf_auto;

    lemma_consts_wf();
    if try_axis_v2c(a) is Some {
        let s = try_rat_add(a, rat_one())->Some_0;
        let v = try_axis_v2c(a)->Some_0;
        lemma_try_ops_exact(a, rat_one());
        lemma_try_ops_exact(s, rat_half());
        lemma_congruence(s, rat_add(a, rat_one()), rat_half(), rat_half());
        lemma_rat_eq_trans(v, rat_mul(s, rat_half()), v2c_x_rat(a));
    }
}

/// A successful checked compute-to-view axis equals the exact map.
proof fn lemma_try_axis_c2v_exact(a: Rat)
    requires
        rat_wf(a),
    ensures
        try_axis_c2v(a) matches Some(v) ==> rat_wf(v) && rat_eq(v, c2v_x_rat(a)),
{
    broadcast use lemma_add_wf_auto, lemma_sub_wf_auto, lemma_mul_wf_auto, lemma_neg_wf_auto;

    lemma_consts_wf();
    if try_axis_c2v(a) is Some {
        let s = try_rat_mul(a, rat_two())->Some_0;
        let v = try_axis_c2v(a)->Some_0;
        lemma_try_ops_exact(a, rat_two());
        lemma_try_ops_exact(s, rat_one());
        lemma_congruence(s, rat_mul(a, rat_two()), rat_one(), rat_one());
        lemma_rat_eq_trans(v, rat_sub(s, rat_one()), c2v_x_rat(a));
    }
}

/// A successful checked interpolation axis equals the exact one.
proof fn lemma_try_axis_lerp_exact(p1: Rat, p2: Rat, t: Rat)
    requires
        rat_wf(p1),
        rat_wf(p2),
        rat_wf(t),
    ensures
        try_axis_lerp(p1, p2, t) matches Some(v) ==> rat_wf(v) && rat_eq(v, lerp_rat(p1, p2, t)),
{
    broadcast use lemma_add_wf_auto, lemma_sub_wf_auto, lemma_mul_wf_auto, lemma_neg_wf_auto;

    if try_axis_lerp(p1, p2, t) is Some {
        let d = try_rat_sub(p2, p1)->Some_0;
        let m = try_rat_mul(d, t)->Some_0;
        let v = try_axis_lerp(p1, p2, t)->Some_0;
        lemma_try_ops_exact(p2, p1);
        lemma_try_ops_exact(d, t);
        lemma_try_ops_exact(p1, m);
        lemma_congruence(d, rat_sub(p2, p1), t, t);
        lemma_rat_eq_trans(m, rat_mul(d, t), rat_mul(rat_sub(p2, p1), t));
        lemma_congruence(p1, p1, m, rat_mul(rat_sub(p2, p1), t));
        lemma_rat_eq_trans(v, rat_add(p1, m), lerp_rat(p1, p2, t));
    }
}

/// A successful checked view-to-compute of a point equals the exact map.
proof fn lemma_try_v2c_exact(p: RatPoint)
    requires
        rpt_wf(p),
    ensures
        try_view_to_compute(p) matches Some(v) ==> rpt_wf(v) && rpt_eq(v, view_to_compute_rat(p)),
{
    broadcast use lemma_neg_wf_auto;

    lemma_try_axis_v2c_exact(p.x);
    lemma_try_axis_v2c_exact(rat_neg(p.y));
}

/// A successful checked compute-to-view of a point equals the exact map.
proof fn lemma_try_c2v_exact(p: RatPoint)
    requires
        rpt_wf(p),
    ensures
        try_compute_to_view(p) matches Some(v) ==> rpt_wf(v) && rpt_eq(v, compute_to_view_rat(p)),
{
    broadcast use lemma_neg_wf_auto;

    lemma_try_axis_c2v_exact(p.x);
    lemma_try_axis_c2v_exact(p.y);
    if try_compute_to_view(p) is Some {
        let y = try_axis_c2v(p.y)->Some_0;
        lemma_congruence(y, c2v_x_rat(p.y), rat_one(), rat_one());
    }
}

/// Exactness of the whole checked resolution: whenever the 64-bit mapper
/// resolves a point, the result equals the exact resolution, so the
/// round-trip, identity-parent and nesting laws carry over to it.
pub proof fn lemma_try_resolve_point_exact(ptl: RatPoint, pbr: RatPoint, p: RatPoint)
    requires
        rpt_wf(ptl),
        rpt_wf(pbr),
        rpt_wf(p),
    ensures
        try_resolve_point(ptl, pbr, p) matches Some(v) ==> rpt_wf(v) && rpt_eq(
            v,
            resolve_point_rat(ptl, pbr, p),
        ),
{
    broadcast use lemma_add_wf_auto, lemma_sub_wf_auto, lemma_mul_wf_auto, lemma_neg_wf_auto;

    lemma_consts_wf();
    if try_resolve_point(ptl, pbr, p) is Some {
        let ctl = try_view_to_compute(ptl)->Some_0;
        let cbr = try_view_to_compute(pbr)->Some_0;
        let t = try_view_to_compute(p)->Some_0;
        let q = try_interpolate(ctl, cbr, t)->Some_0;
        let v = try_resolve_point(ptl, pbr, p)->Some_0;
        lemma_try_v2c_exact(ptl);
        lemma_try_v2c_exact(pbr);
        lemma_try_v2c_exact(p);
        let etl = view_to_compute_rat(ptl);
        let ebr = view_to_compute_rat(pbr);
        let et = view_to_compute_rat(p);
        lemma_try_axis_lerp_exact(ctl.x, cbr.x, t.x);
        lemma_try_axis_lerp_exact(ctl.y, cbr.y, t.y);
        lemma_lerp_congr(ctl.x, etl.x, cbr.x, ebr.x, t.x, et.x);
        lemma_lerp_congr(ctl.y, etl.y, cbr.y, ebr.y, t.y, et.y);
        lemma_rat_eq_trans(q.x, lerp_rat(ctl.x, cbr.x, t.x), lerp_rat(etl.x, ebr.x, et.x));
        lemma_rat_eq_trans(q.y, lerp_rat(ctl.y, cbr.y, t.y), lerp_rat(etl.y, ebr.y, et.y));
        let eq = interpolate_rat(etl, ebr, et);
        lemma_try_c2v_exact(q);
        let cv = try_compute_to_view(q)->Some_0;
        lemma_c2v_x_congr(q.x, eq.x);
        lemma_c2v_y_congr(q.y, eq.y);
        lemma_rat_eq_trans(cv.x, c2v_x_rat(q.x), c2v_x_rat(eq.x));
        lemma_rat_eq_trans(cv.y, c2v_y_rat(q.y), c2v_y_rat(eq.y));
    }
}

} // verus!
