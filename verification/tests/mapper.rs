use boxtree::components::component::{ComponentUtils, Point};
use boxtree::rational::Frac;

fn fr(n: i64, d: i64) -> Frac {
    Frac::new(n, d)
}

fn pt(nx: i64, dx: i64, ny: i64, dy: i64) -> Point {
    Point::new(fr(nx, dx), fr(ny, dy))
}

fn assert_pt_eq(p: &Point, nx: i64, dx: i64, ny: i64, dy: i64) {
    assert!(p.x.eq_val(&fr(nx, dx)), "x was {}/{}", p.x.num(), p.x.den());
    assert!(p.y.eq_val(&fr(ny, dy)), "y was {}/{}", p.y.num(), p.y.den());
}

#[test]
fn view_to_compute_corners() {
    let c = ComponentUtils::view_to_compute(&pt(-1, 1, 1, 1)).unwrap();
    assert_pt_eq(&c, 0, 1, 0, 1);
    let c = ComponentUtils::view_to_compute(&pt(1, 1, -1, 1)).unwrap();
    assert_pt_eq(&c, 1, 1, 1, 1);
    let c = ComponentUtils::view_to_compute(&pt(0, 1, 0, 1)).unwrap();
    assert_pt_eq(&c, 1, 2, 1, 2);
}

#[test]
fn round_trip_is_identity() {
    // Round trip: view -> compute -> view returns the point exactly.
    for &(nx, dx, ny, dy) in &[(-1i64, 2i64, 3i64, 4i64), (1, 1, -1, 1), (0, 1, 7, 10), (-7, 10, -3, 5)] {
        let p = pt(nx, dx, ny, dy);
        let c = ComponentUtils::view_to_compute(&p).unwrap();
        let v = ComponentUtils::compute_to_view(&c).unwrap();
        assert_pt_eq(&v, nx, dx, ny, dy);
    }
}

#[test]
fn identity_parent_returns_box_unchanged() {
    // Resolving against the full canvas (-1,1)-(1,-1) is the identity.
    let ptl = pt(-1, 1, 1, 1);
    let pbr = pt(1, 1, -1, 1);
    let (tl, br) = ComponentUtils::calculate_absolute_box_from_relative_view_points(
        &ptl,
        &pbr,
        &pt(-7, 10, 7, 10),
        &pt(7, 10, -7, 10),
    )
    .unwrap();
    assert_pt_eq(&tl, -7, 10, 7, 10);
    assert_pt_eq(&br, 7, 10, -7, 10);
}

#[test]
fn nesting_is_associative() {
    // Resolving C inside B inside A equals resolving C against the
    // already-resolved B.
    let a_tl = pt(-1, 2, 1, 2);
    let a_br = pt(1, 2, -1, 2);
    let b_tl = pt(0, 1, 1, 1);
    let b_br = pt(1, 1, 0, 1);
    let c = pt(1, 3, 1, 3);

    let inner = ComponentUtils::calculate_absolute_point_from_relative_view_points(
        &b_tl, &b_br, &c,
    )
    .unwrap();
    let one_step = ComponentUtils::calculate_absolute_point_from_relative_view_points(
        &a_tl, &a_br, &inner,
    )
    .unwrap();

    let rb_tl = ComponentUtils::calculate_absolute_point_from_relative_view_points(
        &a_tl, &a_br, &b_tl,
    )
    .unwrap();
    let rb_br = ComponentUtils::calculate_absolute_point_from_relative_view_points(
        &a_tl, &a_br, &b_br,
    )
    .unwrap();
    let two_step = ComponentUtils::calculate_absolute_point_from_relative_view_points(
        &rb_tl, &rb_br, &c,
    )
    .unwrap();

    assert!(one_step.x.eq_val(&two_step.x));
    assert!(one_step.y.eq_val(&two_step.y));
}

#[test]
fn scenario_child_inside_container() {
    // Container A with box (-0.7,0.7)-(0.7,-0.7) resolves to itself against
    // the root; a child with box (-1,1)-(1,0.7) inside A's absolute box
    // resolves to (-0.7,0.7)-(0.7,0.49) by the interpolation formula.
    let root_tl = pt(-1, 1, 1, 1);
    let root_br = pt(1, 1, -1, 1);
    let (a_tl, a_br) = ComponentUtils::calculate_absolute_box_from_relative_view_points(
        &root_tl,
        &root_br,
        &pt(-7, 10, 7, 10),
        &pt(7, 10, -7, 10),
    )
    .unwrap();
    assert_pt_eq(&a_tl, -7, 10, 7, 10);
    assert_pt_eq(&a_br, 7, 10, -7, 10);

    let (c_tl, c_br) = ComponentUtils::calculate_absolute_box_from_relative_view_points(
        &a_tl,
        &a_br,
        &pt(-1, 1, 1, 1),
        &pt(1, 1, 7, 10),
    )
    .unwrap();
    assert_pt_eq(&c_tl, -7, 10, 7, 10);
    assert_pt_eq(&c_br, 7, 10, 49, 100);
}

#[test]
fn boundary_points_are_outside() {
    let tl = pt(-1, 2, 1, 2);
    let br = pt(1, 2, -1, 2);
    // Strictly inside.
    assert!(ComponentUtils::point_in_box(&tl, &br, &pt(0, 1, 0, 1)));
    // On each edge: never in bound.
    assert!(!ComponentUtils::point_in_box(&tl, &br, &pt(1, 2, 0, 1)));
    assert!(!ComponentUtils::point_in_box(&tl, &br, &pt(-1, 2, 0, 1)));
    assert!(!ComponentUtils::point_in_box(&tl, &br, &pt(0, 1, 1, 2)));
    assert!(!ComponentUtils::point_in_box(&tl, &br, &pt(0, 1, -1, 2)));
    // A corner.
    assert!(!ComponentUtils::point_in_box(&tl, &br, &pt(1, 2, 1, 2)));
    // Equivalent fraction on an edge is still an edge.
    assert!(!ComponentUtils::point_in_box(&tl, &br, &pt(2, 4, 0, 1)));
    // Outside entirely.
    assert!(!ComponentUtils::point_in_box(&tl, &br, &pt(3, 4, 0, 1)));
}

#[test]
fn pixel_to_view_maps_corners_and_centre() {
    let p = ComponentUtils::pixel_to_view(0, 0, 800, 600);
    assert!(p.x.eq_val(&fr(-1, 1)));
    assert!(p.y.eq_val(&fr(1, 1)));
    let p = ComponentUtils::pixel_to_view(400, 300, 800, 600);
    assert!(p.x.eq_val(&fr(0, 1)));
    assert!(p.y.eq_val(&fr(0, 1)));
    let p = ComponentUtils::pixel_to_view(800, 600, 800, 600);
    assert!(p.x.eq_val(&fr(1, 1)));
    assert!(p.y.eq_val(&fr(-1, 1)));
}

#[test]
fn fractions_reduce_and_overflow_is_detected() {
    let sum = fr(2, 4).try_add(&fr(1, 4)).unwrap();
    assert_eq!(sum.num(), 3);
    assert_eq!(sum.den(), 4);
    let big = fr(i64::MAX, 1);
    assert!(big.try_mul(&big).is_none());
    assert!(big.try_add(&fr(1, 1)).is_none());
    // A result that reduces back into range succeeds.
    let half = fr(i64::MAX - 1, 2).try_mul(&fr(2, i64::MAX - 1)).unwrap();
    assert_eq!(half.num(), 1);
    assert_eq!(half.den(), 1);
}
