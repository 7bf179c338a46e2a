use boxtree::components::component::{Component, Point};
use boxtree::components::layout::LayoutComponent;
use boxtree::components::text::{FontStyle, TextComponent};
use boxtree::rational::Frac;
use boxtree::svg::{Builder, Svg};
use boxtree::{Color, DrawCommand, LayoutError};

fn fr(n: i64, d: i64) -> Frac {
    Frac::new(n, d)
}

fn pt(nx: i64, dx: i64, ny: i64, dy: i64) -> Point {
    Point::new(fr(nx, dx), fr(ny, dy))
}

fn blue() -> Color {
    Color { r: 0, g: 0, b: 255 }
}

#[test]
fn outline_flattens_to_normalised_segments() {
    // A line from (0,0) to (100,200) in a 100x200 glyph box normalises to
    // the unit diagonal; the quadratic curve contributes its chord.
    let mut b = Builder::new();
    b.move_to(fr(0, 1), fr(0, 1));
    b.line_to(fr(100, 1), fr(200, 1));
    b.quad_to(fr(10, 1), fr(10, 1), fr(50, 1), fr(100, 1));
    b.close();
    let svg = Svg::new(b, fr(100, 1), fr(200, 1));
    let lines = svg.get_lines().unwrap();
    assert_eq!(lines.len(), 2);
    assert!(lines[0].x1.eq_val(&fr(0, 1)));
    assert!(lines[0].y1.eq_val(&fr(0, 1)));
    assert!(lines[0].x2.eq_val(&fr(1, 1)));
    assert!(lines[0].y2.eq_val(&fr(1, 1)));
    // The chord starts at the previous endpoint.
    assert!(lines[1].x1.eq_val(&fr(1, 1)));
    assert!(lines[1].x2.eq_val(&fr(1, 2)));
    assert!(lines[1].y2.eq_val(&fr(1, 2)));
}

#[test]
fn moves_and_cubic_curves_draw_nothing() {
    let mut b = Builder::new();
    b.move_to(fr(1, 1), fr(2, 1));
    b.curve_to(fr(0, 1), fr(0, 1), fr(1, 1), fr(1, 1), fr(9, 1), fr(9, 1));
    b.close();
    let svg = Svg::new(b, fr(10, 1), fr(10, 1));
    let lines = svg.get_lines().unwrap();
    assert_eq!(lines.len(), 0);
}

#[test]
fn text_without_outline_is_missing_glyph() {
    let b = Builder::new();
    let svg = Svg::new(b, fr(10, 1), fr(10, 1));
    let style = FontStyle { size_x: fr(50, 1), size_y: fr(50, 1), color: blue() };
    let r = TextComponent::new(pt(-1, 1, 1, 1), pt(1, 1, -1, 1), svg, style);
    assert_eq!(r.unwrap_err(), LayoutError::MissingGlyph);
}

#[test]
fn text_scales_glyph_lines_into_its_box() {
    // One diagonal segment of the unit glyph box, drawn at half size inside
    // the full canvas: the glyph box runs from (-1,1) to (0,0), so the
    // segment maps to (-1/2,1/2) -> (0,1) under the inverted-y convention.
    let mut b = Builder::new();
    b.move_to(fr(0, 1), fr(0, 1));
    b.line_to(fr(100, 1), fr(200, 1));
    let svg = Svg::new(b, fr(100, 1), fr(200, 1));
    let style = FontStyle { size_x: fr(50, 1), size_y: fr(50, 1), color: blue() };
    let text = TextComponent::new(pt(-1, 1, 1, 1), pt(1, 1, -1, 1), svg, style).unwrap();

    let mut root = LayoutComponent::new(pt(-1, 1, 1, 1), pt(1, 1, -1, 1)).unwrap();
    root.add_component(Component::Text(text));
    let mut tree = Component::Layout(root);
    let mut sink: Vec<DrawCommand> = Vec::new();
    tree.render(&pt(-1, 1, 1, 1), &pt(1, 1, -1, 1), &mut sink).unwrap();
    assert_eq!(sink.len(), 1);
    match &sink[0] {
        DrawCommand::Lines { lines, color } => {
            assert_eq!(*color, blue());
            assert_eq!(lines.len(), 1);
            assert!(lines[0].x1.eq_val(&fr(-1, 2)));
            assert!(lines[0].y1.eq_val(&fr(1, 2)));
            assert!(lines[0].x2.eq_val(&fr(0, 1)));
            assert!(lines[0].y2.eq_val(&fr(1, 1)));
        }
        _ => panic!("expected lines"),
    }
}

#[test]
fn overflowing_normalisation_is_reported() {
    // A coordinate with a huge denominator divided by a huge bounding box
    // cannot be represented any more: the outline reports the overflow and
    // a text widget built from it fails with the same error.
    let mut b = Builder::new();
    b.move_to(fr(0, 1), fr(0, 1));
    b.line_to(fr(3, i64::MAX - 2), fr(1, 1));
    let svg = Svg::new(b, fr(i64::MAX - 1, 1), fr(1, 1));
    assert!(svg.get_lines().is_none());

    let mut b2 = Builder::new();
    b2.move_to(fr(0, 1), fr(0, 1));
    b2.line_to(fr(3, i64::MAX - 2), fr(1, 1));
    let svg2 = Svg::new(b2, fr(i64::MAX - 1, 1), fr(1, 1));
    let style = FontStyle { size_x: fr(50, 1), size_y: fr(50, 1), color: blue() };
    let r = TextComponent::new(pt(-1, 1, 1, 1), pt(1, 1, -1, 1), svg2, style);
    assert_eq!(r.unwrap_err(), LayoutError::NumericOverflow);
}
