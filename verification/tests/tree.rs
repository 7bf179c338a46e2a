use boxtree::components::button::ButtonComponent;
use boxtree::components::clickable::ClickableComponent;
use boxtree::components::component::{Component, ComponentUtils, Point};
use boxtree::components::layout::LayoutComponent;
use boxtree::components::plain::PlainComponent;
use boxtree::rational::Frac;
use boxtree::{ClickEvent, Color, DrawCommand, LayoutError};

fn fr(n: i64, d: i64) -> Frac {
    Frac::new(n, d)
}

fn pt(nx: i64, dx: i64, ny: i64, dy: i64) -> Point {
    Point::new(fr(nx, dx), fr(ny, dy))
}

fn red() -> Color {
    Color { r: 255, g: 0, b: 0 }
}

fn canvas() -> (Point, Point) {
    (pt(-1, 1, 1, 1), pt(1, 1, -1, 1))
}

fn scenario_tree() -> Component {
    // Root layout over the whole canvas, container A at 70%, a plain child
    // covering the top band of A.
    let mut root = LayoutComponent::new(pt(-1, 1, 1, 1), pt(1, 1, -1, 1)).unwrap();
    let mut a = LayoutComponent::new(pt(-7, 10, 7, 10), pt(7, 10, -7, 10)).unwrap();
    let plain = PlainComponent::new(pt(-1, 1, 1, 1), pt(1, 1, 7, 10), red()).unwrap();
    a.add_component(Component::Plain(plain));
    root.add_component(Component::Layout(a));
    Component::Layout(root)
}

#[test]
fn render_resolves_scenario_tree() {
    let mut tree = scenario_tree();
    let (ptl, pbr) = canvas();
    let mut sink: Vec<DrawCommand> = Vec::new();
    tree.render(&ptl, &pbr, &mut sink).unwrap();
    assert_eq!(sink.len(), 1);
    match &sink[0] {
        DrawCommand::Quad(q) => {
            assert!(q.top_left.x.eq_val(&fr(-7, 10)));
            assert!(q.top_left.y.eq_val(&fr(7, 10)));
            assert!(q.bottom_right.x.eq_val(&fr(7, 10)));
            assert!(q.bottom_right.y.eq_val(&fr(49, 100)));
            assert_eq!(q.color, red());
        }
        _ => panic!("expected a quad"),
    }
}

fn leaf_dirty(tree: &Component) -> bool {
    match tree {
        Component::Layout(root) => match &root.components[0] {
            Component::Layout(a) => match &a.components[0] {
                Component::Plain(p) => p.basic.needs_resize,
                _ => panic!("expected plain"),
            },
            _ => panic!("expected layout"),
        },
        _ => panic!("expected layout"),
    }
}

#[test]
fn on_resize_marks_every_descendant_dirty() {
    let mut tree = scenario_tree();
    let (ptl, pbr) = canvas();
    let mut sink: Vec<DrawCommand> = Vec::new();
    assert!(leaf_dirty(&tree));
    tree.render(&ptl, &pbr, &mut sink).unwrap();
    // Dirty is cleared only by a render.
    assert!(!leaf_dirty(&tree));
    tree.on_resize();
    assert!(leaf_dirty(&tree));
    // The next render regenerates the same geometry.
    let mut sink2: Vec<DrawCommand> = Vec::new();
    tree.render(&ptl, &pbr, &mut sink2).unwrap();
    assert!(!leaf_dirty(&tree));
    match (&sink[0], &sink2[0]) {
        (DrawCommand::Quad(q1), DrawCommand::Quad(q2)) => {
            assert!(q1.top_left.x.eq_val(&q2.top_left.x));
            assert!(q1.bottom_right.y.eq_val(&q2.bottom_right.y));
        }
        _ => panic!("expected quads"),
    }
}

#[test]
fn click_fans_out_to_all_overlapping_children_in_order() {
    // Two clickable children share the whole box; both receive the click,
    // in insertion order.
    let mut root = LayoutComponent::new(pt(-1, 1, 1, 1), pt(1, 1, -1, 1)).unwrap();
    let c1 = ClickableComponent::new(pt(-1, 1, 1, 1), pt(1, 1, -1, 1), red(), 7).unwrap();
    let c2 = ClickableComponent::new(pt(-1, 1, 1, 1), pt(1, 1, -1, 1), red(), 8).unwrap();
    root.add_component(Component::Clickable(c1));
    root.add_component(Component::Clickable(c2));
    let mut tree = Component::Layout(root);
    let (ptl, pbr) = canvas();
    let mut sink: Vec<DrawCommand> = Vec::new();
    tree.render(&ptl, &pbr, &mut sink).unwrap();

    let mut events: Vec<ClickEvent> = Vec::new();
    tree.on_click(&pt(0, 1, 0, 1), &mut events);
    assert_eq!(events.len(), 2);
    assert_eq!(events[0].action, 7);
    assert_eq!(events[1].action, 8);
    assert!(events[0].position.x.eq_val(&fr(0, 1)));

    // A point on the shared edge hits neither child.
    let mut edge_events: Vec<ClickEvent> = Vec::new();
    tree.on_click(&pt(1, 1, 0, 1), &mut edge_events);
    assert_eq!(edge_events.len(), 0);
}

#[test]
fn button_reports_its_callback_handle() {
    let mut root = LayoutComponent::new(pt(-1, 1, 1, 1), pt(1, 1, -1, 1)).unwrap();
    let b = ButtonComponent::new(pt(-1, 1, 1, 1), pt(1, 1, 0, 1), red(), 42).unwrap();
    root.add_component(Component::Button(b));
    let mut tree = Component::Layout(root);
    let (ptl, pbr) = canvas();
    let mut sink: Vec<DrawCommand> = Vec::new();
    tree.render(&ptl, &pbr, &mut sink).unwrap();

    let mut events: Vec<ClickEvent> = Vec::new();
    // Inside the button's lower half? The button spans y in (0, 1).
    tree.on_click(&pt(0, 1, 1, 2), &mut events);
    assert_eq!(events.len(), 1);
    assert_eq!(events[0].action, 42);
    // Below the button: nothing.
    let mut misses: Vec<ClickEvent> = Vec::new();
    tree.on_click(&pt(0, 1, -1, 2), &mut misses);
    assert_eq!(misses.len(), 0);
}

#[test]
fn degenerate_boxes_are_rejected() {
    // Inverted on x.
    assert_eq!(
        PlainComponent::new(pt(1, 1, 1, 1), pt(-1, 1, -1, 1), red()).unwrap_err(),
        LayoutError::DegenerateRectangle
    );
    // Inverted on y.
    assert_eq!(
        LayoutComponent::new(pt(-1, 1, -1, 1), pt(1, 1, 1, 1)).unwrap_err(),
        LayoutError::DegenerateRectangle
    );
    // Zero width is degenerate too.
    assert_eq!(
        ClickableComponent::new(pt(0, 1, 1, 1), pt(0, 1, -1, 1), red(), 1).unwrap_err(),
        LayoutError::DegenerateRectangle
    );
}

#[test]
fn resize_replaces_the_box_and_marks_dirty() {
    let mut tree = scenario_tree();
    let (ptl, pbr) = canvas();
    let mut sink: Vec<DrawCommand> = Vec::new();
    tree.render(&ptl, &pbr, &mut sink).unwrap();
    assert!(!leaf_dirty(&tree));

    // A degenerate box is rejected and nothing changes.
    assert_eq!(
        tree.resize(pt(1, 1, 1, 1), pt(-1, 1, -1, 1)).unwrap_err(),
        LayoutError::DegenerateRectangle
    );
    assert!(!leaf_dirty(&tree));

    // A forced resize to the same box still dirties the whole tree.
    assert!(tree.resize(pt(-1, 1, 1, 1), pt(1, 1, -1, 1)).is_ok());
    assert!(leaf_dirty(&tree));
}

#[test]
fn getters_return_the_resolved_absolute_box() {
    let mut tree = scenario_tree();
    let (ptl, pbr) = canvas();
    let mut sink: Vec<DrawCommand> = Vec::new();
    tree.render(&ptl, &pbr, &mut sink).unwrap();
    match &tree {
        Component::Layout(root) => {
            let a = &root.components[0];
            let tl = a.get_top_left();
            let br = a.get_bottom_right();
            assert!(tl.x.eq_val(&fr(-7, 10)));
            assert!(tl.y.eq_val(&fr(7, 10)));
            assert!(br.x.eq_val(&fr(7, 10)));
            assert!(br.y.eq_val(&fr(-7, 10)));
            assert!(a.in_bound(&pt(0, 1, 0, 1)));
            assert!(!a.in_bound(&pt(7, 10, 0, 1)));
        }
        _ => panic!("expected layout"),
    }
}
