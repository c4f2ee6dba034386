use std::rc::Rc;

use grt::{
    AnimationState, Border, Callback, ClickKind, ConfirmationWindow, Control, DrawOp, Event,
    EventKind, Point, Size, Theme, Widget, WidgetKind,
};

fn button(x: usize, y: usize, w: usize, h: usize) -> Widget<Control> {
    Widget::with_position(Rc::new(Control::Button), Size::new(w, h), Point::new(x, y))
}

fn label(x: usize, y: usize, w: usize, h: usize) -> Widget<Control> {
    Widget::with_position(Rc::new(Control::Label), Size::new(w, h), Point::new(x, y))
}

fn click(x: usize, y: usize) -> Event {
    Event::new(EventKind::MouseClick(ClickKind::Primary), Point::new(x, y))
}

fn moved(x: usize, y: usize) -> Event {
    Event::new(EventKind::MouseMove { dx: 0, dy: 0 }, Point::new(x, y))
}

fn geometry(w: &Widget<Control>) -> Vec<(Size, Point, Border)> {
    w.nodes.iter().map(|n| (n.state.size, n.state.position, n.state.border)).collect()
}

#[test]
fn constructors_set_geometry() {
    let w = Widget::with_defaults(Rc::new(Control::Label));
    assert_eq!(w.nodes.len(), 1);
    assert_eq!(w.nodes[0].state.size, Size::new(0, 0));
    let b = Widget::with_border(
        Rc::new(Control::Button),
        Size::new(5, 6),
        Point::new(1, 2),
        Border::new(1, 1, 2, 2),
    );
    assert_eq!(b.nodes[0].state.border, Border::new(1, 1, 2, 2));
    assert_eq!(b.nodes[0].state.position, Point::new(1, 2));
    let s = Widget::with_size(Rc::new(Control::Label), Size::new(7, 8));
    assert_eq!(s.nodes[0].state.size, Size::new(7, 8));
    assert!(!s.nodes[0].state.mouse_is_inside);
}

#[test]
fn add_child_appends_subtree() {
    let mut root = label(0, 0, 100, 100);
    let mut a = label(0, 0, 50, 50);
    a.add_child(button(0, 0, 10, 10));
    root.add_child(a);
    root.add_child(button(60, 60, 10, 10));
    assert_eq!(root.nodes.len(), 4);
    assert_eq!(root.nodes[0].children, vec![1, 3]);
    assert_eq!(root.nodes[1].children, vec![2]);
    assert_eq!(root.nodes[1].parent, Some(0));
    assert_eq!(root.nodes[2].parent, Some(1));
    assert_eq!(root.nodes[3].parent, Some(0));
}

#[test]
fn first_match_wins_among_overlapping_siblings() {
    let mut root = label(0, 0, 100, 100);
    root.add_child(button(10, 10, 50, 50));
    root.add_child(button(30, 30, 50, 50));
    assert!(root.dispatch_event(click(40, 40)));
    assert!(root.nodes[1].state.mouse_is_inside);
    // The later sibling never saw the event, not even its enter.
    assert!(!root.nodes[2].state.mouse_is_inside);
    // Outside the first, only the second is under the pointer.
    assert!(root.dispatch_event(click(70, 70)));
    assert!(!root.nodes[1].state.mouse_is_inside);
    assert!(root.nodes[2].state.mouse_is_inside);
}

#[test]
fn unhandled_event_is_not_an_error() {
    let mut root = label(0, 0, 100, 100);
    root.add_child(label(10, 10, 20, 20));
    assert!(!root.dispatch_event(click(15, 15)));
    assert!(!root.dispatch_event(click(500, 500)));
}

#[test]
fn own_handler_runs_when_no_child_handles() {
    let mut root = button(0, 0, 100, 100);
    root.add_child(label(10, 10, 20, 20));
    assert!(root.dispatch_event(click(15, 15)));
    assert!(!root.dispatch_event(moved(15, 15)));
}

#[test]
fn enter_and_exit_follow_the_pointer() {
    let mut root = label(0, 0, 100, 100);
    let mut panel = label(10, 10, 40, 40);
    panel.add_child(label(20, 20, 10, 10));
    root.add_child(panel);
    let path = [(5, 5), (12, 12), (25, 25), (25, 25), (45, 45), (80, 80), (12, 12)];
    let expected = [
        (false, false),
        (true, false),
        (true, true),
        (true, true),
        (true, false),
        (false, false),
        (true, false),
    ];
    for (&(x, y), &(outer, inner)) in path.iter().zip(expected.iter()) {
        root.dispatch_event(moved(x, y));
        assert_eq!(root.nodes[1].state.mouse_is_inside, outer);
        assert_eq!(root.nodes[2].state.mouse_is_inside, inner);
    }
}

#[test]
fn layout_places_children_in_content_area() {
    let mut root = label(0, 0, 0, 0);
    root.nodes[0].state.theme = Some(Theme {
        size: Size::new(200, 100),
        position: Point::new(5, 5),
        border: Border::new(2, 2, 3, 3),
    });
    root.add_child(label(0, 0, 1, 1));
    root.nodes[1].state.theme = Some(Theme {
        size: Size::new(20, 10),
        position: Point::new(10, 1),
        border: Border::as_zero(),
    });
    root.add_child(label(7, 8, 9, 9));
    root.layout(Point::new(100, 50));
    assert_eq!(root.nodes[0].state.position, Point::new(105, 55));
    assert_eq!(root.nodes[0].state.size, Size::new(200, 100));
    assert_eq!(root.nodes[1].state.position, Point::new(118, 58));
    assert_eq!(root.nodes[1].state.size, Size::new(20, 10));
    // No theme: geometry kept.
    assert_eq!(root.nodes[2].state.position, Point::new(7, 8));
}

#[test]
fn layout_twice_gives_the_same_geometry() {
    let mut root = label(0, 0, 0, 0);
    root.nodes[0].state.theme = Some(Theme {
        size: Size::new(50, 50),
        position: Point::new(1, 2),
        border: Border::new(1, 1, 1, 1),
    });
    let mut child = label(0, 0, 0, 0);
    child.nodes[0].state.theme = Some(Theme {
        size: Size::new(5, 5),
        position: Point::new(3, 3),
        border: Border::as_zero(),
    });
    root.add_child(child);
    root.layout(Point::new(0, 0));
    let first = geometry(&root);
    root.layout(Point::new(0, 0));
    assert_eq!(geometry(&root), first);
}

#[test]
fn layout_saturates_at_the_edge() {
    let mut root = label(0, 0, 0, 0);
    root.nodes[0].state.theme = Some(Theme {
        size: Size::new(1, 1),
        position: Point::new(10, 10),
        border: Border::as_zero(),
    });
    root.layout(Point::new(usize::MAX - 1, 0));
    assert_eq!(root.nodes[0].state.position, Point::new(usize::MAX, 10));
}

#[test]
fn draw_goes_parent_first_in_child_order() {
    let mut root = label(0, 0, 100, 100);
    root.nodes[0].state.background = Some(1);
    let mut a = label(1, 1, 10, 10);
    a.nodes[0].state.background = Some(2);
    let mut inner = label(2, 2, 5, 5);
    inner.nodes[0].state.background = Some(3);
    inner.nodes[0].state.animation_state = AnimationState::Hover;
    a.add_child(inner);
    root.add_child(a);
    root.add_child(label(50, 50, 5, 5));
    let mut b = label(60, 60, 5, 5);
    b.nodes[0].state.background = Some(4);
    root.add_child(b);
    let mut out = Vec::new();
    root.draw_text_mode(&mut out);
    let images: Vec<u32> = out
        .iter()
        .map(|op| match op {
            DrawOp::Background { image, .. } => *image,
        })
        .collect();
    assert_eq!(images, vec![1, 2, 3, 4]);
    assert_eq!(
        out[2],
        DrawOp::Background {
            image: 3,
            state: AnimationState::Hover,
            position: Point::new(2, 2),
            size: Size::new(5, 5),
        }
    );
}

#[test]
fn confirmation_window_children() {
    let kind = ConfirmationWindow::new(Callback::Action(7));
    assert_eq!(kind.get_name(), "confirmation_window");
    let window = match *kind {
        Control::ConfirmationWindow(w) => w,
        _ => panic!("not a confirmation window"),
    };
    let children = window.on_add();
    assert_eq!(children.len(), 3);
    assert_eq!(*children[0].nodes[0].kind, Control::Button);
    assert_eq!(children[0].nodes[0].state.callbacks, vec![Callback::RemoveParent]);
    assert_eq!(children[0].nodes[0].state.theme_id, "cancel");
    assert_eq!(children[1].nodes[0].state.theme_id, "accept");
    assert_eq!(children[2].nodes[0].state.theme_id, "title");
    assert_eq!(*children[1].nodes[0].kind, Control::Button);
    assert_eq!(children[1].nodes[0].state.callbacks, vec![Callback::Action(7)]);
    assert_eq!(*children[2].nodes[0].kind, Control::Label);
    assert!(children[2].nodes[0].state.callbacks.is_empty());
}

#[test]
fn synthesized_events_keep_position() {
    let e = click(3, 4);
    assert_eq!(Event::entered_from(&e), Event::new(EventKind::MouseEnter, Point::new(3, 4)));
    assert_eq!(Event::exited_from(&e), Event::new(EventKind::MouseExit, Point::new(3, 4)));
}

#[test]
fn kind_names() {
    assert_eq!(Control::Label.get_name(), "label");
    assert_eq!(Control::Button.get_name(), "button");
}

#[test]
fn fresh_widget_has_no_theme_name() {
    let w = label(0, 0, 1, 1);
    assert!(w.nodes[0].state.theme_id.is_empty());
}

#[test]
fn remove_parent_unlinks_the_dialog() {
    let mut root = label(0, 0, 100, 100);
    let mut dialog = label(10, 10, 50, 50);
    dialog.add_child(button(10, 10, 10, 10));
    dialog.add_child(button(30, 30, 10, 10));
    root.add_child(label(0, 0, 5, 5));
    root.add_child(dialog);
    assert_eq!(root.nodes[0].children, vec![1, 2]);
    // Node 3 is the first button of the dialog (node 2).
    root.remove_parent(3);
    assert_eq!(root.nodes[0].children, vec![1]);
    assert_eq!(root.nodes.len(), 5);
    // The dialog is no longer reached by events.
    assert!(!root.dispatch_event(click(15, 15)));
    assert!(!root.nodes[3].state.mouse_is_inside);
}

#[test]
fn remove_parent_of_root_child_does_nothing() {
    let mut root = label(0, 0, 100, 100);
    root.add_child(button(0, 0, 10, 10));
    root.remove_parent(1);
    assert_eq!(root.nodes[0].children, vec![1]);
    root.remove_parent(0);
    root.remove_parent(99);
    assert_eq!(root.nodes[0].children, vec![1]);
}
