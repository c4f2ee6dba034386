use std::rc::Rc;
use vstd::prelude::*;

use crate::event::{ClickKind, Event, EventKind};
use crate::geometry::Point;
use crate::state::{AnimationState, Callback, Geometry, Theme};
use crate::widget::Widget;

verus! {

/// One draw primitive handed to the rendering sink.
#[derive(Copy, Clone, Debug, PartialEq, Eq, Structural)]
pub enum DrawOp {
    /// Fill a background image, in the given visual variant, over a rectangle.
    Background { image: u32, state: AnimationState, position: Point, size: crate::geometry::Size },
}

/// `a + b`, held at `usize::MAX`.
pub open spec fn sat_add(a: usize, b: usize) -> usize {
    if a + b > usize::MAX {
        usize::MAX
    } else {
        (a + b) as usize
    }
}

/// The layout most widgets use: a theme, when bound, places the widget at its
/// offset inside the parent's content area (whose corner is `origin`) and gives
/// its size and border; without a theme the geometry is kept.
pub open spec fn base_layout(g: Geometry, theme: Option<Theme>, origin: Point) -> Geometry {
    match theme {
        Some(t) => Geometry {
            size: t.size,
            position: Point {
                x: sat_add(origin.x, t.position.x),
                y: sat_add(origin.y, t.position.y),
            },
            border: t.border,
        },
        None => g,
    }
}

pub fn do_base_layout(g: Geometry, theme: Option<Theme>, origin: Point) -> (r: Geometry)
    ensures
        r == base_layout(g, theme, origin),
{
    match theme {
        Some(t) => Geometry {
            size: t.size,
            position: Point {
                x: origin.x.saturating_add(t.position.x),
                y: origin.y.saturating_add(t.position.y),
            },
            border: t.border,
        },
        None => g,
    }
}

/// The behavior of a kind of widget: its layout, its drawing and how it
/// answers events. An answer of `true` means the event was handled.
pub trait WidgetKind {
    /// Whether this kind handles `event` at its own level.
    spec fn handles(&self, event: Event) -> bool;

    /// The geometry this kind takes, from its current one, its theme and the
    /// corner of the parent's content area.
    spec fn layout_of(&self, g: Geometry, theme: Option<Theme>, origin: Point) -> Geometry;

    /// What this kind draws itself, at the given geometry.
    spec fn draw_ops(&self, g: Geometry) -> Seq<DrawOp>;

    /// Laying out an already laid-out widget changes nothing.
    proof fn lemma_layout_idempotent(&self, g: Geometry, theme: Option<Theme>, origin: Point)
        ensures
            self.layout_of(self.layout_of(g, theme, origin), theme, origin) == self.layout_of(
                g,
                theme,
                origin,
            ),
    ;

    /// The name of this kind.
    spec fn name(&self) -> Seq<char>;

    fn get_name(&self) -> (r: &'static str)
        ensures
            r@ == self.name(),
    ;

    fn layout(&self, g: Geometry, theme: Option<Theme>, origin: Point) -> (r: Geometry)
        ensures
            r == self.layout_of(g, theme, origin),
    ;

    fn draw_text_mode(&self, g: Geometry, out: &mut Vec<DrawOp>)
        ensures
            final(out)@ == old(out)@ + self.draw_ops(g),
    ;

    fn on_mouse_click(&self, kind: ClickKind, mouse: Point) -> (r: bool)
        ensures
            r == self.handles(Event { kind: EventKind::MouseClick(kind), mouse }),
    ;

    fn on_mouse_move(&self, dx: i32, dy: i32, mouse: Point) -> (r: bool)
        ensures
            r == self.handles(Event { kind: EventKind::MouseMove { dx, dy }, mouse }),
    ;

    fn on_mouse_enter(&self, mouse: Point) -> (r: bool)
        ensures
            r == self.handles(Event { kind: EventKind::MouseEnter, mouse }),
    ;

    fn on_mouse_exit(&self, mouse: Point) -> (r: bool)
        ensures
            r == self.handles(Event { kind: EventKind::MouseExit, mouse }),
    ;

    fn on_mouse_scroll(&self, scroll: i32, mouse: Point) -> (r: bool)
        ensures
            r == self.handles(Event { kind: EventKind::MouseScroll { scroll }, mouse }),
    ;

    fn on_key_press(&self, action: u32, mouse: Point) -> (r: bool)
        ensures
            r == self.handles(Event { kind: EventKind::KeyPress(action), mouse }),
    ;
}

/// A dialog that asks to confirm an action.
#[derive(Copy, Clone, Debug, PartialEq, Eq, Structural)]
pub struct ConfirmationWindow {
    pub accept_callback: Callback,
}

/// A fresh widget of the given control, bound to the theme entry `theme_id`
/// and holding the given callbacks.
pub open spec fn control_widget(
    w: Widget<Control>,
    control: Control,
    theme_id: Seq<char>,
    callbacks: Seq<Callback>,
) -> bool {
    &&& w.wf()
    &&& w.nodes@.len() == 1
    &&& *w.nodes@[0].kind == control
    &&& w.nodes@[0].children@.len() == 0
    &&& w.nodes@[0].state.theme_id@ == theme_id
    &&& w.nodes@[0].state.callbacks@ == callbacks
}

impl ConfirmationWindow {
    /// The behavior of a confirmation dialog whose accept button runs `accept_callback`.
    pub fn new(accept_callback: Callback) -> (r: Rc<Control>)
        ensures
            *r == Control::ConfirmationWindow(ConfirmationWindow { accept_callback }),
    {
        Rc::new(Control::ConfirmationWindow(ConfirmationWindow { accept_callback }))
    }

    /// The children the dialog is given when it is added to a tree, in order:
    /// a cancel button that removes the dialog, an accept button that runs the
    /// accept callback, and a title label.
    pub fn on_add(&self) -> (r: Vec<Widget<Control>>)
        ensures
            r@.len() == 3,
            control_widget(r@[0], Control::Button, "cancel"@, seq![Callback::RemoveParent]),
            control_widget(r@[1], Control::Button, "accept"@, seq![self.accept_callback]),
            control_widget(r@[2], Control::Label, "title"@, Seq::empty()),
    {
        let mut label = Widget::with_defaults(Rc::new(Control::Label));
        label.nodes[0].state.theme_id = "title".to_owned();
        let mut cancel = Widget::with_defaults(Rc::new(Control::Button));
        cancel.nodes[0].state.theme_id = "cancel".to_owned();
        cancel.nodes[0].state.add_callback(Callback::RemoveParent);
        let mut accept = Widget::with_defaults(Rc::new(Control::Button));
        accept.nodes[0].state.theme_id = "accept".to_owned();
        accept.nodes[0].state.add_callback(self.accept_callback);
        assert(cancel.nodes@[0].state.callbacks@ =~= seq![Callback::RemoveParent]);
        assert(accept.nodes@[0].state.callbacks@ =~= seq![self.accept_callback]);
        assert(label.nodes@[0].state.callbacks@ =~= Seq::<Callback>::empty());
        let mut r: Vec<Widget<Control>> = Vec::new();
        r.push(cancel);
        r.push(accept);
        r.push(label);
        r
    }
}

/// The controls this library provides.
#[derive(Copy, Clone, Debug, PartialEq, Eq, Structural)]
pub enum Control {
    /// Shows text; handles no event.
    Label,
    /// Handles clicks.
    Button,
    ConfirmationWindow(ConfirmationWindow),
}

impl WidgetKind for Control {
    open spec fn handles(&self, event: Event) -> bool {
        *self == Control::Button && event.kind is MouseClick
    }

    open spec fn layout_of(&self, g: Geometry, theme: Option<Theme>, origin: Point) -> Geometry {
        base_layout(g, theme, origin)
    }

    open spec fn name(&self) -> Seq<char> {
        match self {
            Control::Label => "label"@,
            Control::Button => "button"@,
            Control::ConfirmationWindow(_) => "confirmation_window"@,
        }
    }

    open spec fn draw_ops(&self, g: Geometry) -> Seq<DrawOp> {
        Seq::empty()
    }

    proof fn lemma_layout_idempotent(&self, g: Geometry, theme: Option<Theme>, origin: Point) {
    }

    fn get_name(&self) -> (r: &'static str) {
        match self {
            Control::Label => "label",
            Control::Button => "button",
            Control::ConfirmationWindow(_) => "confirmation_window",
        }
    }

    fn layout(&self, g: Geometry, theme: Option<Theme>, origin: Point) -> (r: Geometry) {
        do_base_layout(g, theme, origin)
    }

    fn draw_text_mode(&self, g: Geometry, out: &mut Vec<DrawOp>) {
        assert(old(out)@ + Seq::<DrawOp>::empty() =~= old(out)@);
    }

    fn on_mouse_click(&self, kind: ClickKind, mouse: Point) -> (r: bool) {
        match self {
            Control::Button => true,
            _ => false,
        }
    }

    fn on_mouse_move(&self, dx: i32, dy: i32, mouse: Point) -> (r: bool) {
        false
    }

    fn on_mouse_enter(&self, mouse: Point) -> (r: bool) {
        false
    }

    fn on_mouse_exit(&self, mouse: Point) -> (r: bool) {
        false
    }

    fn on_mouse_scroll(&self, scroll: i32, mouse: Point) -> (r: bool) {
        false
    }

    fn on_key_press(&self, action: u32, mouse: Point) -> (r: bool) {
        false
    }
}

} // verus!
