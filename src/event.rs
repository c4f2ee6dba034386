use vstd::prelude::*;

use crate::geometry::Point;

verus! {

/// Which mouse button was clicked.
#[derive(Copy, Clone, Debug, PartialEq, Eq, Structural)]
pub enum ClickKind {
    Primary,
    Secondary,
    Middle,
}

/// What happened.
#[derive(Copy, Clone, Debug, PartialEq, Eq, Structural)]
pub enum EventKind {
    MouseClick(ClickKind),
    MouseMove { dx: i32, dy: i32 },
    MouseEnter,
    MouseExit,
    MouseScroll { scroll: i32 },
    KeyPress(u32),
}

/// An input event and the pointer position it carries.
#[derive(Copy, Clone, Debug, PartialEq, Eq, Structural)]
pub struct Event {
    pub kind: EventKind,
    pub mouse: Point,
}

impl Event {
    pub fn new(kind: EventKind, mouse: Point) -> (r: Event)
        ensures
            r == (Event { kind, mouse }),
    {
        Event { kind, mouse }
    }

    /// The enter event synthesized from `event`: same pointer position.
    pub fn entered_from(event: &Event) -> (r: Event)
        ensures
            r == (Event { kind: EventKind::MouseEnter, mouse: event.mouse }),
    {
        Event { kind: EventKind::MouseEnter, mouse: event.mouse }
    }

    /// The exit event synthesized from `event`: same pointer position.
    pub fn exited_from(event: &Event) -> (r: Event)
        ensures
            r == (Event { kind: EventKind::MouseExit, mouse: event.mouse }),
    {
        Event { kind: EventKind::MouseExit, mouse: event.mouse }
    }
}

} // verus!
