use vstd::prelude::*;

use crate::geometry::{Border, Point, Size};

verus! {

/// The visual variant a widget is drawn in.
#[derive(Copy, Clone, Debug, PartialEq, Eq, Structural)]
pub enum AnimationState {
    Base,
    Hover,
    Pressed,
    Disabled,
}

/// An action registered on a widget, run when the widget is activated.
#[derive(Copy, Clone, Debug, PartialEq, Eq, Structural)]
pub enum Callback {
    /// Remove this widget's parent from the tree.
    RemoveParent,
    /// An action of the application, by number.
    Action(u32),
}

/// Geometry that a theme gives a widget; the position is relative to the
/// parent's content area.
#[derive(Copy, Clone, Debug, PartialEq, Eq, Structural)]
pub struct Theme {
    pub size: Size,
    pub position: Point,
    pub border: Border,
}

/// Where a widget stands and how large it is.
#[derive(Copy, Clone, Debug, PartialEq, Eq, Structural)]
pub struct Geometry {
    pub size: Size,
    pub position: Point,
    pub border: Border,
}

/// Presentation state of one widget.
pub struct WidgetState {
    pub size: Size,
    pub position: Point,
    pub border: Border,
    pub mouse_is_inside: bool,
    /// Background image, by number in the resource set.
    pub background: Option<u32>,
    pub animation_state: AnimationState,
    pub callbacks: Vec<Callback>,
    pub theme: Option<Theme>,
    /// Name of the theme entry this widget is bound to; empty when unbound.
    pub theme_id: String,
}

/// The pointer is inside the rectangle at `position` of extent `size`.
pub open spec fn contains(position: Point, size: Size, p: Point) -> bool {
    position.x <= p.x < position.x + size.width && position.y <= p.y < position.y + size.height
}

impl WidgetState {
    pub open spec fn geometry(&self) -> Geometry {
        Geometry { size: self.size, position: self.position, border: self.border }
    }

    pub fn new(size: Size, position: Point, border: Border) -> (r: WidgetState)
        ensures
            r.size == size,
            r.position == position,
            r.border == border,
            !r.mouse_is_inside,
            r.background is None,
            r.animation_state == AnimationState::Base,
            r.callbacks@.len() == 0,
            r.theme is None,
            r.theme_id@.len() == 0,
    {
        WidgetState {
            size,
            position,
            border,
            mouse_is_inside: false,
            background: None,
            animation_state: AnimationState::Base,
            callbacks: Vec::new(),
            theme: None,
            theme_id: String::new(),
        }
    }

    /// Hit test against position and size.
    pub fn in_bounds(&self, p: Point) -> (r: bool)
        ensures
            r == contains(self.position, self.size, p),
    {
        p.x >= self.position.x && p.x - self.position.x < self.size.width && p.y
            >= self.position.y && p.y - self.position.y < self.size.height
    }

    pub fn add_callback(&mut self, callback: Callback)
        ensures
            final(self).callbacks@ == old(self).callbacks@.push(callback),
            final(self).size == old(self).size,
            final(self).position == old(self).position,
            final(self).border == old(self).border,
            final(self).mouse_is_inside == old(self).mouse_is_inside,
            final(self).background == old(self).background,
            final(self).animation_state == old(self).animation_state,
            final(self).theme == old(self).theme,
            final(self).theme_id == old(self).theme_id,
    {
        self.callbacks.push(callback);
    }
}

} // verus!
