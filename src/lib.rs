//! Core of a retained-mode UI: geometry, inline text markup, the widget
//! tree with hit-testing and enter/exit tracking, and the frame scheduler.

mod color;
mod decimal;
mod event;
mod frame;
mod geometry;
mod kinds;
mod markup;
mod state;
mod widget;

pub use color::Color;
pub use decimal::{parse_decimal, Decimal};
pub use event::{ClickKind, Event, EventKind};
pub use frame::{FrameAction, FrameEvent, FrameScheduler, LoopPhase};
pub use geometry::{Border, Point, Size};
pub use kinds::{do_base_layout, ConfirmationWindow, Control, DrawOp, WidgetKind};
pub use markup::{directive_warning, Font, Markup, MarkupKind, TextParams};
pub use state::{AnimationState, Callback, Geometry, Theme, WidgetState};
pub use widget::{Widget, WidgetNode};
