use vstd::prelude::*;
use crate::point::Point;

verus! {

/// What a pointer event sets off when it reaches a listener slot.
#[derive(Clone, Copy, Debug, PartialEq, Eq, Structural)]
pub enum Listener {
    /// Pointer-down begins a freehand stroke.
    PencilStart,
    /// Pointer-move extends the freehand stroke from the point recorded last.
    PencilAdvance(Point),
    /// Pointer-up or pointer-leave ends the freehand stroke.
    PencilEnd,
    /// Pointer-down fixes the first endpoint of a straight line.
    LineStart,
    /// Pointer-move previews the line from its fixed first endpoint.
    LineAdvance(Point),
    /// Pointer-up or pointer-leave draws the line from its fixed first endpoint.
    LineEnd(Point),
}

/// The four listener slots of the pointer source.
#[derive(Clone, Copy, Debug, PartialEq, Eq, Structural)]
pub struct CanvasEvents {
    pub body_on_mouse_down: Option<Listener>,
    pub body_on_mouse_move: Option<Listener>,
    pub body_on_mouse_up: Option<Listener>,
    pub body_on_mouse_leave: Option<Listener>,
}

impl CanvasEvents {
    /// No slot holds a listener.
    pub open spec fn is_clear(&self) -> bool {
        &&& self.body_on_mouse_down.is_none()
        &&& self.body_on_mouse_move.is_none()
        &&& self.body_on_mouse_up.is_none()
        &&& self.body_on_mouse_leave.is_none()
    }

    pub fn new() -> (events: CanvasEvents)
        ensures
            events.is_clear(),
    {
        CanvasEvents {
            body_on_mouse_down: None,
            body_on_mouse_move: None,
            body_on_mouse_up: None,
            body_on_mouse_leave: None,
        }
    }
}

} // verus!
