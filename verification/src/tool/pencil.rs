//! The freehand tool: each pointer move draws the stroke from the point
//! recorded last to the pointer and records the pointer in its place.

use vstd::prelude::*;
use crate::canvas::canvas::Canvas;
use crate::canvas::canvas_events::{CanvasEvents, Listener};
use crate::canvas::{clipped, lemma_drawn_stroke_is_on_canvas};
use crate::color::Color;
use crate::line::BorderCrossings;
use crate::point::Point;
use crate::tool::line::{lemma_on_canvas_is_in_rows, put, with_stroke};
use crate::tool::tool_bar::ToolBar;
use crate::tool::Tool;

verus! {

/// The listeners while the pencil waits for a pointer-down.
pub open spec fn armed() -> CanvasEvents {
    CanvasEvents {
        body_on_mouse_down: Some(Listener::PencilStart),
        body_on_mouse_move: None,
        body_on_mouse_up: None,
        body_on_mouse_leave: None,
    }
}

/// The listeners while a freehand stroke is drawn whose last point is `last`.
pub open spec fn dragging(last: Point) -> CanvasEvents {
    CanvasEvents {
        body_on_mouse_down: None,
        body_on_mouse_move: Some(Listener::PencilAdvance(last)),
        body_on_mouse_up: Some(Listener::PencilEnd),
        body_on_mouse_leave: Some(Listener::PencilEnd),
    }
}

/// Selects the pencil, and no other tool, and arms its pointer-down listener.
pub fn init(canvas: &mut Canvas, tool_bar: &mut ToolBar)
    ensures
        *final(tool_bar) == ToolBar::only(Tool::Pencil),
        final(canvas).events == (CanvasEvents {
            body_on_mouse_down: Some(Listener::PencilStart),
            ..old(canvas).events
        }),
        final(canvas).body == (CanvasEvents {
            body_on_mouse_down: Some(Listener::PencilStart),
            ..old(canvas).body
        }),
        final(canvas).same_image(old(canvas)),
{
    tool_bar.select_only(Tool::Pencil);
    canvas.set_on_mouse_down(Some(Listener::PencilStart));
}

/// Pointer-down at `point`: a freehand stroke begins there.
pub fn start(canvas: &mut Canvas, point: Point)
    ensures
        final(canvas).events == dragging(point),
        final(canvas).body == dragging(point),
        final(canvas).same_image(old(canvas)),
{
    canvas.set_on_mouse_down(None);
    canvas.set_on_mouse_move(Some(Listener::PencilAdvance(point)));
    canvas.set_on_mouse_up(Some(Listener::PencilEnd));
    canvas.set_on_mouse_leave(Some(Listener::PencilEnd));
}

/// Pointer-move to `point`: what the canvas shows of the stroke from `last`
/// to `point` is drawn, and `point` is recorded in place of `last`. Tells
/// whether anything was drawn.
pub fn advance(
    canvas: &mut Canvas,
    last: &Point,
    point: &Point,
    crossings: &BorderCrossings,
    color: &Color,
) -> (drawn: bool)
    requires
        old(canvas).wf(),
    ensures
        final(canvas).wf(),
        final(canvas).width == old(canvas).width,
        final(canvas).height == old(canvas).height,
        drawn == clipped(old(canvas).width, old(canvas).height, *last, *point, *crossings).is_some(),
        final(canvas).pixels@ == with_stroke(
            old(canvas).pixels@,
            old(canvas).width,
            old(canvas).height,
            *last,
            *point,
            *crossings,
            *color,
        ),
        final(canvas).events == (CanvasEvents {
            body_on_mouse_move: Some(Listener::PencilAdvance(*point)),
            ..old(canvas).events
        }),
        final(canvas).body == (CanvasEvents {
            body_on_mouse_move: Some(Listener::PencilAdvance(*point)),
            ..old(canvas).body
        }),
{
    let segment = canvas.get_segment(last, point, crossings);
    let mut drawn = false;
    if let Some(segment) = segment {
        proof {
            lemma_drawn_stroke_is_on_canvas(canvas.width, canvas.height, *last, *point, *crossings);
            lemma_on_canvas_is_in_rows(canvas.width, canvas.height, segment.a);
            lemma_on_canvas_is_in_rows(canvas.width, canvas.height, segment.b);
        }
        let width = canvas.width;
        put(&mut canvas.pixels, &width, &segment, color);
        drawn = true;
    }
    canvas.set_on_mouse_move(Some(Listener::PencilAdvance(*point)));
    drawn
}

/// Pointer-up or pointer-leave: the stroke ends and the pencil waits for the
/// next pointer-down.
pub fn end(canvas: &mut Canvas)
    ensures
        final(canvas).events == armed(),
        final(canvas).body == armed(),
        final(canvas).same_image(old(canvas)),
{
    canvas.set_on_mouse_move(None);
    canvas.set_on_mouse_up(None);
    canvas.set_on_mouse_leave(None);
    canvas.set_on_mouse_down(Some(Listener::PencilStart));
}

} // verus!
