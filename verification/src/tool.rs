//! The drawing tools and the state machines that pointer events drive.

use vstd::prelude::*;
use crate::canvas::canvas::Canvas;
use crate::canvas::canvas_events::{CanvasEvents, Listener};
use crate::canvas::clipped;
use crate::color::Color;
use crate::line::BorderCrossings;
use crate::point::Point;
use crate::segment::Segment;
use crate::text::same_text;
use crate::tool::line::with_stroke;
use crate::tool::tool_bar::ToolBar;

pub mod color_picker;
pub mod line;
pub mod pencil;
pub mod tool_bar;

verus! {

/// A button of the tool bar.
#[derive(Clone, Copy, Debug, PartialEq, Eq, Structural)]
pub enum Tool {
    Pencil,
    Line,
    Color,
}

/// The tool an identifier names, if it names one.
pub open spec fn tool_of(id: Seq<char>) -> Option<Tool> {
    if id == "pencil"@ {
        Some(Tool::Pencil)
    } else if id == "line"@ {
        Some(Tool::Line)
    } else if id == "color"@ {
        Some(Tool::Color)
    } else {
        None
    }
}

impl Tool {
    pub fn from_id(id: &str) -> (tool: Option<Tool>)
        ensures
            tool == tool_of(id@),
    {
        if same_text(id, "pencil") {
            Some(Tool::Pencil)
        } else if same_text(id, "line") {
            Some(Tool::Line)
        } else if same_text(id, "color") {
            Some(Tool::Color)
        } else {
            None
        }
    }
}

/// The kinds of pointer event that reach the canvas.
#[derive(Clone, Copy, Debug, PartialEq, Eq, Structural)]
pub enum PointerEvent {
    Down,
    Move,
    Up,
    Leave,
}

/// What the display has to show once an event is handled.
#[derive(Debug)]
pub enum Shown {
    /// What it shows already.
    Unchanged,
    /// The canvas, which has changed.
    Canvas,
    /// These pixels in place of the canvas, in rows of the width of the canvas.
    Preview(Vec<Color>),
}

/// The listener that an event reaches, if one is attached for it.
pub open spec fn listener_for(attached: CanvasEvents, event: PointerEvent) -> Option<Listener> {
    match event {
        PointerEvent::Down => attached.body_on_mouse_down,
        PointerEvent::Move => attached.body_on_mouse_move,
        PointerEvent::Up => attached.body_on_mouse_up,
        PointerEvent::Leave => attached.body_on_mouse_leave,
    }
}

/// The stroke that an event at `point` asks to draw or to preview, before
/// it is clipped to the canvas.
pub open spec fn stroke_for(attached: CanvasEvents, event: PointerEvent, point: Point) -> Option<
    Segment,
> {
    match listener_for(attached, event) {
        Some(Listener::PencilAdvance(last)) => Some(Segment { a: last, b: point }),
        Some(Listener::LineAdvance(anchor)) => Some(Segment { a: anchor, b: point }),
        Some(Listener::LineEnd(anchor)) => Some(Segment { a: anchor, b: point }),
        _ => None,
    }
}

/// The listeners without any of them.
pub open spec fn no_listeners() -> CanvasEvents {
    CanvasEvents {
        body_on_mouse_down: None,
        body_on_mouse_move: None,
        body_on_mouse_up: None,
        body_on_mouse_leave: None,
    }
}

/// The listeners of a drawing tool that waits for a pointer-down; the color
/// picker has none.
pub open spec fn armed(tool: Tool) -> CanvasEvents {
    match tool {
        Tool::Pencil => pencil::armed(),
        Tool::Line => line::armed(),
        Tool::Color => no_listeners(),
    }
}

/// The tool bar after a click on the button of a tool.
///
/// The button of the color picker shows as selected from then on. The
/// button of a drawing tool is switched: if it was selected no button is
/// selected afterwards, else this button and no other.
pub open spec fn bar_after_select(bar: ToolBar, tool: Tool) -> ToolBar {
    match tool {
        Tool::Color => bar.with(Tool::Color, true),
        _ => if bar.is_selected(tool) {
            bar.with(tool, false)
        } else {
            ToolBar::only(tool)
        },
    }
}

/// The listeners after a click on the button of a tool.
///
/// The color picker leaves them alone. A drawing tool first removes every
/// listener there is; unless the click deselected it, it then arms its own
/// pointer-down listener.
pub open spec fn listeners_after_select(bar: ToolBar, listeners: CanvasEvents, tool: Tool) -> CanvasEvents {
    match tool {
        Tool::Color => listeners,
        _ => if bar.is_selected(tool) {
            no_listeners()
        } else {
            armed(tool)
        },
    }
}

/// What handling a pointer event makes of the canvas and asks of the display.
pub open spec fn handled(
    before: Canvas,
    after: Canvas,
    shown: Shown,
    event: PointerEvent,
    point: Point,
    crossings: BorderCrossings,
    color: Color,
) -> bool {
    match listener_for(before.body, event) {
        None => after == before && shown is Unchanged,
        Some(Listener::PencilStart) => {
            &&& after.events == pencil::dragging(point)
            &&& after.body == pencil::dragging(point)
            &&& after.same_image(&before)
            &&& shown is Unchanged
        },
        Some(Listener::PencilAdvance(last)) => {
            &&& after.width == before.width
            &&& after.height == before.height
            &&& after.pixels@ == with_stroke(
                before.pixels@,
                before.width,
                before.height,
                last,
                point,
                crossings,
                color,
            )
            &&& after.events == (CanvasEvents {
                body_on_mouse_move: Some(Listener::PencilAdvance(point)),
                ..before.events
            })
            &&& after.body == (CanvasEvents {
                body_on_mouse_move: Some(Listener::PencilAdvance(point)),
                ..before.body
            })
            &&& if clipped(before.width, before.height, last, point, crossings).is_some() {
                shown is Canvas
            } else {
                shown is Unchanged
            }
        },
        Some(Listener::PencilEnd) => {
            &&& after.events == pencil::armed()
            &&& after.body == pencil::armed()
            &&& after.same_image(&before)
            &&& shown is Unchanged
        },
        Some(Listener::LineStart) => {
            &&& after.events == line::dragging(point)
            &&& after.body == line::dragging(point)
            &&& after.same_image(&before)
            &&& shown is Unchanged
        },
        Some(Listener::LineAdvance(anchor)) => {
            &&& after == before
            &&& shown matches Shown::Preview(pixels) && pixels@ == with_stroke(
                before.pixels@,
                before.width,
                before.height,
                anchor,
                point,
                crossings,
                color,
            )
        },
        Some(Listener::LineEnd(anchor)) => {
            &&& after.width == before.width
            &&& after.height == before.height
            &&& after.pixels@ == with_stroke(
                before.pixels@,
                before.width,
                before.height,
                anchor,
                point,
                crossings,
                color,
            )
            &&& after.events == line::armed()
            &&& after.body == line::armed()
            &&& if clipped(before.width, before.height, anchor, point, crossings).is_some() {
                shown is Canvas
            } else {
                shown is Unchanged
            }
        },
    }
}

/// A click on the button of a tool.
pub fn on_tool_select(canvas: &mut Canvas, tool_bar: &mut ToolBar, tool: Tool)
    ensures
        *final(tool_bar) == bar_after_select(*old(tool_bar), tool),
        final(canvas).events == listeners_after_select(*old(tool_bar), old(canvas).events, tool),
        final(canvas).body == listeners_after_select(*old(tool_bar), old(canvas).body, tool),
        final(canvas).same_image(old(canvas)),
{
    if let Tool::Color = tool {
        color_picker::init(tool_bar);
        return ;
    }
    canvas.set_on_mouse_down(None);
    canvas.set_on_mouse_move(None);
    canvas.set_on_mouse_up(None);
    canvas.set_on_mouse_leave(None);
    if tool_bar.selected(tool) {
        tool_bar.set_selected(tool, false);
        return ;
    }
    if let Tool::Pencil = tool {
        pencil::init(canvas, tool_bar);
    } else {
        line::init(canvas, tool_bar);
    }
}

/// The stroke that an event at `point` asks to draw or to preview, before
/// it is clipped to the canvas.
pub fn pending_stroke(canvas: &Canvas, event: PointerEvent, point: Point) -> (stroke: Option<
    Segment,
>)
    ensures
        stroke == stroke_for(canvas.body, event, point),
{
    match attached_listener(canvas, event) {
        Some(Listener::PencilAdvance(last)) => Some(Segment::new(last, point)),
        Some(Listener::LineAdvance(anchor)) => Some(Segment::new(anchor, point)),
        Some(Listener::LineEnd(anchor)) => Some(Segment::new(anchor, point)),
        _ => None,
    }
}

/// The listener that an event reaches, if one is attached for it.
pub fn attached_listener(canvas: &Canvas, event: PointerEvent) -> (listener: Option<Listener>)
    ensures
        listener == listener_for(canvas.body, event),
{
    match event {
        PointerEvent::Down => canvas.body.body_on_mouse_down,
        PointerEvent::Move => canvas.body.body_on_mouse_move,
        PointerEvent::Up => canvas.body.body_on_mouse_up,
        PointerEvent::Leave => canvas.body.body_on_mouse_leave,
    }
}

/// Hands a pointer event at `point` to the listener attached for it, if
/// there is one. `crossings` are the border crossings of the line through
/// the stroke that the event asks for, where it asks for one.
pub fn on_pointer(
    canvas: &mut Canvas,
    event: PointerEvent,
    point: Point,
    crossings: &BorderCrossings,
    color: &Color,
) -> (shown: Shown)
    requires
        old(canvas).wf(),
    ensures
        final(canvas).wf(),
        handled(*old(canvas), *final(canvas), shown, event, point, *crossings, *color),
{
    match attached_listener(canvas, event) {
        None => Shown::Unchanged,
        Some(Listener::PencilStart) => {
            pencil::start(canvas, point);
            Shown::Unchanged
        },
        Some(Listener::PencilAdvance(last)) => {
            if pencil::advance(canvas, &last, &point, crossings, color) {
                Shown::Canvas
            } else {
                Shown::Unchanged
            }
        },
        Some(Listener::PencilEnd) => {
            pencil::end(canvas);
            Shown::Unchanged
        },
        Some(Listener::LineStart) => {
            line::start(canvas, point);
            Shown::Unchanged
        },
        Some(Listener::LineAdvance(anchor)) => {
            Shown::Preview(line::advance(canvas, &anchor, &point, crossings, color))
        },
        Some(Listener::LineEnd(anchor)) => {
            if line::end(canvas, &anchor, &point, crossings, color) {
                Shown::Canvas
            } else {
                Shown::Unchanged
            }
        },
    }
}

/// Selecting a drawing tool that is not selected, and then selecting it once
/// more, leaves no button selected and no listener registered or attached.
pub proof fn lemma_selecting_twice_disarms(bar: ToolBar, listeners: CanvasEvents, tool: Tool)
    requires
        tool != Tool::Color,
        !bar.is_selected(tool),
    ensures
        ({
            let bar_once = bar_after_select(bar, tool);
            let listeners_once = listeners_after_select(bar, listeners, tool);
            &&& bar_once == ToolBar::only(tool)
            &&& listeners_once == armed(tool)
            &&& bar_after_select(bar_once, tool).is_clear()
            &&& listeners_after_select(bar_once, listeners_once, tool).is_clear()
        }),
{
}

/// Selecting the drawing tool that is selected deselects it and leaves no
/// listener registered or attached.
pub proof fn lemma_selecting_selected_tool_disarms(
    bar: ToolBar,
    listeners: CanvasEvents,
    tool: Tool,
)
    requires
        tool != Tool::Color,
        bar.is_selected(tool),
    ensures
        !bar_after_select(bar, tool).is_selected(tool),
        listeners_after_select(bar, listeners, tool).is_clear(),
{
}

/// While no listener is attached no pointer event changes the canvas or
/// what the display shows.
pub proof fn lemma_no_listener_no_drawing(
    before: Canvas,
    after: Canvas,
    shown: Shown,
    event: PointerEvent,
    point: Point,
    crossings: BorderCrossings,
    color: Color,
)
    requires
        before.body.is_clear(),
        handled(before, after, shown, event, point, crossings, color),
    ensures
        after == before,
        shown is Unchanged,
{
}

} // verus!
