use pixel_canvas::canvas::canvas::Canvas;
use pixel_canvas::canvas::canvas_events::{CanvasEvents, Listener};
use pixel_canvas::color::Color;
use pixel_canvas::line::BorderCrossings;
use pixel_canvas::point::Point;
use pixel_canvas::segment::Segment;
use pixel_canvas::tool::tool_bar::ToolBar;
use pixel_canvas::tool::pencil;
use wasm_bindgen::Clamped;
use pixel_canvas::tool::{
    attached_listener, on_pointer, on_tool_select, pending_stroke, PointerEvent, Shown, Tool,
};

const INK: Color = Color { r: 1, g: 2, b: 3, a: 255 };

fn white_canvas(width: u32, height: u32) -> Canvas {
    Canvas::new(width, height, &Clamped(vec![255u8; (width * height * 4) as usize]))
}

fn none() -> BorderCrossings {
    BorderCrossings::new(0, 0, 0, 0)
}

fn inked(canvas_pixels: &Vec<Color>, width: u32) -> Vec<(u32, u32)> {
    let mut points = vec![];
    for (index, pixel) in canvas_pixels.iter().enumerate() {
        if *pixel == INK {
            points.push((index as u32 % width, index as u32 / width));
        }
    }
    points
}

fn cleared() -> CanvasEvents {
    CanvasEvents::new()
}

fn only_down(listener: Listener) -> CanvasEvents {
    CanvasEvents {
        body_on_mouse_down: Some(listener),
        body_on_mouse_move: None,
        body_on_mouse_up: None,
        body_on_mouse_leave: None,
    }
}

#[test]
fn tool_identifiers() {
    assert_eq!(Tool::from_id("pencil"), Some(Tool::Pencil));
    assert_eq!(Tool::from_id("line"), Some(Tool::Line));
    assert_eq!(Tool::from_id("color"), Some(Tool::Color));
    assert_eq!(Tool::from_id("eraser"), None);
    assert_eq!(Tool::from_id(""), None);
    assert_eq!(Tool::from_id("Pencil"), None);
    assert_eq!(Tool::from_id("pencils"), None);
    assert_eq!(Tool::from_id("penci"), None);
}

#[test]
fn new_tool_bar_has_nothing_selected() {
    let bar = ToolBar::new();
    assert_eq!(bar, ToolBar { pencil: false, line: false, color: false });
    assert_eq!(bar.active(), None);
    assert!(!bar.selected(Tool::Pencil));
}

#[test]
fn selecting_a_drawing_tool_arms_it() {
    let mut canvas = white_canvas(4, 4);
    let mut bar = ToolBar::new();
    on_tool_select(&mut canvas, &mut bar, Tool::Pencil);
    assert_eq!(bar, ToolBar { pencil: true, line: false, color: false });
    assert_eq!(bar.active(), Some(Tool::Pencil));
    assert_eq!(canvas.events, only_down(Listener::PencilStart));
    assert_eq!(canvas.body, only_down(Listener::PencilStart));
}

#[test]
fn selecting_another_tool_replaces_the_first() {
    let mut canvas = white_canvas(4, 4);
    let mut bar = ToolBar::new();
    on_tool_select(&mut canvas, &mut bar, Tool::Pencil);
    on_pointer(&mut canvas, PointerEvent::Down, Point::new(1, 1), &none(), &INK);
    on_tool_select(&mut canvas, &mut bar, Tool::Line);
    assert_eq!(bar, ToolBar { pencil: false, line: true, color: false });
    assert_eq!(bar.active(), Some(Tool::Line));
    assert_eq!(canvas.events, only_down(Listener::LineStart));
    assert_eq!(canvas.body, only_down(Listener::LineStart));
}

#[test]
fn selecting_a_tool_twice_leaves_no_listener() {
    for tool in [Tool::Pencil, Tool::Line] {
        let mut canvas = white_canvas(4, 4);
        let mut bar = ToolBar::new();
        on_tool_select(&mut canvas, &mut bar, tool);
        on_tool_select(&mut canvas, &mut bar, tool);
        assert_eq!(bar, ToolBar::new());
        assert_eq!(bar.active(), None);
        assert_eq!(canvas.events, cleared());
        assert_eq!(canvas.body, cleared());
        for event in [PointerEvent::Down, PointerEvent::Move, PointerEvent::Up, PointerEvent::Leave] {
            let shown = on_pointer(&mut canvas, event, Point::new(2, 2), &none(), &INK);
            assert!(matches!(shown, Shown::Unchanged));
        }
        assert_eq!(canvas.pixels, vec![Color::white(); 16]);
        assert_eq!(canvas.events, cleared());
    }
}

#[test]
fn deselecting_in_the_middle_of_a_stroke_removes_its_listeners() {
    let mut canvas = white_canvas(4, 4);
    let mut bar = ToolBar::new();
    on_tool_select(&mut canvas, &mut bar, Tool::Line);
    on_pointer(&mut canvas, PointerEvent::Down, Point::new(1, 1), &none(), &INK);
    assert_eq!(canvas.body.body_on_mouse_move, Some(Listener::LineAdvance(Point::new(1, 1))));
    on_tool_select(&mut canvas, &mut bar, Tool::Line);
    assert_eq!(canvas.events, cleared());
    assert_eq!(canvas.body, cleared());
    assert_eq!(bar, ToolBar::new());
}

#[test]
fn color_picker_button_leaves_the_drawing_tool_armed() {
    let mut canvas = white_canvas(4, 4);
    let mut bar = ToolBar::new();
    on_tool_select(&mut canvas, &mut bar, Tool::Pencil);
    on_tool_select(&mut canvas, &mut bar, Tool::Color);
    assert_eq!(bar, ToolBar { pencil: true, line: false, color: true });
    assert_eq!(canvas.body, only_down(Listener::PencilStart));
    on_tool_select(&mut canvas, &mut bar, Tool::Color);
    assert_eq!(bar, ToolBar { pencil: true, line: false, color: true });
    on_tool_select(&mut canvas, &mut bar, Tool::Line);
    assert_eq!(bar, ToolBar { pencil: false, line: true, color: false });
}

#[test]
fn pencil_draws_each_move_from_the_point_before() {
    let mut canvas = white_canvas(6, 6);
    let mut bar = ToolBar::new();
    on_tool_select(&mut canvas, &mut bar, Tool::Pencil);
    let shown = on_pointer(&mut canvas, PointerEvent::Down, Point::new(0, 0), &none(), &INK);
    assert!(matches!(shown, Shown::Unchanged));
    assert_eq!(canvas.body.body_on_mouse_down, None);
    assert_eq!(canvas.body.body_on_mouse_move, Some(Listener::PencilAdvance(Point::new(0, 0))));
    assert_eq!(canvas.body.body_on_mouse_up, Some(Listener::PencilEnd));
    assert_eq!(canvas.body.body_on_mouse_leave, Some(Listener::PencilEnd));
    assert_eq!(canvas.pixels, vec![Color::white(); 36]);

    assert_eq!(
        pending_stroke(&canvas, PointerEvent::Move, Point::new(2, 0)),
        Some(Segment::new(Point::new(0, 0), Point::new(2, 0)))
    );
    let shown = on_pointer(&mut canvas, PointerEvent::Move, Point::new(2, 0), &none(), &INK);
    assert!(matches!(shown, Shown::Canvas));
    assert_eq!(inked(&canvas.pixels, 6), vec![(0, 0), (1, 0), (2, 0)]);
    assert_eq!(canvas.body.body_on_mouse_move, Some(Listener::PencilAdvance(Point::new(2, 0))));

    let shown = on_pointer(&mut canvas, PointerEvent::Move, Point::new(2, 2), &none(), &INK);
    assert!(matches!(shown, Shown::Canvas));
    assert_eq!(inked(&canvas.pixels, 6), vec![(0, 0), (1, 0), (2, 0), (2, 1), (2, 2)]);

    let shown = on_pointer(&mut canvas, PointerEvent::Up, Point::new(5, 5), &none(), &INK);
    assert!(matches!(shown, Shown::Unchanged));
    assert_eq!(inked(&canvas.pixels, 6).len(), 5);
    assert_eq!(canvas.events, only_down(Listener::PencilStart));
    assert_eq!(canvas.body, only_down(Listener::PencilStart));
}

#[test]
fn pencil_records_the_pointer_even_where_nothing_is_drawn() {
    let mut canvas = white_canvas(6, 6);
    pencil::start(&mut canvas, Point::new(-9, -9));
    let shown = on_pointer(&mut canvas, PointerEvent::Move, Point::new(-3, -2), &none(), &INK);
    assert!(matches!(shown, Shown::Unchanged));
    assert_eq!(canvas.pixels, vec![Color::white(); 36]);
    assert_eq!(canvas.body.body_on_mouse_move, Some(Listener::PencilAdvance(Point::new(-3, -2))));
    let shown = on_pointer(&mut canvas, PointerEvent::Leave, Point::new(0, 0), &none(), &INK);
    assert!(matches!(shown, Shown::Unchanged));
    assert_eq!(canvas.body, only_down(Listener::PencilStart));
}

#[test]
fn pencil_stroke_is_clipped_to_the_canvas() {
    let mut canvas = white_canvas(4, 3);
    pencil::start(&mut canvas, Point::new(1, 1));
    let drawn = pencil::advance(&mut canvas, &Point::new(1, 1), &Point::new(9, 1), &none(), &INK);
    assert!(drawn);
    assert_eq!(inked(&canvas.pixels, 4), vec![(1, 1), (2, 1), (3, 1)]);
    pencil::end(&mut canvas);
    assert_eq!(canvas.body, only_down(Listener::PencilStart));
}

#[test]
fn line_previews_on_a_copy_and_draws_on_release() {
    let mut canvas = white_canvas(5, 5);
    let mut bar = ToolBar::new();
    on_tool_select(&mut canvas, &mut bar, Tool::Line);
    on_pointer(&mut canvas, PointerEvent::Down, Point::new(0, 0), &none(), &INK);
    assert_eq!(canvas.body.body_on_mouse_down, None);
    assert_eq!(canvas.body.body_on_mouse_move, Some(Listener::LineAdvance(Point::new(0, 0))));
    assert_eq!(canvas.body.body_on_mouse_up, Some(Listener::LineEnd(Point::new(0, 0))));
    assert_eq!(canvas.body.body_on_mouse_leave, Some(Listener::LineEnd(Point::new(0, 0))));

    let shown = on_pointer(&mut canvas, PointerEvent::Move, Point::new(4, 0), &none(), &INK);
    match shown {
        Shown::Preview(pixels) => {
            assert_eq!(inked(&pixels, 5), vec![(0, 0), (1, 0), (2, 0), (3, 0), (4, 0)]);
        }
        _ => panic!("a preview is due"),
    }
    assert_eq!(canvas.pixels, vec![Color::white(); 25]);
    assert_eq!(canvas.body.body_on_mouse_move, Some(Listener::LineAdvance(Point::new(0, 0))));

    let shown = on_pointer(&mut canvas, PointerEvent::Move, Point::new(3, 3), &none(), &INK);
    match shown {
        Shown::Preview(pixels) => {
            assert_eq!(inked(&pixels, 5), vec![(0, 0), (1, 1), (2, 2), (3, 3)]);
        }
        _ => panic!("a preview is due"),
    }
    assert_eq!(canvas.pixels, vec![Color::white(); 25]);

    let shown = on_pointer(&mut canvas, PointerEvent::Up, Point::new(0, 3), &none(), &INK);
    assert!(matches!(shown, Shown::Canvas));
    assert_eq!(inked(&canvas.pixels, 5), vec![(0, 0), (0, 1), (0, 2), (0, 3)]);
    assert_eq!(canvas.events, only_down(Listener::LineStart));
    assert_eq!(canvas.body, only_down(Listener::LineStart));
}

#[test]
fn line_preview_off_the_canvas_shows_the_canvas() {
    let mut canvas = white_canvas(3, 3);
    let preview = pixel_canvas::tool::line::advance(&canvas, &Point::new(-5, -5), &Point::new(-1, -2), &none(), &INK);
    assert_eq!(preview, vec![Color::white(); 9]);
    pixel_canvas::tool::line::start(&mut canvas, Point::new(-5, -5));
    let drawn = pixel_canvas::tool::line::end(&mut canvas, &Point::new(-5, -5), &Point::new(-1, -2), &none(), &INK);
    assert!(!drawn);
    assert_eq!(canvas.pixels, vec![Color::white(); 9]);
    assert_eq!(canvas.body, only_down(Listener::LineStart));
}

#[test]
fn line_released_outside_is_drawn_up_to_the_border() {
    let mut canvas = white_canvas(10, 10);
    pixel_canvas::tool::line::start(&mut canvas, Point::new(5, 5));
    assert_eq!(
        pending_stroke(&canvas, PointerEvent::Leave, Point::new(15, 15)),
        Some(Segment::new(Point::new(5, 5), Point::new(15, 15)))
    );
    let crossings = BorderCrossings::new(9, 9, 0, 0);
    let shown = on_pointer(&mut canvas, PointerEvent::Leave, Point::new(15, 15), &crossings, &INK);
    assert!(matches!(shown, Shown::Canvas));
    assert_eq!(inked(&canvas.pixels, 10), vec![(5, 5), (6, 6), (7, 7), (8, 8), (9, 9)]);
}

#[test]
fn events_without_a_listener_are_ignored() {
    let mut canvas = white_canvas(3, 3);
    let mut bar = ToolBar::new();
    on_tool_select(&mut canvas, &mut bar, Tool::Pencil);
    assert_eq!(attached_listener(&canvas, PointerEvent::Down), Some(Listener::PencilStart));
    assert_eq!(attached_listener(&canvas, PointerEvent::Move), None);
    assert_eq!(pending_stroke(&canvas, PointerEvent::Move, Point::new(1, 1)), None);
    assert_eq!(pending_stroke(&canvas, PointerEvent::Down, Point::new(1, 1)), None);
    for event in [PointerEvent::Move, PointerEvent::Up, PointerEvent::Leave] {
        let shown = on_pointer(&mut canvas, event, Point::new(1, 1), &none(), &INK);
        assert!(matches!(shown, Shown::Unchanged));
    }
    assert_eq!(canvas.body, only_down(Listener::PencilStart));
    canvas.pause_all_events();
    let shown = on_pointer(&mut canvas, PointerEvent::Down, Point::new(1, 1), &none(), &INK);
    assert!(matches!(shown, Shown::Unchanged));
    assert_eq!(canvas.events, only_down(Listener::PencilStart));
}

#[test]
fn tool_inits_select_only_themselves() {
    let mut canvas = white_canvas(3, 3);
    let mut bar = ToolBar { pencil: false, line: true, color: true };
    pencil::init(&mut canvas, &mut bar);
    assert_eq!(bar, ToolBar { pencil: true, line: false, color: false });
    assert_eq!(canvas.body.body_on_mouse_down, Some(Listener::PencilStart));
    pixel_canvas::tool::line::init(&mut canvas, &mut bar);
    assert_eq!(bar, ToolBar { pencil: false, line: true, color: false });
    assert_eq!(canvas.body.body_on_mouse_down, Some(Listener::LineStart));
}
