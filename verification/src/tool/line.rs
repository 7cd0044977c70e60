//! The line tool and the rasterizer that both drawing tools share.

use vstd::prelude::*;
use vstd::arithmetic::div_mod::{lemma_fundamental_div_mod, lemma_fundamental_div_mod_converse};
use crate::canvas::canvas::Canvas;
use crate::canvas::canvas_events::{CanvasEvents, Listener};
use crate::canvas::{clipped, lemma_drawn_stroke_is_on_canvas, on_canvas};
use crate::color::Color;
use crate::image::{in_rows, lemma_pixel_in_rows};
use crate::line::BorderCrossings;
use crate::point::Point;
use crate::segment::Segment;
use crate::tool::tool_bar::ToolBar;
use crate::tool::Tool;
use crate::util::flat_idx;

verus! {

/// Number of columns the stroke has to cross.
pub open spec fn run(stroke: Segment) -> int {
    if stroke.a.x <= stroke.b.x {
        stroke.b.x - stroke.a.x
    } else {
        stroke.a.x - stroke.b.x
    }
}

/// Number of rows the stroke has to cross.
pub open spec fn rise(stroke: Segment) -> int {
    if stroke.a.y <= stroke.b.y {
        stroke.b.y - stroke.a.y
    } else {
        stroke.a.y - stroke.b.y
    }
}

/// Number of steps from the first pixel of the stroke to its last.
pub open spec fn step_count(stroke: Segment) -> int {
    if run(stroke) >= rise(stroke) {
        run(stroke)
    } else {
        rise(stroke)
    }
}

/// `k * minor / major`, rounded to the nearest integer, halves upwards.
pub open spec fn rounded_share(k: int, minor: int, major: int) -> int {
    if major > 0 {
        (2 * k * minor + major) / (2 * major)
    } else {
        0
    }
}

/// Distance travelled along the columns after `k` steps.
pub open spec fn travelled_x(stroke: Segment, k: int) -> int {
    if run(stroke) >= rise(stroke) {
        k
    } else {
        rounded_share(k, run(stroke), rise(stroke))
    }
}

/// Distance travelled along the rows after `k` steps.
pub open spec fn travelled_y(stroke: Segment, k: int) -> int {
    if run(stroke) >= rise(stroke) {
        rounded_share(k, rise(stroke), run(stroke))
    } else {
        k
    }
}

/// Column of the pixel painted at step `k` of the stroke.
///
/// The stroke advances one pixel per step along its longer axis and keeps as
/// close to the ideal line as a pixel grid allows along the shorter one.
pub open spec fn stroke_x(stroke: Segment, k: int) -> int {
    if stroke.a.x <= stroke.b.x {
        stroke.a.x + travelled_x(stroke, k)
    } else {
        stroke.a.x - travelled_x(stroke, k)
    }
}

/// Row of the pixel painted at step `k` of the stroke.
pub open spec fn stroke_y(stroke: Segment, k: int) -> int {
    if stroke.a.y <= stroke.b.y {
        stroke.a.y + travelled_y(stroke, k)
    } else {
        stroke.a.y - travelled_y(stroke, k)
    }
}

/// Whether the pixel at column `x` and row `y` is painted by one of the first
/// `count` steps of the stroke.
pub open spec fn on_stroke_start(stroke: Segment, x: int, y: int, count: int) -> bool {
    exists|k: int| 0 <= k < count && #[trigger] stroke_x(stroke, k) == x && stroke_y(stroke, k) == y
}

/// Whether the stroke paints the pixel at column `x` and row `y`.
pub open spec fn on_stroke(stroke: Segment, x: int, y: int) -> bool {
    on_stroke_start(stroke, x, y, step_count(stroke) + 1)
}

/// The buffer after the stroke was painted into it: the pixels of the stroke
/// have the color, every other pixel is as it was.
pub open spec fn stroked(pixels: Seq<Color>, width: u32, stroke: Segment, color: Color) -> Seq<
    Color,
> {
    Seq::new(
        pixels.len(),
        |i: int|
            if on_stroke(stroke, i % (width as int), i / (width as int)) {
                color
            } else {
                pixels[i]
            },
    )
}

/// What a buffer holds once the first `count` steps of a stroke are painted.
pub open spec fn painted(
    after: Seq<Color>,
    before: Seq<Color>,
    width: u32,
    stroke: Segment,
    color: Color,
    count: int,
) -> bool {
    &&& after.len() == before.len()
    &&& forall|i: int|
        0 <= i < before.len() ==> (#[trigger] after[i]) == (if on_stroke_start(
            stroke,
            i % (width as int),
            i / (width as int),
            count,
        ) {
            color
        } else {
            before[i]
        })
}

/// The bookkeeping of the rasterizer: after `k` steps its error term `e`
/// measures how far the pixel reached lies from the ideal line.
pub open spec fn error_tracks(stroke: Segment, k: int, e: int) -> bool {
    let i = travelled_x(stroke, k);
    let j = travelled_y(stroke, k);
    let r = run(stroke);
    let s = rise(stroke);
    &&& e == (j + 1) * r - (i + 1) * s
    &&& (r >= s && r > 0 ==> r - 2 * s < 2 * e <= 3 * r - 2 * s)
    &&& (r < s ==> 2 * r - 3 * s <= 2 * e < 2 * r - s)
}

proof fn lemma_share_is(k: int, minor: int, major: int, q: int)
    requires
        major > 0,
        2 * (q * major) <= 2 * (k * minor) + major,
        2 * (k * minor) + major < 2 * (q * major) + 2 * major,
    ensures
        rounded_share(k, minor, major) == q,
{
    let x = 2 * k * minor + major;
    let d = 2 * major;
    let r = x - q * d;
    assert(q * d == 2 * (q * major)) by (nonlinear_arith)
        requires
            d == 2 * major,
    ;
    assert(2 * k * minor == 2 * (k * minor)) by (nonlinear_arith);
    lemma_fundamental_div_mod_converse(x, d, q, r);
}

proof fn lemma_share_brackets(k: int, minor: int, major: int)
    requires
        major > 0,
    ensures
        2 * (rounded_share(k, minor, major) * major) <= 2 * (k * minor) + major,
        2 * (k * minor) + major < 2 * (rounded_share(k, minor, major) * major) + 2 * major,
{
    let x = 2 * k * minor + major;
    let d = 2 * major;
    let q = x / d;
    lemma_fundamental_div_mod(x, d);
    assert(0 <= x % d < d);
    assert(d * q == 2 * (q * major)) by (nonlinear_arith)
        requires
            d == 2 * major,
    ;
    assert(2 * k * minor == 2 * (k * minor)) by (nonlinear_arith);
}

proof fn lemma_share_range(k: int, minor: int, major: int)
    requires
        major > 0,
        0 <= minor <= major,
        0 <= k <= major,
    ensures
        0 <= rounded_share(k, minor, major) <= minor,
{
    let q = rounded_share(k, minor, major);
    lemma_share_brackets(k, minor, major);
    assert(0 <= k * minor <= major * minor) by (nonlinear_arith)
        requires
            0 <= k <= major,
            0 <= minor,
    ;
    assert(q >= 0) by (nonlinear_arith)
        requires
            major > 0,
            0 < 2 * (q * major) + 2 * major,
    ;
    assert(q <= minor) by (nonlinear_arith)
        requires
            major > 0,
            2 * (q * major) <= 2 * (major * minor) + major,
    ;
}

proof fn lemma_share_at_ends(minor: int, major: int)
    requires
        major > 0,
        0 <= minor <= major,
    ensures
        rounded_share(0, minor, major) == 0,
        rounded_share(major, minor, major) == minor,
{
    assert(0 * minor == 0 && 0 * major == 0) by (nonlinear_arith);
    lemma_share_is(0, minor, major, 0);
    assert(major * minor == minor * major) by (nonlinear_arith);
    lemma_share_is(major, minor, major, minor);
}

proof fn lemma_share_advances(k: int, minor: int, major: int)
    requires
        major > 0,
        0 <= minor <= major,
    ensures
        rounded_share(k, minor, major) <= rounded_share(k + 1, minor, major) <= rounded_share(
            k,
            minor,
            major,
        ) + 1,
{
    let q = rounded_share(k, minor, major);
    lemma_share_brackets(k, minor, major);
    assert((k + 1) * minor == k * minor + minor) by (nonlinear_arith);
    assert((q + 1) * major == q * major + major) by (nonlinear_arith);
    if 2 * ((k + 1) * minor) + major < 2 * (q * major) + 2 * major {
        lemma_share_is(k + 1, minor, major, q);
    } else {
        lemma_share_is(k + 1, minor, major, q + 1);
    }
}

proof fn lemma_error_pins_share(k: int, q: int, minor: int, major: int, e: int)
    requires
        major > 0,
        e == (q + 1) * major - (k + 1) * minor,
        major - 2 * minor < 2 * e <= 3 * major - 2 * minor,
    ensures
        rounded_share(k, minor, major) == q,
{
    assert((q + 1) * major == q * major + major) by (nonlinear_arith);
    assert((k + 1) * minor == k * minor + minor) by (nonlinear_arith);
    lemma_share_is(k, minor, major, q);
}

/// The stroke starts at the first endpoint.
pub proof fn lemma_stroke_starts_at_a(stroke: Segment)
    ensures
        stroke_x(stroke, 0) == stroke.a.x,
        stroke_y(stroke, 0) == stroke.a.y,
        error_tracks(stroke, 0, run(stroke) - rise(stroke)),
{
    let r = run(stroke);
    let s = rise(stroke);
    if r >= s {
        if r > 0 {
            lemma_share_at_ends(s, r);
        }
    } else {
        lemma_share_at_ends(r, s);
    }
    assert(1 * r == r && 1 * s == s) by (nonlinear_arith);
}

/// The stroke ends at the second endpoint.
pub proof fn lemma_stroke_ends_at_b(stroke: Segment)
    ensures
        stroke_x(stroke, step_count(stroke)) == stroke.b.x,
        stroke_y(stroke, step_count(stroke)) == stroke.b.y,
{
    let r = run(stroke);
    let s = rise(stroke);
    if r >= s {
        if r > 0 {
            lemma_share_at_ends(s, r);
        }
    } else {
        lemma_share_at_ends(r, s);
    }
}

/// Every pixel of the stroke lies within the extent of its endpoints.
pub proof fn lemma_stroke_stays_within_extent(stroke: Segment, k: int)
    requires
        0 <= k <= step_count(stroke),
    ensures
        stroke.min_x() <= stroke_x(stroke, k) <= stroke.max_x(),
        stroke.min_y() <= stroke_y(stroke, k) <= stroke.max_y(),
        0 <= travelled_x(stroke, k) <= run(stroke),
        0 <= travelled_y(stroke, k) <= rise(stroke),
{
    let r = run(stroke);
    let s = rise(stroke);
    if r >= s {
        if r > 0 {
            lemma_share_range(k, s, r);
        }
    } else {
        lemma_share_range(k, r, s);
    }
}

/// Each step of the stroke leads to one of the eight neighbours of the pixel
/// before it: one pixel further along the longer axis of the stroke, and
/// either level with it or one pixel further along the shorter axis. The
/// stroke therefore has no gap and visits no pixel twice.
pub proof fn lemma_stroke_is_connected(stroke: Segment, k: int)
    requires
        0 <= k < step_count(stroke),
    ensures
        travelled_x(stroke, k) <= travelled_x(stroke, k + 1) <= travelled_x(stroke, k) + 1,
        travelled_y(stroke, k) <= travelled_y(stroke, k + 1) <= travelled_y(stroke, k) + 1,
        run(stroke) >= rise(stroke) ==> travelled_x(stroke, k + 1) == travelled_x(stroke, k) + 1,
        run(stroke) <= rise(stroke) ==> travelled_y(stroke, k + 1) == travelled_y(stroke, k) + 1,
{
    let r = run(stroke);
    let s = rise(stroke);
    if r >= s {
        lemma_share_advances(k, s, r);
        if r == s {
            lemma_share_diagonal(k, r);
            lemma_share_diagonal(k + 1, r);
        }
    } else {
        lemma_share_advances(k, r, s);
    }
}

proof fn lemma_share_diagonal(k: int, major: int)
    requires
        major > 0,
    ensures
        rounded_share(k, major, major) == k,
{
    lemma_share_is(k, major, major, k);
}

/// No two steps of a stroke paint the same pixel: with its `step_count + 1`
/// steps the stroke paints as many pixels.
pub proof fn lemma_stroke_visits_no_pixel_twice(stroke: Segment, j: int, k: int)
    requires
        0 <= j < k <= step_count(stroke),
    ensures
        stroke_x(stroke, j) != stroke_x(stroke, k) || stroke_y(stroke, j) != stroke_y(stroke, k),
{
}

/// A stroke from a pixel to itself paints that pixel and no other.
pub proof fn lemma_point_stroke(stroke: Segment, x: int, y: int)
    requires
        stroke.a == stroke.b,
    ensures
        on_stroke(stroke, x, y) <==> (x == stroke.a.x && y == stroke.a.y),
{
    lemma_stroke_starts_at_a(stroke);
    if x == stroke.a.x && y == stroke.a.y {
        assert(stroke_x(stroke, 0) == x && stroke_y(stroke, 0) == y);
    }
}

/// One step of the rasterizer: the error term decides along which axes the
/// stroke advances, and the pixel reached is the next pixel of the stroke.
pub proof fn lemma_error_leads_along_stroke(stroke: Segment, k: int, e: int)
    requires
        0 <= k < step_count(stroke),
        error_tracks(stroke, k, e),
    ensures
        ({
            let along_x = 2 * e >= -rise(stroke);
            let along_y = 2 * e <= run(stroke);
            let e_x = if along_x { e - rise(stroke) } else { e };
            let e_xy = if along_y { e_x + run(stroke) } else { e_x };
            &&& travelled_x(stroke, k + 1) == travelled_x(stroke, k) + if along_x { 1int } else { 0int }
            &&& travelled_y(stroke, k + 1) == travelled_y(stroke, k) + if along_y { 1int } else { 0int }
            &&& error_tracks(stroke, k + 1, e_xy)
        }),
{
    let r = run(stroke);
    let s = rise(stroke);
    let i = travelled_x(stroke, k);
    let j = travelled_y(stroke, k);
    let along_x = 2 * e >= -s;
    let along_y = 2 * e <= r;
    let i2 = i + if along_x { 1int } else { 0int };
    let j2 = j + if along_y { 1int } else { 0int };
    let e_x = if along_x { e - s } else { e };
    let e_xy = if along_y { e_x + r } else { e_x };
    assert((j + 2) * r == (j + 1) * r + r) by (nonlinear_arith);
    assert((i + 2) * s == (i + 1) * s + s) by (nonlinear_arith);
    assert(e_xy == (j2 + 1) * r - (i2 + 1) * s);
    if r >= s {
        assert(along_x);
        lemma_error_pins_share(k + 1, j2, s, r, e_xy);
    } else {
        assert(along_y);
        assert(-e_xy == (i2 + 1) * s - (j2 + 1) * r);
        lemma_error_pins_share(k + 1, i2, r, s, -e_xy);
    }
}

proof fn lemma_pixel_of_index(x: int, y: int, width: int, index: int)
    requires
        0 <= x < width,
        index == y * width + x,
    ensures
        index % width == x,
        index / width == y,
{
    assert(y * width == width * y) by (nonlinear_arith);
    lemma_fundamental_div_mod_converse(index, width, y, x);
}

proof fn lemma_index_of_pixel(width: int, index: int)
    requires
        0 < width,
    ensures
        index == (index / width) * width + index % width,
{
    lemma_fundamental_div_mod(index, width);
    assert((index / width) * width == width * (index / width)) by (nonlinear_arith);
}

proof fn lemma_paint_step(
    after: Seq<Color>,
    middle: Seq<Color>,
    before: Seq<Color>,
    width: u32,
    stroke: Segment,
    color: Color,
    k: int,
    index: int,
)
    requires
        painted(middle, before, width, stroke, color, k),
        0 <= k,
        0 <= stroke_x(stroke, k) < width,
        index == stroke_y(stroke, k) * width + stroke_x(stroke, k),
        0 <= index < middle.len(),
        after == middle.update(index, color),
    ensures
        painted(after, before, width, stroke, color, k + 1),
{
    let w = width as int;
    assert forall|i: int| 0 <= i < before.len() implies (#[trigger] after[i]) == (
    if on_stroke_start(stroke, i % w, i / w, k + 1) {
        color
    } else {
        before[i]
    }) by {
        let x = i % w;
        let y = i / w;
        if i == index {
            lemma_pixel_of_index(stroke_x(stroke, k), stroke_y(stroke, k), w, index);
            assert(stroke_x(stroke, k) == x && stroke_y(stroke, k) == y);
        } else {
            lemma_index_of_pixel(w, i);
            if on_stroke_start(stroke, x, y, k + 1) {
                let m = choose|m: int|
                    0 <= m < k + 1 && #[trigger] stroke_x(stroke, m) == x && stroke_y(stroke, m)
                        == y;
                assert(m != k);
                assert(stroke_x(stroke, m) == x && stroke_y(stroke, m) == y);
                assert(on_stroke_start(stroke, x, y, k));
            }
            if on_stroke_start(stroke, x, y, k) {
                let m = choose|m: int|
                    0 <= m < k && #[trigger] stroke_x(stroke, m) == x && stroke_y(stroke, m) == y;
                assert(stroke_x(stroke, m) == x && stroke_y(stroke, m) == y);
                assert(on_stroke_start(stroke, x, y, k + 1));
            }
        }
    }
}

/// A stroke from a pixel to itself changes that pixel and no other.
pub proof fn lemma_point_stroke_paints_one_pixel(
    pixels: Seq<Color>,
    width: u32,
    point: Point,
    color: Color,
)
    requires
        in_rows(pixels.len() as int, width, point),
    ensures
        stroked(pixels, width, Segment { a: point, b: point }, color) == pixels.update(
            point.y * width + point.x,
            color,
        ),
{
    let stroke = Segment { a: point, b: point };
    let w = width as int;
    let index = point.y * width + point.x;
    lemma_pixel_in_rows(pixels.len() as int, width, point);
    assert forall|i: int| 0 <= i < pixels.len() implies stroked(pixels, width, stroke, color)[i]
        == pixels.update(index, color)[i] by {
        lemma_point_stroke(stroke, i % w, i / w);
        if i == index {
            lemma_pixel_of_index(point.x as int, point.y as int, w, index);
        } else {
            lemma_index_of_pixel(w, i);
        }
    }
    assert(stroked(pixels, width, stroke, color) =~= pixels.update(index, color));
}

/// A pixel of a canvas lies in a row that the buffer of the canvas holds.
pub proof fn lemma_on_canvas_is_in_rows(width: u32, height: u32, point: Point)
    requires
        on_canvas(width, height, point),
    ensures
        in_rows(width * height, width, point),
{
    assert((point.y + 1) * width <= height * width) by (nonlinear_arith)
        requires
            0 <= point.y + 1 <= height,
            0 <= width,
    ;
    assert(height * width == width * height) by (nonlinear_arith);
}

/// Paints the stroke from `segment.a` to `segment.b` into a row-major buffer
/// with rows of the given width.
pub fn put(pixels: &mut Vec<Color>, width: &u32, segment: &Segment, color: &Color)
    requires
        in_rows(old(pixels)@.len() as int, *width, segment.a),
        in_rows(old(pixels)@.len() as int, *width, segment.b),
    ensures
        final(pixels)@ == stroked(old(pixels)@, *width, *segment, *color),
{
    let ghost before = pixels@;
    let ghost stroke = *segment;
    let point_a = segment.a;
    let point_b = segment.b;
    let kx: i32 = if point_a.x <= point_b.x { 1 } else { -1 };
    let ky: i32 = if point_a.y <= point_b.y { 1 } else { -1 };
    let dx: i64 = if point_a.x <= point_b.x {
        point_b.x as i64 - point_a.x as i64
    } else {
        point_a.x as i64 - point_b.x as i64
    };
    let dy: i64 = if point_a.y <= point_b.y {
        point_a.y as i64 - point_b.y as i64
    } else {
        point_b.y as i64 - point_a.y as i64
    };
    let mut e: i64 = dx + dy;
    let mut point: Point = point_a;
    let ghost mut k: int = 0;
    proof {
        lemma_stroke_starts_at_a(stroke);
    }
    loop
        invariant_except_break
            painted(pixels@, before, *width, stroke, *color, k),
        invariant
            stroke == *segment,
            point_b == stroke.b,
            in_rows(before.len() as int, *width, stroke.a),
            in_rows(before.len() as int, *width, stroke.b),
            pixels@.len() == before.len(),
            dx == run(stroke),
            dy == -rise(stroke),
            kx == (if stroke.a.x <= stroke.b.x { 1i32 } else { -1i32 }),
            ky == (if stroke.a.y <= stroke.b.y { 1i32 } else { -1i32 }),
            0 <= k <= step_count(stroke),
            point.x == stroke_x(stroke, k),
            point.y == stroke_y(stroke, k),
            error_tracks(stroke, k, e as int),
        ensures
            painted(pixels@, before, *width, stroke, *color, step_count(stroke) + 1),
        decreases step_count(stroke) - k,
    {
        proof {
            lemma_stroke_stays_within_extent(stroke, k);
            assert((point.y + 1) * *width <= before.len()) by (nonlinear_arith)
                requires
                    0 <= point.y <= stroke.max_y(),
                    (stroke.max_y() + 1) * *width <= before.len(),
            ;
            assert((point.y + 1) * *width == point.y * *width + *width) by (nonlinear_arith);
            assert(pixels@.len() == pixels.len());
        }
        let index: usize = flat_idx(&point, width);
        let ghost middle = pixels@;
        pixels[index] = *color;
        proof {
            lemma_paint_step(pixels@, middle, before, *width, stroke, *color, k, index as int);
        }
        if point.x == point_b.x && point.y == point_b.y {
            break ;
        }
        proof {
            lemma_stroke_ends_at_b(stroke);
            lemma_error_leads_along_stroke(stroke, k, e as int);
            lemma_stroke_stays_within_extent(stroke, k + 1);
        }
        let e2: i64 = 2 * e;
        if e2 >= dy {
            e = e + dy;
            point.x = point.x + kx;
        }
        if e2 <= dx {
            e = e + dx;
            point.y = point.y + ky;
        }
        proof {
            k = k + 1;
        }
    }
    assert(pixels@ =~= stroked(before, *width, stroke, *color));
}

/// The listeners while the line tool waits for a pointer-down.
pub open spec fn armed() -> CanvasEvents {
    CanvasEvents {
        body_on_mouse_down: Some(Listener::LineStart),
        body_on_mouse_move: None,
        body_on_mouse_up: None,
        body_on_mouse_leave: None,
    }
}

/// The listeners while a line is dragged out from its first endpoint `anchor`.
pub open spec fn dragging(anchor: Point) -> CanvasEvents {
    CanvasEvents {
        body_on_mouse_down: None,
        body_on_mouse_move: Some(Listener::LineAdvance(anchor)),
        body_on_mouse_up: Some(Listener::LineEnd(anchor)),
        body_on_mouse_leave: Some(Listener::LineEnd(anchor)),
    }
}

/// The pixels of a canvas with what it shows of the stroke from `anchor` to
/// `point` drawn over them.
pub open spec fn with_stroke(
    pixels: Seq<Color>,
    width: u32,
    height: u32,
    anchor: Point,
    point: Point,
    crossings: BorderCrossings,
    color: Color,
) -> Seq<Color> {
    match clipped(width, height, anchor, point, crossings) {
        Some(stroke) => stroked(pixels, width, stroke, color),
        None => pixels,
    }
}

/// Selects the line tool, and no other tool, and arms its pointer-down listener.
pub fn init(canvas: &mut Canvas, tool_bar: &mut ToolBar)
    ensures
        *final(tool_bar) == ToolBar::only(Tool::Line),
        final(canvas).events == (CanvasEvents {
            body_on_mouse_down: Some(Listener::LineStart),
            ..old(canvas).events
        }),
        final(canvas).body == (CanvasEvents {
            body_on_mouse_down: Some(Listener::LineStart),
            ..old(canvas).body
        }),
        final(canvas).same_image(old(canvas)),
{
    tool_bar.select_only(Tool::Line);
    canvas.set_on_mouse_down(Some(Listener::LineStart));
}

/// Pointer-down at `point`: the first endpoint of a line is fixed there.
pub fn start(canvas: &mut Canvas, point: Point)
    ensures
        final(canvas).events == dragging(point),
        final(canvas).body == dragging(point),
        final(canvas).same_image(old(canvas)),
{
    canvas.set_on_mouse_down(None);
    canvas.set_on_mouse_move(Some(Listener::LineAdvance(point)));
    canvas.set_on_mouse_up(Some(Listener::LineEnd(point)));
    canvas.set_on_mouse_leave(Some(Listener::LineEnd(point)));
}

/// Pointer-move to `point`: the preview to show, a copy of the canvas with
/// what it shows of the line from `anchor` to `point`. The canvas itself
/// stays as it is.
pub fn advance(
    canvas: &Canvas,
    anchor: &Point,
    point: &Point,
    crossings: &BorderCrossings,
    color: &Color,
) -> (preview: Vec<Color>)
    requires
        canvas.wf(),
    ensures
        preview@ == with_stroke(
            canvas.pixels@,
            canvas.width,
            canvas.height,
            *anchor,
            *point,
            *crossings,
            *color,
        ),
{
    let segment = canvas.get_segment(anchor, point, crossings);
    let mut pixels: Vec<Color> = Vec::with_capacity(canvas.pixels.len());
    let mut index: usize = 0;
    while index < canvas.pixels.len()
        invariant
            index <= canvas.pixels@.len(),
            pixels@ == canvas.pixels@.take(index as int),
        decreases canvas.pixels@.len() - index,
    {
        pixels.push(canvas.pixels[index]);
        assert(canvas.pixels@.take(index + 1) =~= canvas.pixels@.take(index as int).push(
            canvas.pixels@[index as int],
        ));
        index = index + 1;
    }
    assert(canvas.pixels@.take(index as int) =~= canvas.pixels@);
    if let Some(segment) = segment {
        proof {
            lemma_drawn_stroke_is_on_canvas(
                canvas.width,
                canvas.height,
                *anchor,
                *point,
                *crossings,
            );
            lemma_on_canvas_is_in_rows(canvas.width, canvas.height, segment.a);
            lemma_on_canvas_is_in_rows(canvas.width, canvas.height, segment.b);
        }
        put(&mut pixels, &canvas.width, &segment, color);
    }
    pixels
}

/// Pointer-up or pointer-leave at `point`: what the canvas shows of the line
/// from `anchor` to `point` is drawn, and the tool waits for the next
/// pointer-down. Tells whether anything was drawn.
pub fn end(
    canvas: &mut Canvas,
    anchor: &Point,
    point: &Point,
    crossings: &BorderCrossings,
    color: &Color,
) -> (drawn: bool)
    requires
        old(canvas).wf(),
    ensures
        final(canvas).wf(),
        final(canvas).width == old(canvas).width,
        final(canvas).height == old(canvas).height,
        drawn == clipped(
            old(canvas).width,
            old(canvas).height,
            *anchor,
            *point,
            *crossings,
        ).is_some(),
        final(canvas).pixels@ == with_stroke(
            old(canvas).pixels@,
            old(canvas).width,
            old(canvas).height,
            *anchor,
            *point,
            *crossings,
            *color,
        ),
        final(canvas).events == armed(),
        final(canvas).body == armed(),
{
    canvas.set_on_mouse_move(None);
    canvas.set_on_mouse_up(None);
    canvas.set_on_mouse_leave(None);
    let segment = canvas.get_segment(anchor, point, crossings);
    let mut drawn = false;
    if let Some(segment) = segment {
        proof {
            lemma_drawn_stroke_is_on_canvas(
                canvas.width,
                canvas.height,
                *anchor,
                *point,
                *crossings,
            );
            lemma_on_canvas_is_in_rows(canvas.width, canvas.height, segment.a);
            lemma_on_canvas_is_in_rows(canvas.width, canvas.height, segment.b);
        }
        let width = canvas.width;
        put(&mut canvas.pixels, &width, &segment, color);
        drawn = true;
    }
    canvas.set_on_mouse_down(Some(Listener::LineStart));
    drawn
}

} // verus!
