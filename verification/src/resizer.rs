//! Resizing the canvas by dragging one of its handles: the image stays
//! anchored to the side opposite the handle.

use vstd::prelude::*;
use vstd::arithmetic::div_mod::{lemma_fundamental_div_mod, lemma_fundamental_div_mod_converse};
use crate::canvas::addressable;
use crate::canvas::canvas::{extracted, fitted, Canvas};
use crate::color::Color;
use crate::image::{
    holds_rect, is_empty_rect, lemma_paste_all, lemma_paste_nothing, lemma_paste_one,
    lemma_paste_row_done, lemma_pixel_in_rows, lemma_rect_pixel_in_rows, pasted, pasted_so_far,
};
use crate::point::Point;
use crate::text::{contains, has_substring};
use crate::util::{flat_idx, flat_index};

verus! {

/// The directions a resize handle controls.
#[derive(Clone, Copy, Debug, PartialEq, Eq, Structural)]
pub struct Handle {
    pub west: bool,
    pub east: bool,
    pub south: bool,
}

/// The handle an identifier names: it controls each of the directions
/// west, east and south whose name occurs in the identifier.
pub open spec fn handle_of(id: Seq<char>) -> Handle {
    Handle {
        west: has_substring(id, "west"@),
        east: has_substring(id, "east"@),
        south: has_substring(id, "south"@),
    }
}

impl Handle {
    pub fn from_id(resizer_id: &str) -> (handle: Handle)
        ensures
            handle == handle_of(resizer_id@),
    {
        Handle {
            west: contains(resizer_id, "west"),
            east: contains(resizer_id, "east"),
            south: contains(resizer_id, "south"),
        }
    }
}

/// The columns that survive a resize: the first and the last column kept of
/// the old image, and the column of the new image at which the first one lands.
///
/// A west handle keeps the right edge in place: a wider canvas gains its
/// columns on the left, a narrower one loses them there. An east handle
/// keeps the left edge in place. Any other handle keeps every column where
/// it is.
pub open spec fn kept_columns(width: u32, new_width: u32, handle: Handle) -> (int, int, int) {
    if handle.west {
        if new_width > width {
            (0, width - 1, new_width - width)
        } else {
            (width - new_width, width - 1, 0)
        }
    } else if handle.east {
        if new_width > width {
            (0, width - 1, 0)
        } else {
            (0, new_width - 1, 0)
        }
    } else {
        (0, width - 1, 0)
    }
}

/// The last row kept of the old image; the first is always the top row,
/// which stays where it is.
pub open spec fn last_kept_row(height: u32, new_height: u32, handle: Handle) -> int {
    if handle.south {
        if new_height > height {
            height - 1
        } else {
            new_height - 1
        }
    } else {
        height - 1
    }
}

/// The first and the last corner of the rectangle of the old image that a
/// resize keeps, and the point of the new image at which its first corner lands.
pub open spec fn resolved(
    width: u32,
    height: u32,
    new_width: u32,
    new_height: u32,
    handle: Handle,
) -> (Point, Point, Point) {
    let (x0, x1, x2) = kept_columns(width, new_width, handle);
    let y1 = last_kept_row(height, new_height, handle);
    (Point { x: x0 as i32, y: 0 }, Point { x: x1 as i32, y: y1 as i32 }, Point { x: x2 as i32, y: 0 })
}

/// Whether the rectangle that is kept fits into the new image: a handle that
/// does not control an axis cannot shrink the canvas along it.
pub open spec fn handle_allows(
    width: u32,
    height: u32,
    new_width: u32,
    new_height: u32,
    handle: Handle,
) -> bool {
    &&& handle.west || handle.east || width <= new_width
    &&& handle.south || height <= new_height
}

/// A requested dimension, raised to one pixel where it is less.
pub open spec fn at_least_one(dimension: u32) -> u32 {
    if dimension == 0 {
        1
    } else {
        dimension
    }
}

/// `len` opaque white pixels.
pub open spec fn blank_pixels(len: nat) -> Seq<Color> {
    Seq::new(len, |i: int| crate::color::white())
}

/// The pixels of the canvas after a resize: opaque white, with the kept
/// rectangle of the old image in its place.
pub open spec fn resized(
    pixels: Seq<Color>,
    width: u32,
    height: u32,
    new_width: u32,
    new_height: u32,
    handle: Handle,
) -> Seq<Color> {
    let (from, to, at) = resolved(width, height, new_width, new_height, handle);
    pasted(
        blank_pixels((new_width * new_height) as nat),
        new_width,
        pixels,
        width,
        from,
        to,
        at,
    )
}

pub fn resolve_canvas_points(
    canvas: &Canvas,
    new_width: &u32,
    new_height: &u32,
    resizer_id: &String,
) -> (points: (Point, Point, Point))
    requires
        addressable(canvas.width, canvas.height),
        addressable(*new_width, *new_height),
    ensures
        points == resolved(
            canvas.width,
            canvas.height,
            *new_width,
            *new_height,
            handle_of(resizer_id@),
        ),
{
    let handle = Handle::from_id(resizer_id.as_str());
    let width: i32 = canvas.width as i32;
    let height: i32 = canvas.height as i32;
    let x0: i32;
    let y0: i32 = 0;
    let x1: i32;
    let y1: i32;
    let x2: i32;
    let y2: i32 = 0;
    if handle.west {
        let x_diff: i32 = *new_width as i32 - width;
        if x_diff > 0 {
            x0 = 0;
            x2 = x_diff;
        } else {
            x0 = -x_diff;
            x2 = 0;
        }
        x1 = width - 1;
    } else if handle.east {
        let x_diff: i32 = *new_width as i32 - width;
        if x_diff > 0 {
            x1 = width - 1;
        } else {
            x1 = *new_width as i32 - 1;
        }
        x0 = 0;
        x2 = 0;
    } else {
        x0 = 0;
        x1 = width - 1;
        x2 = 0;
    }
    if handle.south {
        let y_diff: i32 = *new_height as i32 - height;
        if y_diff > 0 {
            y1 = height - 1;
        } else {
            y1 = *new_height as i32 - 1;
        }
    } else {
        y1 = height - 1;
    }
    (Point::new(x0, y0), Point::new(x1, y1), Point::new(x2, y2))
}

/// The rectangle that a resize keeps lies in the old image, and the place
/// where it lands lies in the new one.
pub proof fn lemma_kept_rect_fits(
    width: u32,
    height: u32,
    new_width: u32,
    new_height: u32,
    handle: Handle,
)
    requires
        addressable(width, height),
        addressable(new_width, new_height),
        handle_allows(width, height, new_width, new_height, handle),
    ensures
        ({
            let (from, to, at) = resolved(width, height, new_width, new_height, handle);
            !is_empty_rect(from, to) ==> {
                &&& holds_rect(
                    width * height,
                    width,
                    from,
                    to.x - from.x + 1,
                    to.y - from.y + 1,
                )
                &&& holds_rect(
                    new_width * new_height,
                    new_width,
                    at,
                    to.x - from.x + 1,
                    to.y - from.y + 1,
                )
            }
        }),
{
    let (from, to, at) = resolved(width, height, new_width, new_height, handle);
    if !is_empty_rect(from, to) {
        assert((to.y + 1) * width <= height * width) by (nonlinear_arith)
            requires
                0 <= to.y + 1 <= height,
                0 <= width,
        ;
        assert((to.y + 1) * new_width <= new_height * new_width) by (nonlinear_arith)
            requires
                0 <= to.y + 1 <= new_height,
                0 <= new_width,
        ;
        assert(height * width == width * height) by (nonlinear_arith);
        assert(new_height * new_width == new_width * new_height) by (nonlinear_arith);
    }
}

/// The pixel at column `x` and row `y` of a resized image: the pixel of the
/// old image that landed there, or opaque white where none did.
pub proof fn lemma_resized_pixel(
    pixels: Seq<Color>,
    width: u32,
    height: u32,
    new_width: u32,
    new_height: u32,
    handle: Handle,
    x: int,
    y: int,
)
    requires
        addressable(width, height),
        addressable(new_width, new_height),
        0 <= x < new_width,
        0 <= y < new_height,
    ensures
        0 <= y * new_width + x < new_width * new_height,
        resized(pixels, width, height, new_width, new_height, handle).len() == new_width
            * new_height,
        ({
            let (first, last, landing) = kept_columns(width, new_width, handle);
            let column = x - landing + first;
            resized(pixels, width, height, new_width, new_height, handle)[y * new_width + x] == (
            if first <= column <= last && y <= last_kept_row(height, new_height, handle) {
                pixels[y * width + column]
            } else {
                crate::color::white()
            })
        }),
{
    let i = y * new_width + x;
    assert(y * new_width == new_width * y) by (nonlinear_arith);
    lemma_fundamental_div_mod_converse(i, new_width as int, y, x);
    assert(0 <= i < new_width * new_height) by (nonlinear_arith)
        requires
            i == y * new_width + x,
            0 <= x < new_width,
            0 <= y < new_height,
    ;
}

/// Growing the canvas by an east or south handle keeps every pixel of the
/// old image where it was; all that is new is opaque white.
pub proof fn lemma_growth_keeps_image_in_place(
    pixels: Seq<Color>,
    width: u32,
    height: u32,
    new_width: u32,
    new_height: u32,
    handle: Handle,
    x: int,
    y: int,
)
    requires
        addressable(width, height),
        addressable(new_width, new_height),
        !handle.west,
        width <= new_width,
        height <= new_height,
        0 <= x < new_width,
        0 <= y < new_height,
    ensures
        resized(pixels, width, height, new_width, new_height, handle)[y * new_width + x] == (if x
            < width && y < height {
            pixels[y * width + x]
        } else {
            crate::color::white()
        }),
{
    lemma_resized_pixel(pixels, width, height, new_width, new_height, handle, x, y);
}

/// Growing the canvas by a west handle moves every pixel of the old image
/// to the right by the columns gained; the columns gained are opaque white.
pub proof fn lemma_west_growth_shifts_image(
    pixels: Seq<Color>,
    width: u32,
    height: u32,
    new_width: u32,
    new_height: u32,
    handle: Handle,
    x: int,
    y: int,
)
    requires
        addressable(width, height),
        addressable(new_width, new_height),
        handle.west,
        width <= new_width,
        height <= new_height,
        0 <= x < new_width,
        0 <= y < new_height,
    ensures
        resized(pixels, width, height, new_width, new_height, handle)[y * new_width + x] == (if x
            >= new_width - width && y < height {
            pixels[y * width + (x - (new_width - width))]
        } else {
            crate::color::white()
        }),
{
    lemma_resized_pixel(pixels, width, height, new_width, new_height, handle, x, y);
}

/// Shrinking the canvas by a west handle drops the leftmost columns: each
/// pixel left comes from as many columns further right in the old image as
/// the canvas lost.
pub proof fn lemma_west_shrink_drops_left_columns(
    pixels: Seq<Color>,
    width: u32,
    height: u32,
    new_width: u32,
    handle: Handle,
    x: int,
    y: int,
)
    requires
        addressable(width, height),
        handle.west,
        new_width <= width,
        0 <= x < new_width,
        0 <= y < height,
    ensures
        resized(pixels, width, height, new_width, height, handle)[y * new_width + x] == pixels[y
            * width + (x + (width - new_width))],
{
    lemma_resized_pixel(pixels, width, height, new_width, height, handle, x, y);
}

/// Shrinking the canvas by an east or south handle drops the rightmost
/// columns and the bottom rows: each pixel left is the pixel that was there.
pub proof fn lemma_shrink_keeps_image_in_place(
    pixels: Seq<Color>,
    width: u32,
    height: u32,
    new_width: u32,
    new_height: u32,
    handle: Handle,
    x: int,
    y: int,
)
    requires
        addressable(width, height),
        !handle.west,
        new_width <= width,
        new_height <= height,
        handle_allows(width, height, new_width, new_height, handle),
        0 <= x < new_width,
        0 <= y < new_height,
    ensures
        resized(pixels, width, height, new_width, new_height, handle)[y * new_width + x]
            == pixels[y * width + x],
{
    lemma_resized_pixel(pixels, width, height, new_width, new_height, handle, x, y);
}

/// Growing the canvas by a handle and then shrinking it back to its size by
/// the same handle restores the image.
pub proof fn lemma_grow_then_shrink_restores(
    pixels: Seq<Color>,
    width: u32,
    height: u32,
    big_width: u32,
    big_height: u32,
    handle: Handle,
)
    requires
        addressable(big_width, big_height),
        pixels.len() == width * height,
        width <= big_width,
        height <= big_height,
        handle_allows(big_width, big_height, width, height, handle),
    ensures
        resized(
            resized(pixels, width, height, big_width, big_height, handle),
            big_width,
            big_height,
            width,
            height,
            handle,
        ) == pixels,
{
    let grown = resized(pixels, width, height, big_width, big_height, handle);
    let back = resized(grown, big_width, big_height, width, height, handle);
    assert forall|i: int| 0 <= i < pixels.len() implies back[i] == pixels[i] by {
        let w = width as int;
        assert(w > 0) by (nonlinear_arith)
            requires
                0 <= i < w * height,
        ;
        let x = i % w;
        let y = i / w;
        lemma_fundamental_div_mod(i, w);
        assert(w * y == y * w) by (nonlinear_arith);
        assert(y < height) by (nonlinear_arith)
            requires
                i == y * w + x,
                0 <= x < w,
                i < w * height,
                0 <= y,
        ;
        lemma_resized_pixel(grown, big_width, big_height, width, height, handle, x, y);
        let (first, last, landing) = kept_columns(big_width, width, handle);
        lemma_resized_pixel(
            pixels,
            width,
            height,
            big_width,
            big_height,
            handle,
            x - landing + first,
            y,
        );
    }
    assert(back =~= pixels);
}

/// Whether the canvas can be resized to the size of the sketch by the handle
/// of the given identifier: the new size can be addressed and stored, and the
/// handle allows it.
pub open spec fn can_resize(
    canvas: Canvas,
    sketch_width: u32,
    sketch_height: u32,
    resizer_id: Seq<char>,
) -> bool {
    &&& canvas.wf()
    &&& addressable(sketch_width, sketch_height)
    &&& at_least_one(sketch_width) * at_least_one(sketch_height) <= usize::MAX
    &&& handle_allows(
        canvas.width,
        canvas.height,
        at_least_one(sketch_width),
        at_least_one(sketch_height),
        handle_of(resizer_id),
    )
}

/// Tells whether `resize_canvas` can be called with these arguments.
pub fn resize_allowed(
    canvas: &Canvas,
    sketch_width: u32,
    sketch_height: u32,
    resizer_id: &String,
) -> (allowed: bool)
    ensures
        allowed == can_resize(*canvas, sketch_width, sketch_height, resizer_id@),
{
    if !canvas.is_wf() {
        return false;
    }
    if sketch_width > i32::MAX as u32 || sketch_height > i32::MAX as u32 {
        return false;
    }
    let width: u64 = if sketch_width == 0 { 1 } else { sketch_width as u64 };
    let height: u64 = if sketch_height == 0 { 1 } else { sketch_height as u64 };
    assert(width * height <= 0x7fff_ffff * 0x7fff_ffff) by (nonlinear_arith)
        requires
            0 <= width <= 0x7fff_ffff,
            0 <= height <= 0x7fff_ffff,
    ;
    if width * height > usize::MAX as u64 {
        return false;
    }
    let handle = Handle::from_id(resizer_id.as_str());
    (handle.west || handle.east || canvas.width as u64 <= width) && (handle.south
        || canvas.height as u64 <= height)
}

/// Resizes the canvas to the size of the sketch that the handle was dragged
/// to, at least one pixel each way, and attaches the registered listeners again.
pub fn resize_canvas(
    canvas: &mut Canvas,
    sketch_width: u32,
    sketch_height: u32,
    resizer_id: &String,
)
    requires
        can_resize(*old(canvas), sketch_width, sketch_height, resizer_id@),
    ensures
        final(canvas).wf(),
        final(canvas).width == at_least_one(sketch_width),
        final(canvas).height == at_least_one(sketch_height),
        final(canvas).pixels@ == resized(
            old(canvas).pixels@,
            old(canvas).width,
            old(canvas).height,
            at_least_one(sketch_width),
            at_least_one(sketch_height),
            handle_of(resizer_id@),
        ),
        final(canvas).events == old(canvas).events,
        final(canvas).body == old(canvas).events,
{
    let sketch_width: u32 = if sketch_width == 0 { 1 } else { sketch_width };
    let sketch_height: u32 = if sketch_height == 0 { 1 } else { sketch_height };
    let ghost handle = handle_of(resizer_id@);
    let ghost source = canvas.pixels@;
    let (src_from, src_to, target_from) = resolve_canvas_points(
        canvas,
        &sketch_width,
        &sketch_height,
        resizer_id,
    );
    proof {
        lemma_kept_rect_fits(canvas.width, canvas.height, sketch_width, sketch_height, handle);
    }
    let src_pixels = canvas.extract_pixels(&src_from, &src_to);
    assert(0 <= sketch_width * sketch_height) by (nonlinear_arith);
    let len: usize = sketch_width as usize * sketch_height as usize;
    let mut target_pixels: Vec<Color> = Vec::new();
    while target_pixels.len() < len
        invariant
            target_pixels@.len() <= len,
            forall|i: int| 0 <= i < target_pixels@.len() ==> target_pixels@[i] == crate::color::white(),
        decreases len - target_pixels@.len(),
    {
        target_pixels.push(Color::white());
    }
    let ghost blank = blank_pixels(len as nat);
    assert(target_pixels@ =~= blank);
    proof {
        lemma_paste_nothing(blank, sketch_width, source, canvas.width, src_from, src_to, target_from);
    }
    if !(src_from.x > src_to.x || src_from.y > src_to.y) {
        let src_width: i32 = src_to.x - src_from.x + 1;
        let src_height: i32 = src_to.y - src_from.y + 1;
        let src_len: usize = src_pixels.len();
        let mut src_y: i32 = 0;
        while src_y < src_height
            invariant
                0 <= src_y <= src_height,
                src_height == src_to.y - src_from.y + 1,
                src_width == src_to.x - src_from.x + 1,
                src_width > 0,
                src_from.x >= 0,
                src_from.y >= 0,
                src_len == src_width * src_height,
                source == canvas.pixels@,
                blank.len() == len,
                target_pixels@.len() == len,
                src_pixels@ == extracted(source, canvas.width, src_from, src_to),
                holds_rect(
                    source.len() as int,
                    canvas.width,
                    src_from,
                    src_width as int,
                    src_height as int,
                ),
                holds_rect(len as int, sketch_width, target_from, src_width as int, src_height as int),
                target_pixels@ == pasted_so_far(
                    blank,
                    sketch_width,
                    source,
                    canvas.width,
                    src_from,
                    src_to,
                    target_from,
                    src_y as int,
                    0,
                ),
            decreases src_height - src_y,
        {
            let mut src_x: i32 = 0;
            while src_x < src_width
                invariant
                    0 <= src_y < src_height,
                    0 <= src_x <= src_width,
                    src_height == src_to.y - src_from.y + 1,
                    src_width == src_to.x - src_from.x + 1,
                    src_from.x >= 0,
                    src_from.y >= 0,
                    src_len == src_width * src_height,
                    source == canvas.pixels@,
                    blank.len() == len,
                    target_pixels@.len() == len,
                    src_pixels@ == extracted(source, canvas.width, src_from, src_to),
                    holds_rect(
                        source.len() as int,
                        canvas.width,
                        src_from,
                        src_width as int,
                        src_height as int,
                    ),
                    holds_rect(
                        len as int,
                        sketch_width,
                        target_from,
                        src_width as int,
                        src_height as int,
                    ),
                    target_pixels@ == pasted_so_far(
                        blank,
                        sketch_width,
                        source,
                        canvas.width,
                        src_from,
                        src_to,
                        target_from,
                        src_y as int,
                        src_x as int,
                    ),
                decreases src_width - src_x,
            {
                let src_point = Point::new(src_x, src_y);
                proof {
                    assert(src_y * src_width == src_width * src_y) by (nonlinear_arith);
                    lemma_fundamental_div_mod_converse(
                        src_y * src_width + src_x,
                        src_width as int,
                        src_y as int,
                        src_x as int,
                    );
                    assert(src_y * src_width + src_x < src_width * src_height) by (nonlinear_arith)
                        requires
                            0 <= src_x < src_width,
                            0 <= src_y < src_height,
                    ;
                    lemma_rect_pixel_in_rows(
                        len as int,
                        sketch_width,
                        target_from,
                        src_width as int,
                        src_height as int,
                        src_x as int,
                        src_y as int,
                    );
                }
                let src_idx = flat_idx(&src_point, &(src_width as u32));
                let target_point = Point::new(target_from.x + src_x, target_from.y + src_y);
                proof {
                    lemma_pixel_in_rows(len as int, sketch_width, target_point);
                    lemma_paste_one(
                        blank,
                        sketch_width,
                        source,
                        canvas.width,
                        src_from,
                        src_to,
                        target_from,
                        src_y as int,
                        src_x as int,
                        flat_index(target_point, sketch_width),
                    );
                }
                let target_idx = flat_idx(&target_point, &sketch_width);
                target_pixels[target_idx] = src_pixels[src_idx];
                src_x = src_x + 1;
            }
            proof {
                lemma_paste_row_done(
                    blank,
                    sketch_width,
                    source,
                    canvas.width,
                    src_from,
                    src_to,
                    target_from,
                    src_y as int,
                );
            }
            src_y = src_y + 1;
        }
        proof {
            lemma_paste_all(blank, sketch_width, source, canvas.width, src_from, src_to, target_from);
        }
    }
    assert(fitted(target_pixels@, len as nat) =~= target_pixels@);
    canvas.resize(sketch_width, sketch_height, target_pixels);
    canvas.resume_all_events();
}

/// Where the canvas lies on the page, in whole pixels.
#[derive(Clone, Copy, Debug, PartialEq, Eq, Structural)]
pub struct CanvasRect {
    pub left: i32,
    pub right: i32,
    pub top: i32,
    pub bottom: i32,
    pub width: i32,
}

/// A resize in progress: the handle that was grabbed and how far from the
/// edges it controls the pointer grabbed it.
#[derive(Clone, Copy, Debug, PartialEq, Eq, Structural)]
pub struct ResizeDrag {
    pub handle: Handle,
    pub x_offset: i64,
    pub y_offset: i64,
}

/// How the outline of the canvas to be is placed on the page.
#[derive(Clone, Copy, Debug, PartialEq, Eq, Structural)]
pub enum Placement {
    /// Where it is.
    Unmoved,
    /// Around the middle of the canvas: what the outline gains in width it
    /// gains in equal parts on both sides.
    Centered,
    /// With its right edge on the right edge of the canvas.
    RightPinned,
    /// With its left edge on the left edge of the canvas.
    LeftPinned,
}

/// The outline of the canvas to be, as a pointer move asks for it: its new
/// height and width, where they change, and its placement. A side is shown
/// no shorter than the least side.
#[derive(Clone, Copy, Debug, PartialEq, Eq, Structural)]
pub struct SketchUpdate {
    pub height: Option<i64>,
    pub width: Option<i64>,
    pub placement: Placement,
}

/// The least height and width of the outline.
pub const MIN_SKETCH_SIDE: i64 = 50;

/// The horizontal distance between the pointer and the edge that the handle
/// controls, measured outwards.
pub open spec fn grab_x_offset(handle: Handle, rect: CanvasRect, pointer: Point) -> int {
    if handle.west {
        rect.left - pointer.x
    } else if handle.east {
        pointer.x - rect.right
    } else {
        0
    }
}

/// The vertical distance between the pointer and the bottom edge, if the
/// handle controls it.
pub open spec fn grab_y_offset(handle: Handle, rect: CanvasRect, pointer: Point) -> int {
    if handle.south {
        pointer.y - rect.bottom
    } else {
        0
    }
}

/// The length at which a side of the outline is shown: its own, or the
/// least side where it is shorter.
pub open spec fn sketch_side(side: int) -> int {
    if side < MIN_SKETCH_SIDE {
        MIN_SKETCH_SIDE as int
    } else {
        side
    }
}

/// By how many pixels the pointer has pulled the controlled vertical edge
/// outwards, if the handle controls one.
pub open spec fn pulled_outwards(drag: ResizeDrag, rect: CanvasRect, pointer: Point) -> Option<int> {
    if drag.handle.west {
        Some(rect.left - pointer.x - drag.x_offset)
    } else if drag.handle.east {
        Some(pointer.x - drag.x_offset - rect.right)
    } else {
        None
    }
}

/// The outline after a pointer move.
///
/// A south handle sets the height to the distance from the top edge of the
/// canvas to the pointer, less the grab offset. A west or east handle that
/// is pulled outwards widens the outline by twice the pull, around the
/// middle; pulled inwards it narrows the outline by the pull, with the
/// opposite edge pinned.
pub open spec fn sketched(drag: ResizeDrag, rect: CanvasRect, pointer: Point) -> SketchUpdate {
    let height = if drag.handle.south {
        Some((pointer.y - drag.y_offset - rect.top) as i64)
    } else {
        None
    };
    match pulled_outwards(drag, rect, pointer) {
        None => SketchUpdate { height, width: None, placement: Placement::Unmoved },
        Some(pull) => if pull >= 0 {
            SketchUpdate {
                height,
                width: Some((rect.width + 2 * pull) as i64),
                placement: Placement::Centered,
            }
        } else if drag.handle.west {
            SketchUpdate {
                height,
                width: Some((rect.width + pull) as i64),
                placement: Placement::RightPinned,
            }
        } else {
            SketchUpdate {
                height,
                width: Some((rect.width + pull) as i64),
                placement: Placement::LeftPinned,
            }
        },
    }
}

impl ResizeDrag {
    /// The offsets are differences of two pixel coordinates.
    pub open spec fn wf(&self) -> bool {
        &&& -0x1_0000_0000 <= self.x_offset <= 0x1_0000_0000
        &&& -0x1_0000_0000 <= self.y_offset <= 0x1_0000_0000
    }

    /// Tells whether the offsets are differences of two pixel coordinates.
    pub fn is_wf(&self) -> (ok: bool)
        ensures
            ok == self.wf(),
    {
        -0x1_0000_0000 <= self.x_offset && self.x_offset <= 0x1_0000_0000 && -0x1_0000_0000
            <= self.y_offset && self.y_offset <= 0x1_0000_0000
    }
}

/// Pointer-down on a resize handle: every listener of the drawing tools is
/// detached, and unless an outline is shown already a resize begins.
pub fn init_canvas_resize(
    canvas: &mut Canvas,
    sketch_shown: bool,
    resizer_id: &str,
    rect: &CanvasRect,
    pointer: &Point,
) -> (drag: Option<ResizeDrag>)
    ensures
        final(canvas).body.is_clear(),
        final(canvas).events == old(canvas).events,
        final(canvas).same_image(old(canvas)),
        sketch_shown ==> drag.is_none(),
        !sketch_shown ==> drag == Some(
            ResizeDrag {
                handle: handle_of(resizer_id@),
                x_offset: grab_x_offset(handle_of(resizer_id@), *rect, *pointer) as i64,
                y_offset: grab_y_offset(handle_of(resizer_id@), *rect, *pointer) as i64,
            },
        ),
        drag.is_some() ==> drag.unwrap().wf(),
{
    canvas.pause_all_events();
    if sketch_shown {
        return None;
    }
    let handle = Handle::from_id(resizer_id);
    let x_offset: i64;
    if handle.west {
        x_offset = rect.left as i64 - pointer.x as i64;
    } else if handle.east {
        x_offset = pointer.x as i64 - rect.right as i64;
    } else {
        x_offset = 0;
    }
    let y_offset: i64;
    if handle.south {
        y_offset = pointer.y as i64 - rect.bottom as i64;
    } else {
        y_offset = 0;
    }
    Some(ResizeDrag { handle, x_offset, y_offset })
}

/// Pointer-move during a resize: the outline follows the pointer.
pub fn resize_canvas_sketch(drag: &ResizeDrag, rect: &CanvasRect, pointer: &Point) -> (update:
    SketchUpdate)
    requires
        drag.wf(),
    ensures
        update == sketched(*drag, *rect, *pointer),
{
    let mut height: Option<i64> = None;
    let mut left_diff: Option<i64> = None;
    let mut right_diff: Option<i64> = None;
    if drag.handle.south {
        height = Some(pointer.y as i64 - drag.y_offset - rect.top as i64);
    }
    if drag.handle.west {
        left_diff = Some(rect.left as i64 - pointer.x as i64 - drag.x_offset);
    } else if drag.handle.east {
        right_diff = Some(pointer.x as i64 - drag.x_offset - rect.right as i64);
    }
    let diff = if left_diff.is_some() { left_diff } else { right_diff };
    let mut width: Option<i64> = None;
    let mut placement = Placement::Unmoved;
    if diff.is_some() && diff.unwrap() >= 0 {
        let diff: i64 = diff.unwrap();
        width = Some(rect.width as i64 + 2 * diff);
        placement = Placement::Centered;
    } else if left_diff.is_some() {
        let left_diff: i64 = left_diff.unwrap();
        placement = Placement::RightPinned;
        width = Some(rect.width as i64 + left_diff);
    } else if right_diff.is_some() {
        let right_diff: i64 = right_diff.unwrap();
        placement = Placement::LeftPinned;
        width = Some(rect.width as i64 + right_diff);
    }
    SketchUpdate { height, width, placement }
}

/// The length at which a side of the outline is shown.
pub fn shown_side(side: i64) -> (shown: i64)
    ensures
        shown == sketch_side(side as int),
{
    if side < MIN_SKETCH_SIDE {
        MIN_SKETCH_SIDE
    } else {
        side
    }
}

} // verus!
