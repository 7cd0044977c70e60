use vstd::prelude::*;
use wasm_bindgen::Clamped;
use vstd::arithmetic::div_mod::lemma_fundamental_div_mod_converse;
use crate::canvas::canvas_events::{CanvasEvents, Listener};
use crate::canvas::{addressable, clipped, on_canvas};
use crate::color::Color;
use crate::image_vec::{clamp, clamped_channels, held};
use crate::image::{colors_of, holds_rect, is_empty_rect, lemma_rect_pixel_in_rows, lemma_pixel_in_rows, Image};
use crate::line::BorderCrossings;
use crate::point::Point;
use crate::segment::Segment;
use crate::util::{flat_idx, flat_index};

verus! {

/// The drawing surface: its size, its pixels row after row, the listeners
/// registered for pointer events and the listeners attached to the pointer
/// source at the moment.
pub struct Canvas {
    pub width: u32,
    pub height: u32,
    pub pixels: Vec<Color>,
    /// The listeners the tools have registered, slot by slot.
    pub events: CanvasEvents,
    /// The listeners that pointer events reach right now; it differs from
    /// `events` while all events are paused.
    pub body: CanvasEvents,
}

/// The channels of a sequence of pixels, four per pixel.
pub open spec fn channels_of(pixels: Seq<Color>) -> Seq<u8> {
    Seq::new(
        4 * pixels.len(),
        |i: int|
            if i % 4 == 0 {
                pixels[i / 4].r
            } else if i % 4 == 1 {
                pixels[i / 4].g
            } else if i % 4 == 2 {
                pixels[i / 4].b
            } else {
                pixels[i / 4].a
            },
    )
}

/// The rectangle from `from` to `to` of a buffer, corners included, as a
/// buffer of its own.
pub open spec fn extracted(pixels: Seq<Color>, width: u32, from: Point, to: Point) -> Seq<Color> {
    if is_empty_rect(from, to) {
        Seq::empty()
    } else {
        let columns = to.x - from.x + 1;
        let rows = to.y - from.y + 1;
        Seq::new(
            (columns * rows) as nat,
            |i: int| pixels[(from.y + i / columns) * width + from.x + i % columns],
        )
    }
}

/// The first `len` pixels of a buffer, with opaque white for those it lacks.
pub open spec fn fitted(pixels: Seq<Color>, len: nat) -> Seq<Color> {
    Seq::new(
        len,
        |i: int|
            if i < pixels.len() {
                pixels[i]
            } else {
                crate::color::white()
            },
    )
}

impl Canvas {
    /// The buffer has one pixel for each point of the canvas, and every
    /// pixel can be named by a `Point`.
    pub open spec fn wf(&self) -> bool {
        &&& addressable(self.width, self.height)
        &&& self.pixels@.len() == self.width * self.height
    }

    /// Whether the two canvases have the same size and the same pixels.
    pub open spec fn same_image(&self, other: &Canvas) -> bool {
        &&& self.width == other.width
        &&& self.height == other.height
        &&& self.pixels == other.pixels
    }

    /// A canvas of the given size with the pixels that the channels spell
    /// out and no listener.
    pub fn new(width: u32, height: u32, channels: &Clamped<Vec<u8>>) -> (canvas: Canvas)
        requires
            addressable(width, height),
            clamped_channels(*channels).len() == 4 * (width * height),
        ensures
            canvas.wf(),
            canvas.width == width,
            canvas.height == height,
            canvas.pixels@ == colors_of(clamped_channels(*channels)),
            canvas.events.is_clear(),
            canvas.body.is_clear(),
    {
        let channels = held(channels);
        let mut pixels: Vec<Color> = Vec::with_capacity(channels.len() / 4);
        let mut index: usize = 0;
        while index < channels.len()
            invariant
                index % 4 == 0,
                index <= channels@.len(),
                channels@.len() % 4 == 0,
                pixels@.len() == index / 4,
                forall|i: int| 0 <= i < pixels@.len() ==> pixels@[i] == colors_of(channels@)[i],
            decreases channels@.len() - index,
        {
            let r = channels[index];
            let g = channels[index + 1];
            let b = channels[index + 2];
            let a = channels[index + 3];
            pixels.push(Color::new(r, g, b, a));
            index = index + 4;
        }
        assert(pixels@ =~= colors_of(channels@));
        let events = CanvasEvents::new();
        let body = CanvasEvents::new();
        Canvas { width, height, pixels, events, body }
    }

    /// Tells whether the buffer has one pixel for each point of the canvas
    /// and every pixel can be named by a `Point`.
    pub fn is_wf(&self) -> (ok: bool)
        ensures
            ok == self.wf(),
    {
        if self.width > i32::MAX as u32 || self.height > i32::MAX as u32 {
            return false;
        }
        let width: u64 = self.width as u64;
        let height: u64 = self.height as u64;
        assert(width * height <= 0x7fff_ffff * 0x7fff_ffff) by (nonlinear_arith)
            requires
                0 <= width <= 0x7fff_ffff,
                0 <= height <= 0x7fff_ffff,
        ;
        self.pixels.len() as u64 == width * height
    }

    /// The position of a pointer relative to the top left corner of the
    /// canvas, which lies at `(left, top)` in the pointer's coordinates.
    pub fn get_point(&self, left: i32, top: i32, pointer_x: i32, pointer_y: i32) -> (p: Point)
        requires
            i32::MIN <= pointer_x - left <= i32::MAX,
            i32::MIN <= pointer_y - top <= i32::MAX,
        ensures
            p.x == pointer_x - left,
            p.y == pointer_y - top,
    {
        Point::new(pointer_x - left, pointer_y - top)
    }

    /// Clips the stroke from `prev` to `next` to the canvas.
    pub fn get_segment(&self, prev: &Point, next: &Point, crossings: &BorderCrossings) -> (result:
        Option<Segment>)
        requires
            addressable(self.width, self.height),
        ensures
            result == clipped(self.width, self.height, *prev, *next, *crossings),
    {
        crate::canvas::segment_on_canvas(self.width, self.height, *prev, *next, crossings)
    }

    pub fn is_point_on_canvas(&self, point: &Point) -> (on: bool)
        ensures
            on == on_canvas(self.width, self.height, *point),
    {
        crate::canvas::is_point_on_canvas(self.width, self.height, point)
    }

    pub fn is_segment_on_canvas(&self, segment: &Segment) -> (on: bool)
        ensures
            on == (on_canvas(self.width, self.height, segment.a) && on_canvas(
                self.width,
                self.height,
                segment.b,
            )),
    {
        self.is_point_on_canvas(&segment.a) && self.is_point_on_canvas(&segment.b)
    }

    /// Registers the pointer-down listener, or none, and attaches it.
    pub fn set_on_mouse_down(&mut self, event: Option<Listener>)
        ensures
            final(self).events == (CanvasEvents { body_on_mouse_down: event, ..old(self).events }),
            final(self).body == (CanvasEvents { body_on_mouse_down: event, ..old(self).body }),
            final(self).width == old(self).width,
            final(self).height == old(self).height,
            final(self).pixels == old(self).pixels,
    {
        self.events.body_on_mouse_down = event;
        self.resume_on_mouse_down();
    }

    /// Registers the pointer-move listener, or none, and attaches it.
    pub fn set_on_mouse_move(&mut self, event: Option<Listener>)
        ensures
            final(self).events == (CanvasEvents { body_on_mouse_move: event, ..old(self).events }),
            final(self).body == (CanvasEvents { body_on_mouse_move: event, ..old(self).body }),
            final(self).width == old(self).width,
            final(self).height == old(self).height,
            final(self).pixels == old(self).pixels,
    {
        self.events.body_on_mouse_move = event;
        self.resume_on_mouse_move();
    }

    /// Registers the pointer-up listener, or none, and attaches it.
    pub fn set_on_mouse_up(&mut self, event: Option<Listener>)
        ensures
            final(self).events == (CanvasEvents { body_on_mouse_up: event, ..old(self).events }),
            final(self).body == (CanvasEvents { body_on_mouse_up: event, ..old(self).body }),
            final(self).width == old(self).width,
            final(self).height == old(self).height,
            final(self).pixels == old(self).pixels,
    {
        self.events.body_on_mouse_up = event;
        self.resume_on_mouse_up();
    }

    /// Registers the pointer-leave listener, or none, and attaches it.
    pub fn set_on_mouse_leave(&mut self, event: Option<Listener>)
        ensures
            final(self).events == (CanvasEvents { body_on_mouse_leave: event, ..old(self).events }),
            final(self).body == (CanvasEvents { body_on_mouse_leave: event, ..old(self).body }),
            final(self).width == old(self).width,
            final(self).height == old(self).height,
            final(self).pixels == old(self).pixels,
    {
        self.events.body_on_mouse_leave = event;
        self.resume_on_mouse_leave();
    }

    /// Detaches every listener from the pointer source; what is registered stays.
    pub fn pause_all_events(&mut self)
        ensures
            final(self).body.is_clear(),
            final(self).events == old(self).events,
            final(self).width == old(self).width,
            final(self).height == old(self).height,
            final(self).pixels == old(self).pixels,
    {
        self.body.body_on_mouse_down = None;
        self.body.body_on_mouse_move = None;
        self.body.body_on_mouse_up = None;
        self.body.body_on_mouse_leave = None;
    }

    /// Attaches again what is registered.
    pub fn resume_all_events(&mut self)
        ensures
            final(self).body == old(self).events,
            final(self).events == old(self).events,
            final(self).width == old(self).width,
            final(self).height == old(self).height,
            final(self).pixels == old(self).pixels,
    {
        self.resume_on_mouse_down();
        self.resume_on_mouse_move();
        self.resume_on_mouse_up();
        self.resume_on_mouse_leave();
    }

    /// The rectangle from `from` to `to`, corners included, row after row.
    pub fn extract_pixels(&self, from: &Point, to: &Point) -> (block: Vec<Color>)
        requires
            !is_empty_rect(*from, *to) ==> holds_rect(
                self.pixels@.len() as int,
                self.width,
                *from,
                to.x - from.x + 1,
                to.y - from.y + 1,
            ),
        ensures
            block@ == extracted(self.pixels@, self.width, *from, *to),
    {
        let mut pixels: Vec<Color> = Vec::new();
        if from.x > to.x || from.y > to.y {
            return pixels;
        }
        let len: usize = self.pixels.len();
        let columns: i64 = to.x as i64 - from.x as i64 + 1;
        let rows: i64 = to.y as i64 - from.y as i64 + 1;
        let ghost all = extracted(self.pixels@, self.width, *from, *to);
        assert(rows * columns == columns * rows) by (nonlinear_arith);
        let mut y_index: i64 = 0;
        while y_index < rows
            invariant
                0 <= y_index <= rows,
                rows == to.y - from.y + 1,
                columns == to.x - from.x + 1,
                columns > 0,
                len == self.pixels@.len(),
                holds_rect(len as int, self.width, *from, columns as int, rows as int),
                all == extracted(self.pixels@, self.width, *from, *to),
                all.len() == rows * columns,
                pixels@.len() == y_index * columns,
                forall|i: int| 0 <= i < pixels@.len() ==> pixels@[i] == all[i],
            decreases rows - y_index,
        {
            let mut x_index: i64 = 0;
            while x_index < columns
                invariant
                    0 <= y_index < rows,
                    0 <= x_index <= columns,
                    rows == to.y - from.y + 1,
                    columns == to.x - from.x + 1,
                    len == self.pixels@.len(),
                    holds_rect(len as int, self.width, *from, columns as int, rows as int),
                    all == extracted(self.pixels@, self.width, *from, *to),
                    all.len() == rows * columns,
                    pixels@.len() == y_index * columns + x_index,
                    forall|i: int| 0 <= i < pixels@.len() ==> pixels@[i] == all[i],
                decreases columns - x_index,
            {
                proof {
                    lemma_rect_pixel_in_rows(
                        len as int,
                        self.width,
                        *from,
                        columns as int,
                        rows as int,
                        x_index as int,
                        y_index as int,
                    );
                }
                let point = Point::new(
                    (from.x as i64 + x_index) as i32,
                    (from.y as i64 + y_index) as i32,
                );
                proof {
                    lemma_pixel_in_rows(len as int, self.width, point);
                    let i = y_index * columns + x_index;
                    assert(y_index * columns == columns * y_index) by (nonlinear_arith);
                    lemma_fundamental_div_mod_converse(i, columns as int, y_index as int, x_index as int);
                    assert(i < rows * columns) by (nonlinear_arith)
                        requires
                            i == y_index * columns + x_index,
                            0 <= x_index < columns,
                            0 <= y_index < rows,
                    ;
                }
                let idx = flat_idx(&point, &self.width);
                pixels.push(self.pixels[idx]);
                x_index = x_index + 1;
            }
            proof {
                assert((y_index + 1) * columns == y_index * columns + columns) by (nonlinear_arith);
            }
            y_index = y_index + 1;
        }
        assert(pixels@ =~= all);
        pixels
    }

    /// Gives the canvas a new size and new pixels: the first
    /// `width * height` of those handed in, with opaque white for those
    /// that are lacking.
    pub fn resize(&mut self, width: u32, height: u32, pixels: Vec<Color>)
        requires
            addressable(width, height),
            width * height <= usize::MAX,
        ensures
            final(self).wf(),
            final(self).width == width,
            final(self).height == height,
            final(self).pixels@ == fitted(pixels@, (width * height) as nat),
            final(self).events == old(self).events,
            final(self).body == old(self).body,
    {
        let mut pixels = pixels;
        assert(0 <= width * height) by (nonlinear_arith);
        let len: usize = width as usize * height as usize;
        let ghost given = pixels@;
        pixels.truncate(len);
        while pixels.len() < len
            invariant
                pixels@.len() <= len,
                pixels@.len() >= given.len() || pixels@.len() == len,
                forall|i: int| 0 <= i < pixels@.len() ==> pixels@[i] == fitted(given, len as nat)[i],
            decreases len - pixels@.len(),
        {
            pixels.push(Color::white());
        }
        assert(pixels@ =~= fitted(given, len as nat));
        self.width = width;
        self.height = height;
        self.pixels = pixels;
    }

    /// The frame to show: the canvas as it is.
    pub fn refresh(&self) -> (frame: Image)
        requires
            4 * self.pixels@.len() <= usize::MAX,
        ensures
            frame.wf(),
            frame.width == self.width,
            frame@ == self.pixels@,
            clamped_channels(frame.vector) == channels_of(self.pixels@),
    {
        self.create_image_data()
    }

    /// The frame to show in place of the canvas: pixels from elsewhere in
    /// rows of the width of the canvas.
    pub fn render_external_pixels(&self, pixels: &Vec<Color>) -> (frame: Image)
        requires
            4 * pixels@.len() <= usize::MAX,
        ensures
            frame.wf(),
            frame.width == self.width,
            frame@ == pixels@,
            clamped_channels(frame.vector) == channels_of(pixels@),
    {
        self.create_image_data_from_pixels(pixels)
    }

    fn create_image_data(&self) -> (frame: Image)
        requires
            4 * self.pixels@.len() <= usize::MAX,
        ensures
            frame.wf(),
            frame.width == self.width,
            frame@ == self.pixels@,
            clamped_channels(frame.vector) == channels_of(self.pixels@),
    {
        self.create_image_data_from_pixels(&self.pixels)
    }

    fn create_image_data_from_pixels(&self, pixels: &Vec<Color>) -> (frame: Image)
        requires
            4 * pixels@.len() <= usize::MAX,
        ensures
            frame.wf(),
            frame.width == self.width,
            frame@ == pixels@,
            clamped_channels(frame.vector) == channels_of(pixels@),
    {
        let width = self.width;
        let mut data: Vec<u8> = Vec::new();
        let mut index: usize = 0;
        while index < pixels.len()
            invariant
                index <= pixels@.len(),
                data@.len() == 4 * index,
                forall|i: int| 0 <= i < data@.len() ==> data@[i] == channels_of(pixels@)[i],
            decreases pixels@.len() - index,
        {
            let pixel = pixels[index];
            data.push(pixel.r);
            data.push(pixel.g);
            data.push(pixel.b);
            data.push(pixel.a);
            index = index + 1;
        }
        assert(data@ =~= channels_of(pixels@));
        assert(colors_of(data@) =~= pixels@);
        Image::new(clamp(data), width)
    }

    fn resume_on_mouse_down(&mut self)
        ensures
            final(self).body == (CanvasEvents {
                body_on_mouse_down: old(self).events.body_on_mouse_down,
                ..old(self).body
            }),
            final(self).events == old(self).events,
            final(self).width == old(self).width,
            final(self).height == old(self).height,
            final(self).pixels == old(self).pixels,
    {
        self.body.body_on_mouse_down = self.events.body_on_mouse_down;
    }

    fn resume_on_mouse_move(&mut self)
        ensures
            final(self).body == (CanvasEvents {
                body_on_mouse_move: old(self).events.body_on_mouse_move,
                ..old(self).body
            }),
            final(self).events == old(self).events,
            final(self).width == old(self).width,
            final(self).height == old(self).height,
            final(self).pixels == old(self).pixels,
    {
        self.body.body_on_mouse_move = self.events.body_on_mouse_move;
    }

    fn resume_on_mouse_up(&mut self)
        ensures
            final(self).body == (CanvasEvents {
                body_on_mouse_up: old(self).events.body_on_mouse_up,
                ..old(self).body
            }),
            final(self).events == old(self).events,
            final(self).width == old(self).width,
            final(self).height == old(self).height,
            final(self).pixels == old(self).pixels,
    {
        self.body.body_on_mouse_up = self.events.body_on_mouse_up;
    }

    fn resume_on_mouse_leave(&mut self)
        ensures
            final(self).body == (CanvasEvents {
                body_on_mouse_leave: old(self).events.body_on_mouse_leave,
                ..old(self).body
            }),
            final(self).events == old(self).events,
            final(self).width == old(self).width,
            final(self).height == old(self).height,
            final(self).pixels == old(self).pixels,
    {
        self.body.body_on_mouse_leave = self.events.body_on_mouse_leave;
    }
}

} // verus!
