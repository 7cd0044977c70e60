use vstd::prelude::*;
use vstd::arithmetic::div_mod::{lemma_fundamental_div_mod, lemma_fundamental_div_mod_converse};
use crate::color::Color;
use crate::image_vec::{self, clamped_channels, held, set_channel};
use wasm_bindgen::Clamped;
use crate::point::Point;
use crate::util::flat_index;

verus! {

/// A raster stored as a flat sequence of channels, four per pixel in the
/// order red, green, blue, alpha, row after row.
pub struct Image {
    pub vector: Clamped<Vec<u8>>,
    pub width: u32,
}

/// The pixels that a sequence of channels spells out.
pub open spec fn colors_of(channels: Seq<u8>) -> Seq<Color> {
    Seq::new(
        (channels.len() / 4) as nat,
        |i: int|
            Color {
                r: channels[4 * i],
                g: channels[4 * i + 1],
                b: channels[4 * i + 2],
                a: channels[4 * i + 3],
            },
    )
}

/// Whether a row-major buffer of `len` pixels with rows of the given width
/// holds the whole row of the point, and the point lies in that row.
pub open spec fn in_rows(len: int, width: u32, point: Point) -> bool {
    &&& 0 <= point.x < width
    &&& 0 <= point.y
    &&& (point.y + 1) * width <= len
}

/// Whether the rectangle from `from` to `to`, corners included, has no pixel.
pub open spec fn is_empty_rect(from: Point, to: Point) -> bool {
    from.x > to.x || from.y > to.y
}

/// The buffer `target` after the rectangle from `from` to `to` of `source`,
/// corners included, was copied into it with its first corner at `at`.
pub open spec fn pasted(
    target: Seq<Color>,
    target_width: u32,
    source: Seq<Color>,
    source_width: u32,
    from: Point,
    to: Point,
    at: Point,
) -> Seq<Color> {
    Seq::new(
        target.len(),
        |i: int|
            {
                let x = i % (target_width as int) - at.x + from.x;
                let y = i / (target_width as int) - at.y + from.y;
                if from.x <= x <= to.x && from.y <= y <= to.y {
                    source[y * source_width + x]
                } else {
                    target[i]
                }
            },
    )
}

/// Whether a row-major buffer of `len` pixels with rows of the given width
/// holds the rectangle of the given size whose first corner is `from`, and a
/// `Point` can name each pixel of the rectangle.
pub open spec fn holds_rect(len: int, width: u32, from: Point, columns: int, rows: int) -> bool {
    &&& 0 <= from.x
    &&& from.x + columns <= width
    &&& from.x + columns <= i32::MAX + 1
    &&& 0 <= from.y
    &&& (from.y + rows) * width <= len
    &&& from.y + rows <= i32::MAX + 1
}

/// The buffer `target` while a rectangle is being copied into it row by row:
/// the first `rows` rows of the rectangle are in place, and of the next row
/// its first `columns` pixels.
pub open spec fn pasted_so_far(
    target: Seq<Color>,
    target_width: u32,
    source: Seq<Color>,
    source_width: u32,
    from: Point,
    to: Point,
    at: Point,
    rows: int,
    columns: int,
) -> Seq<Color> {
    Seq::new(
        target.len(),
        |i: int|
            {
                let x = i % (target_width as int) - at.x + from.x;
                let y = i / (target_width as int) - at.y + from.y;
                if from.x <= x <= to.x && from.y <= y <= to.y && (y - from.y < rows || (y - from.y
                    == rows && x - from.x < columns)) {
                    source[y * source_width + x]
                } else {
                    target[i]
                }
            },
    )
}

/// Before the first pixel is copied the target is as it was.
pub proof fn lemma_paste_nothing(
    target: Seq<Color>,
    target_width: u32,
    source: Seq<Color>,
    source_width: u32,
    from: Point,
    to: Point,
    at: Point,
)
    ensures
        pasted_so_far(target, target_width, source, source_width, from, to, at, 0, 0) == target,
        is_empty_rect(from, to) ==> pasted(target, target_width, source, source_width, from, to, at)
            == target,
{
    assert(pasted_so_far(target, target_width, source, source_width, from, to, at, 0, 0)
        =~= target);
    if is_empty_rect(from, to) {
        assert(pasted(target, target_width, source, source_width, from, to, at) =~= target);
    }
}

/// A row that is copied to its last pixel is a finished row.
pub proof fn lemma_paste_row_done(
    target: Seq<Color>,
    target_width: u32,
    source: Seq<Color>,
    source_width: u32,
    from: Point,
    to: Point,
    at: Point,
    rows: int,
)
    ensures
        pasted_so_far(
            target,
            target_width,
            source,
            source_width,
            from,
            to,
            at,
            rows,
            to.x - from.x + 1,
        ) == pasted_so_far(target, target_width, source, source_width, from, to, at, rows + 1, 0),
{
    assert(pasted_so_far(
        target,
        target_width,
        source,
        source_width,
        from,
        to,
        at,
        rows,
        to.x - from.x + 1,
    ) =~= pasted_so_far(target, target_width, source, source_width, from, to, at, rows + 1, 0));
}

/// Once every row is finished the rectangle is copied.
pub proof fn lemma_paste_all(
    target: Seq<Color>,
    target_width: u32,
    source: Seq<Color>,
    source_width: u32,
    from: Point,
    to: Point,
    at: Point,
)
    ensures
        pasted_so_far(
            target,
            target_width,
            source,
            source_width,
            from,
            to,
            at,
            to.y - from.y + 1,
            0,
        ) == pasted(target, target_width, source, source_width, from, to, at),
{
    assert(pasted_so_far(
        target,
        target_width,
        source,
        source_width,
        from,
        to,
        at,
        to.y - from.y + 1,
        0,
    ) =~= pasted(target, target_width, source, source_width, from, to, at));
}

/// Writing the next pixel of the rectangle to its place advances the copy by
/// one pixel.
pub proof fn lemma_paste_one(
    target: Seq<Color>,
    target_width: u32,
    source: Seq<Color>,
    source_width: u32,
    from: Point,
    to: Point,
    at: Point,
    rows: int,
    columns: int,
    index: int,
)
    requires
        0 <= rows <= to.y - from.y,
        0 <= columns <= to.x - from.x,
        0 <= at.x + columns < target_width,
        index == (at.y + rows) * target_width + at.x + columns,
        0 <= index < target.len(),
    ensures
        pasted_so_far(
            target,
            target_width,
            source,
            source_width,
            from,
            to,
            at,
            rows,
            columns,
        ).update(index, source[(from.y + rows) * source_width + from.x + columns])
            == pasted_so_far(
            target,
            target_width,
            source,
            source_width,
            from,
            to,
            at,
            rows,
            columns + 1,
        ),
{
    let w = target_width as int;
    let before = pasted_so_far(
        target,
        target_width,
        source,
        source_width,
        from,
        to,
        at,
        rows,
        columns,
    );
    let after = pasted_so_far(
        target,
        target_width,
        source,
        source_width,
        from,
        to,
        at,
        rows,
        columns + 1,
    );
    let written = before.update(index, source[(from.y + rows) * source_width + from.x + columns]);
    assert forall|i: int| 0 <= i < target.len() implies written[i] == after[i] by {
        if i == index {
            assert((at.y + rows) * w == w * (at.y + rows)) by (nonlinear_arith);
            lemma_fundamental_div_mod_converse(index, w, at.y + rows, at.x + columns);
        } else {
            lemma_fundamental_div_mod(i, w);
            assert((i / w) * w == w * (i / w)) by (nonlinear_arith);
        }
    }
    assert(written =~= after);
}

impl View for Image {
    type V = Seq<Color>;

    open spec fn view(&self) -> Seq<Color> {
        colors_of(clamped_channels(self.vector))
    }
}

impl Image {
    /// Every pixel has all of its four channels.
    pub open spec fn wf(&self) -> bool {
        clamped_channels(self.vector).len() % 4 == 0
    }

    /// Whether the point is a pixel of the image.
    pub open spec fn holds(&self, point: Point) -> bool {
        in_rows(self@.len() as int, self.width, point)
    }

    pub fn new(vector: Clamped<Vec<u8>>, width: u32) -> (image: Image)
        ensures
            image.vector == vector,
            image.width == width,
    {
        Image { vector, width }
    }

    /// An image of the given size with every pixel opaque white.
    pub fn blank(width: u32, height: u32) -> (image: Image)
        requires
            width * height <= u32::MAX,
            4 * width * height <= usize::MAX,
        ensures
            image.wf(),
            image.width == width,
            image@.len() == width * height,
            forall|i: int| 0 <= i < image@.len() ==> image@[i] == crate::color::white(),
    {
        assert(width * height >= 0) by (nonlinear_arith);
        assert(4 * (width * height) == 4 * width * height) by (nonlinear_arith);
        let vector = image_vec::blank(width * height);
        Image { vector, width }
    }

    /// Tells whether the point is a pixel of the image.
    pub fn has_pixel(&self, point: &Point) -> (has: bool)
        ensures
            has == self.holds(*point),
    {
        if point.x < 0 || point.y < 0 || point.x as i64 >= self.width as i64 {
            return false;
        }
        let pixels: u64 = (held(&self.vector).len() / 4) as u64;
        let rows: u64 = point.y as u64 + 1;
        let width: u64 = self.width as u64;
        assert(rows * width <= 0x8000_0000 * 0xffff_ffff) by (nonlinear_arith)
            requires
                0 <= rows <= 0x8000_0000,
                0 <= width <= 0xffff_ffff,
        ;
        rows * width <= pixels
    }

    /// Position of the first channel of a pixel.
    pub fn vector_index(&self, point: &Point) -> (index: usize)
        requires
            0 <= point.x,
            0 <= point.y,
            4 * flat_index(*point, self.width) <= usize::MAX,
        ensures
            index == 4 * flat_index(*point, self.width),
    {
        let row: usize = point.y as usize;
        let column: usize = point.x as usize;
        let width: usize = self.width as usize;
        assert(0 <= row * width <= row * width + column) by (nonlinear_arith)
            requires
                0 <= row,
                0 <= width,
                0 <= column,
        ;
        (row * width + column) * 4
    }

    /// Overwrites one pixel.
    pub fn color_pixel(&mut self, point: &Point, color: &Color)
        requires
            old(self).wf(),
            old(self).holds(*point),
        ensures
            final(self).wf(),
            final(self).width == old(self).width,
            final(self)@ == old(self)@.update(flat_index(*point, old(self).width), *color),
    {
        proof {
            lemma_pixel_in_rows(self@.len() as int, self.width, *point);
        }
        let len: usize = held(&self.vector).len();
        let index = self.vector_index(point);
        assert(index + 3 < len);
        let ghost before = clamped_channels(self.vector);
        set_channel(&mut self.vector, index, color.r);
        set_channel(&mut self.vector, index + 1, color.g);
        set_channel(&mut self.vector, index + 2, color.b);
        set_channel(&mut self.vector, index + 3, color.a);
        assert(self@ =~= colors_of(before).update(flat_index(*point, self.width), *color));
    }

    /// Reads one pixel.
    pub fn pixel_color(&self, point: &Point) -> (color: Color)
        requires
            self.holds(*point),
        ensures
            color == self@[flat_index(*point, self.width)],
    {
        proof {
            lemma_pixel_in_rows(self@.len() as int, self.width, *point);
        }
        let channels = held(&self.vector);
        assert(channels@.len() == channels.len());
        let index = self.vector_index(point);
        let r = channels[index];
        let g = channels[index + 1];
        let b = channels[index + 2];
        let a = channels[index + 3];
        return Color::new(r, g, b, a);
    }

    /// Copies the rectangle from `from` to `to`, corners included, into
    /// `other`, with its first corner at `other_from`.
    pub fn copy(&self, from: &Point, to: &Point, other: &mut Image, other_from: &Point)
        requires
            old(other).wf(),
            !is_empty_rect(*from, *to) ==> holds_rect(
                self@.len() as int,
                self.width,
                *from,
                to.x - from.x + 1,
                to.y - from.y + 1,
            ) && holds_rect(
                old(other)@.len() as int,
                old(other).width,
                *other_from,
                to.x - from.x + 1,
                to.y - from.y + 1,
            ),
        ensures
            final(other).wf(),
            final(other).width == old(other).width,
            final(other)@ == pasted(
                old(other)@,
                old(other).width,
                self@,
                self.width,
                *from,
                *to,
                *other_from,
            ),
    {
        let ghost target = other@;
        proof {
            lemma_paste_nothing(target, other.width, self@, self.width, *from, *to, *other_from);
        }
        if from.x > to.x || from.y > to.y {
            return ;
        }
        let columns: i64 = to.x as i64 - from.x as i64 + 1;
        let rows: i64 = to.y as i64 - from.y as i64 + 1;
        let mut y_index: i64 = 0;
        while y_index < rows
            invariant
                0 <= y_index <= rows,
                rows == to.y - from.y + 1,
                columns == to.x - from.x + 1,
                columns > 0,
                other.wf(),
                other.width == old(other).width,
                other@.len() == target.len(),
                holds_rect(self@.len() as int, self.width, *from, columns as int, rows as int),
                holds_rect(target.len() as int, other.width, *other_from, columns as int, rows as int),
                other@ == pasted_so_far(
                    target,
                    other.width,
                    self@,
                    self.width,
                    *from,
                    *to,
                    *other_from,
                    y_index as int,
                    0,
                ),
            decreases rows - y_index,
        {
            let mut x_index: i64 = 0;
            while x_index < columns
                invariant
                    0 <= y_index < rows,
                    0 <= x_index <= columns,
                    rows == to.y - from.y + 1,
                    columns == to.x - from.x + 1,
                    other.wf(),
                    other.width == old(other).width,
                    other@.len() == target.len(),
                    holds_rect(self@.len() as int, self.width, *from, columns as int, rows as int),
                    holds_rect(
                        target.len() as int,
                        other.width,
                        *other_from,
                        columns as int,
                        rows as int,
                    ),
                    other@ == pasted_so_far(
                        target,
                        other.width,
                        self@,
                        self.width,
                        *from,
                        *to,
                        *other_from,
                        y_index as int,
                        x_index as int,
                    ),
                decreases columns - x_index,
            {
                proof {
                    lemma_rect_pixel_in_rows(
                        self@.len() as int,
                        self.width,
                        *from,
                        columns as int,
                        rows as int,
                        x_index as int,
                        y_index as int,
                    );
                    lemma_rect_pixel_in_rows(
                        target.len() as int,
                        other.width,
                        *other_from,
                        columns as int,
                        rows as int,
                        x_index as int,
                        y_index as int,
                    );
                }
                let point = Point::new(
                    (other_from.x as i64 + x_index) as i32,
                    (other_from.y as i64 + y_index) as i32,
                );
                let source_point = Point::new(
                    (from.x as i64 + x_index) as i32,
                    (from.y as i64 + y_index) as i32,
                );
                let color = self.pixel_color(&source_point);
                proof {
                    lemma_pixel_in_rows(other@.len() as int, other.width, point);
                    lemma_paste_one(
                        target,
                        other.width,
                        self@,
                        self.width,
                        *from,
                        *to,
                        *other_from,
                        y_index as int,
                        x_index as int,
                        flat_index(point, other.width),
                    );
                }
                other.color_pixel(&point, &color);
                x_index = x_index + 1;
            }
            proof {
                lemma_paste_row_done(
                    target,
                    other.width,
                    self@,
                    self.width,
                    *from,
                    *to,
                    *other_from,
                    y_index as int,
                );
            }
            y_index = y_index + 1;
        }
        proof {
            lemma_paste_all(target, other.width, self@, self.width, *from, *to, *other_from);
        }
    }
}

/// Every pixel of a held rectangle lies in a held row, at coordinates that a
/// point can carry.
pub proof fn lemma_rect_pixel_in_rows(
    len: int,
    width: u32,
    from: Point,
    columns: int,
    rows: int,
    x_index: int,
    y_index: int,
)
    requires
        holds_rect(len, width, from, columns, rows),
        0 <= x_index < columns,
        0 <= y_index < rows,
    ensures
        in_rows(
            len,
            width,
            Point { x: (from.x + x_index) as i32, y: (from.y + y_index) as i32 },
        ),
{
    assert((from.y + y_index + 1) * width <= (from.y + rows) * width) by (nonlinear_arith)
        requires
            from.y + y_index + 1 <= from.y + rows,
            0 <= width,
    ;
}

/// A point in a held row has its place in the buffer.
pub proof fn lemma_pixel_in_rows(len: int, width: u32, point: Point)
    requires
        in_rows(len, width, point),
    ensures
        0 <= flat_index(point, width) < len,
{
    assert((point.y + 1) * width == point.y * width + width) by (nonlinear_arith);
    assert(0 <= point.y * width) by (nonlinear_arith)
        requires
            0 <= point.y,
            0 <= width,
    ;
}

} // verus!
