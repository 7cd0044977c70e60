//! Canvas geometry: which points and strokes lie on a canvas, and the canvas itself.

use vstd::prelude::*;
use crate::line::BorderCrossings;
use crate::point::Point;
use crate::segment::{max_int, min_int, Segment};

pub mod canvas;
pub mod canvas_events;

verus! {

/// Whether a canvas of this size can address every one of its pixels by a `Point`.
pub open spec fn addressable(width: u32, height: u32) -> bool {
    width <= i32::MAX && height <= i32::MAX
}

/// Whether the point is a pixel of a canvas of the given size.
pub open spec fn on_canvas(width: u32, height: u32, point: Point) -> bool {
    0 <= point.x < width && 0 <= point.y < height
}

/// Whether the bounding box of the segment shares at least one pixel with the canvas.
pub open spec fn overlaps_canvas(width: u32, height: u32, segment: Segment) -> bool {
    &&& width > 0
    &&& height > 0
    &&& segment.max_x() >= 0
    &&& segment.min_x() < width
    &&& segment.max_y() >= 0
    &&& segment.min_y() < height
}

/// The test a candidate endpoint has to pass: it is a pixel of the canvas and
/// lies within the extent of the stroke.
pub open spec fn qualifying(width: u32, height: u32, segment: Segment) -> spec_fn(Point) -> bool {
    |p: Point| on_canvas(width, height, p) && segment.spans(p)
}

/// The candidate endpoints of an oblique stroke, in their order of priority:
/// the two raw endpoints, then the crossings with the top, right, bottom and
/// left border.
pub open spec fn candidates(
    width: u32,
    height: u32,
    prev: Point,
    next: Point,
    crossings: BorderCrossings,
) -> Seq<Point> {
    seq![
        prev,
        next,
        crossings.top(height),
        crossings.right(width),
        crossings.bottom(),
        crossings.left(),
    ]
}

/// The part of the stroke from `prev` to `next` that is drawn on a canvas of
/// the given size, if any.
///
/// A stroke that lies on the canvas is kept as it is. One whose bounding box
/// misses the canvas is dropped. A vertical or horizontal stroke is clamped
/// to the canvas along its own axis. Of an oblique stroke the first two
/// qualifying candidates are kept, in the order of `candidates`; with fewer
/// than two the stroke is dropped.
pub open spec fn clipped(
    width: u32,
    height: u32,
    prev: Point,
    next: Point,
    crossings: BorderCrossings,
) -> Option<Segment> {
    let segment = Segment { a: prev, b: next };
    if on_canvas(width, height, prev) && on_canvas(width, height, next) {
        Some(segment)
    } else if !overlaps_canvas(width, height, segment) {
        None
    } else if prev.x == next.x {
        Some(
            Segment {
                a: Point { x: prev.x, y: max_int(segment.min_y(), 0) as i32 },
                b: Point { x: next.x, y: min_int(segment.max_y(), height - 1) as i32 },
            },
        )
    } else if prev.y == next.y {
        Some(
            Segment {
                a: Point { x: max_int(segment.min_x(), 0) as i32, y: prev.y },
                b: Point { x: min_int(segment.max_x(), width - 1) as i32, y: next.y },
            },
        )
    } else {
        let kept = candidates(width, height, prev, next, crossings).filter(
            qualifying(width, height, segment),
        );
        if kept.len() >= 2 {
            Some(Segment { a: kept[0], b: kept[1] })
        } else {
            None
        }
    }
}

/// A stroke whose two endpoints are pixels of the canvas is kept unchanged.
pub proof fn lemma_inside_stroke_is_kept(
    width: u32,
    height: u32,
    prev: Point,
    next: Point,
    crossings: BorderCrossings,
)
    requires
        on_canvas(width, height, prev),
        on_canvas(width, height, next),
    ensures
        clipped(width, height, prev, next, crossings) == Some(Segment { a: prev, b: next }),
{
}

/// A stroke whose bounding box shares no pixel with the canvas is dropped.
pub proof fn lemma_outside_stroke_is_dropped(
    width: u32,
    height: u32,
    prev: Point,
    next: Point,
    crossings: BorderCrossings,
)
    requires
        !overlaps_canvas(width, height, Segment { a: prev, b: next }),
    ensures
        clipped(width, height, prev, next, crossings).is_none(),
{
}

/// A vertical stroke is drawn exactly when its column is on the canvas and
/// its rows meet those of the canvas; what is drawn stays in that column and
/// covers exactly the rows that the stroke and the canvas have in common.
pub proof fn lemma_vertical_stroke_is_clamped(
    width: u32,
    height: u32,
    prev: Point,
    next: Point,
    crossings: BorderCrossings,
)
    requires
        addressable(width, height),
        prev.x == next.x,
    ensures
        ({
            let stroke = Segment { a: prev, b: next };
            match clipped(width, height, prev, next, crossings) {
                Some(drawn) => {
                    &&& overlaps_canvas(width, height, stroke)
                    &&& drawn.a.x == prev.x
                    &&& drawn.b.x == prev.x
                    &&& drawn.min_y() == max_int(stroke.min_y(), 0)
                    &&& drawn.max_y() == min_int(stroke.max_y(), height - 1)
                },
                None => !overlaps_canvas(width, height, stroke),
            }
        }),
{
}

/// A horizontal stroke is drawn exactly when its row is on the canvas and its
/// columns meet those of the canvas; what is drawn stays in that row and
/// covers exactly the columns that the stroke and the canvas have in common.
pub proof fn lemma_horizontal_stroke_is_clamped(
    width: u32,
    height: u32,
    prev: Point,
    next: Point,
    crossings: BorderCrossings,
)
    requires
        addressable(width, height),
        prev.y == next.y,
    ensures
        ({
            let stroke = Segment { a: prev, b: next };
            match clipped(width, height, prev, next, crossings) {
                Some(drawn) => {
                    &&& overlaps_canvas(width, height, stroke)
                    &&& drawn.a.y == prev.y
                    &&& drawn.b.y == prev.y
                    &&& drawn.min_x() == max_int(stroke.min_x(), 0)
                    &&& drawn.max_x() == min_int(stroke.max_x(), width - 1)
                },
                None => !overlaps_canvas(width, height, stroke),
            }
        }),
{
}

/// Whatever is drawn of a stroke has both endpoints on the canvas and within
/// the extent of the stroke.
pub proof fn lemma_drawn_stroke_is_on_canvas(
    width: u32,
    height: u32,
    prev: Point,
    next: Point,
    crossings: BorderCrossings,
)
    requires
        addressable(width, height),
    ensures
        ({
            let stroke = Segment { a: prev, b: next };
            match clipped(width, height, prev, next, crossings) {
                Some(drawn) => {
                    &&& on_canvas(width, height, drawn.a)
                    &&& on_canvas(width, height, drawn.b)
                    &&& stroke.spans(drawn.a)
                    &&& stroke.spans(drawn.b)
                },
                None => true,
            }
        }),
{
    let stroke = Segment { a: prev, b: next };
    let keep = qualifying(width, height, stroke);
    let kept = candidates(width, height, prev, next, crossings).filter(keep);
    if kept.len() >= 2 {
        candidates(width, height, prev, next, crossings).lemma_filter_pred(keep, 0);
        candidates(width, height, prev, next, crossings).lemma_filter_pred(keep, 1);
    }
}

/// Of an oblique stroke that leaves the canvas, the part drawn starts at the
/// first qualifying candidate and ends at the second; a stroke with a single
/// qualifying candidate, or none, is dropped.
pub proof fn lemma_oblique_stroke_keeps_first_two(
    width: u32,
    height: u32,
    prev: Point,
    next: Point,
    crossings: BorderCrossings,
)
    requires
        prev.x != next.x,
        prev.y != next.y,
        !(on_canvas(width, height, prev) && on_canvas(width, height, next)),
        overlaps_canvas(width, height, Segment { a: prev, b: next }),
    ensures
        ({
            let kept = candidates(width, height, prev, next, crossings).filter(
                qualifying(width, height, Segment { a: prev, b: next }),
            );
            clipped(width, height, prev, next, crossings) == if kept.len() >= 2 {
                Some(Segment { a: kept[0], b: kept[1] })
            } else {
                None
            }
        }),
{
}

/// The position of a pointer relative to the top left corner of the canvas,
/// which lies at `(left, top)` in the pointer's coordinates.
pub fn point_on_canvas(left: i32, top: i32, pointer_x: i32, pointer_y: i32) -> (p: Point)
    requires
        i32::MIN <= pointer_x - left <= i32::MAX,
        i32::MIN <= pointer_y - top <= i32::MAX,
    ensures
        p.x == pointer_x - left,
        p.y == pointer_y - top,
{
    let point = Point::new(pointer_x, pointer_y);
    point_relative_to_canvas(left, top, &point)
}

/// The point as seen from the top left corner of the canvas, which lies at
/// `(left, top)` in the point's coordinates.
pub fn point_relative_to_canvas(left: i32, top: i32, point: &Point) -> (p: Point)
    requires
        i32::MIN <= point.x - left <= i32::MAX,
        i32::MIN <= point.y - top <= i32::MAX,
    ensures
        p.x == point.x - left,
        p.y == point.y - top,
{
    Point::new(point.x - left, point.y - top)
}

pub fn is_point_on_canvas(width: u32, height: u32, point: &Point) -> (on: bool)
    ensures
        on == on_canvas(width, height, *point),
{
    if point.x < 0 || point.x as i64 >= width as i64 {
        return false;
    }
    if point.y < 0 || point.y as i64 >= height as i64 {
        return false;
    }
    true
}

pub fn is_segment_on_canvas(width: u32, height: u32, segment: &Segment) -> (on: bool)
    ensures
        on == (on_canvas(width, height, segment.a) && on_canvas(width, height, segment.b)),
{
    is_point_on_canvas(width, height, &segment.a) && is_point_on_canvas(width, height, &segment.b)
}

/// Clips the stroke from `prev` to `next` to a canvas of the given size.
pub fn segment_on_canvas(
    width: u32,
    height: u32,
    prev: Point,
    next: Point,
    crossings: &BorderCrossings,
) -> (result: Option<Segment>)
    requires
        addressable(width, height),
    ensures
        result == clipped(width, height, prev, next, *crossings),
{
    let segment = Segment::new(prev, next);
    if is_segment_on_canvas(width, height, &segment) {
        return Some(segment);
    }
    let min_x: i32 = if prev.x <= next.x { prev.x } else { next.x };
    let max_x: i32 = if prev.x >= next.x { prev.x } else { next.x };
    let min_y: i32 = if prev.y <= next.y { prev.y } else { next.y };
    let max_y: i32 = if prev.y >= next.y { prev.y } else { next.y };
    let width: i32 = width as i32;
    let height: i32 = height as i32;
    if width == 0 || max_x < 0 || min_x >= width {
        return None;
    }
    if height == 0 || max_y < 0 || min_y >= height {
        return None;
    }
    if prev.x == next.x {
        let mut from_y: i32 = min_y;
        if from_y < 0 {
            from_y = 0;
        }
        let mut to_y: i32 = max_y;
        if to_y >= height {
            to_y = height - 1;
        }
        return Some(Segment::new(Point::new(prev.x, from_y), Point::new(next.x, to_y)));
    }
    if prev.y == next.y {
        let mut from_x: i32 = min_x;
        if from_x < 0 {
            from_x = 0;
        }
        let mut to_x: i32 = max_x;
        if to_x >= width {
            to_x = width - 1;
        }
        return Some(Segment::new(Point::new(from_x, prev.y), Point::new(to_x, next.y)));
    }
    let top = Point::new(crossings.top_x, height - 1);
    let right = Point::new(width - 1, crossings.right_y);
    let bottom = Point::new(crossings.bottom_x, 0);
    let left = Point::new(0, crossings.left_y);
    let potential_points: Vec<Point> = vec![prev, next, top, right, bottom, left];
    let ghost all = candidates(width as u32, height as u32, prev, next, *crossings);
    let ghost keep = qualifying(width as u32, height as u32, segment);
    assert(potential_points@ =~= all);
    let mut points: Vec<Point> = Vec::new();
    let mut index: usize = 0;
    proof {
        reveal(Seq::filter);
        assert(all.take(0) =~= Seq::<Point>::empty());
    }
    while index < potential_points.len() && points.len() < 2
        invariant
            0 <= width,
            0 <= height,
            potential_points@ == all,
            all.len() == 6,
            index <= 6,
            keep == qualifying(width as u32, height as u32, segment),
            points@ == all.take(index as int).filter(keep),
            points.len() <= 2,
        decreases 6 - index,
    {
        let potential_point: Point = potential_points[index];
        proof {
            reveal(Seq::filter);
            assert(all.take(index + 1).drop_last() =~= all.take(index as int));
            assert(all.take(index + 1).last() == potential_point);
        }
        if is_point_on_canvas(width as u32, height as u32, &potential_point)
            && segment.is_point_within(&potential_point) {
            points.push(potential_point);
        }
        index = index + 1;
    }
    proof {
        let head = all.take(index as int);
        let tail = all.skip(index as int);
        assert(head + tail =~= all);
        Seq::filter_distributes_over_add(head, tail, keep);
    }
    if points.len() != 2 {
        return None;
    }
    Some(Segment::new(points[0], points[1]))
}

} // verus!
