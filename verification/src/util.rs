use vstd::prelude::*;
use crate::point::Point;

verus! {

/// Position of a pixel in a row-major buffer with rows of the given width.
pub open spec fn flat_index(point: Point, width: u32) -> int {
    point.y * width + point.x
}

pub fn flat_idx(point: &Point, width: &u32) -> (idx: usize)
    requires
        0 <= point.x,
        0 <= point.y,
        flat_index(*point, *width) <= usize::MAX,
    ensures
        idx == flat_index(*point, *width),
{
    let row: usize = point.y as usize;
    let column: usize = point.x as usize;
    let width: usize = *width as usize;
    assert(row * width <= row * width + column);
    row * width + column
}

} // verus!
