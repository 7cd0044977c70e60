use vstd::prelude::*;
use crate::point::Point;

verus! {

/// Where the straight line through a stroke meets the four border lines of a
/// canvas, each crossing rounded to a pixel coordinate by whoever measured it.
///
/// The top border is the row `height - 1`, the right border the column
/// `width - 1`, the bottom border the row `0` and the left border the column `0`.
#[derive(Clone, Copy, Debug, PartialEq, Eq, Structural)]
pub struct BorderCrossings {
    /// Column at which the line meets the row `height - 1`.
    pub top_x: i32,
    /// Row at which the line meets the column `width - 1`.
    pub right_y: i32,
    /// Column at which the line meets the row `0`.
    pub bottom_x: i32,
    /// Row at which the line meets the column `0`.
    pub left_y: i32,
}

impl BorderCrossings {
    pub fn new(top_x: i32, right_y: i32, bottom_x: i32, left_y: i32) -> (c: BorderCrossings)
        ensures
            c == (BorderCrossings { top_x, right_y, bottom_x, left_y }),
    {
        BorderCrossings { top_x, right_y, bottom_x, left_y }
    }

    /// The crossing with the top border as a point of a canvas of the given height.
    pub open spec fn top(&self, height: u32) -> Point {
        Point { x: self.top_x, y: (height - 1) as i32 }
    }

    /// The crossing with the right border as a point of a canvas of the given width.
    pub open spec fn right(&self, width: u32) -> Point {
        Point { x: (width - 1) as i32, y: self.right_y }
    }

    /// The crossing with the bottom border.
    pub open spec fn bottom(&self) -> Point {
        Point { x: self.bottom_x, y: 0 }
    }

    /// The crossing with the left border.
    pub open spec fn left(&self) -> Point {
        Point { x: 0, y: self.left_y }
    }
}

} // verus!
