use vstd::prelude::*;
use crate::point::Point;

verus! {

/// A directed pair of endpoints.
#[derive(Clone, Copy, Debug, PartialEq, Eq, Structural)]
pub struct Segment {
    pub a: Point,
    pub b: Point,
}

pub open spec fn min_int(a: int, b: int) -> int {
    if a <= b { a } else { b }
}

pub open spec fn max_int(a: int, b: int) -> int {
    if a >= b { a } else { b }
}

impl Segment {
    pub fn new(a: Point, b: Point) -> (s: Segment)
        ensures
            s.a == a,
            s.b == b,
    {
        Segment { a, b }
    }

    /// Least x among the two endpoints.
    pub open spec fn min_x(&self) -> int {
        min_int(self.a.x as int, self.b.x as int)
    }

    /// Greatest x among the two endpoints.
    pub open spec fn max_x(&self) -> int {
        max_int(self.a.x as int, self.b.x as int)
    }

    /// Least y among the two endpoints.
    pub open spec fn min_y(&self) -> int {
        min_int(self.a.y as int, self.b.y as int)
    }

    /// Greatest y among the two endpoints.
    pub open spec fn max_y(&self) -> int {
        max_int(self.a.y as int, self.b.y as int)
    }

    /// Membership in the axis-aligned bounding box of the endpoints, borders included.
    pub open spec fn spans(&self, point: Point) -> bool {
        &&& self.min_x() <= point.x <= self.max_x()
        &&& self.min_y() <= point.y <= self.max_y()
    }

    pub fn is_point_within(&self, point: &Point) -> (within: bool)
        ensures
            within == self.spans(*point),
    {
        let min_x: i32 = if self.a.x <= self.b.x { self.a.x } else { self.b.x };
        let max_x: i32 = if self.a.x >= self.b.x { self.a.x } else { self.b.x };
        if point.x < min_x || point.x > max_x {
            return false;
        }
        let min_y: i32 = if self.a.y <= self.b.y { self.a.y } else { self.b.y };
        let max_y: i32 = if self.a.y >= self.b.y { self.a.y } else { self.b.y };
        if point.y < min_y || point.y > max_y {
            return false;
        }
        true
    }
}

} // verus!
