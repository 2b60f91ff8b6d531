//! Points on the integer plane and the squared distance between them. The
//! distance itself is the square root of what is computed here; taking the
//! root is left to callers, since it leaves the integers.

use vstd::prelude::*;

verus! {

/// A point on the plane. Points with both coordinates negative are not
/// admitted by [`Point::new`].
#[derive(Clone, Copy, Debug, PartialEq, Eq, Structural)]
pub struct Point {
    pub x: i32,
    pub y: i32,
}

/// The square of the distance between two points.
pub open spec fn dist_sq(p: Point, q: Point) -> int {
    (p.x - q.x) * (p.x - q.x) + (p.y - q.y) * (p.y - q.y)
}

impl Point {
    /// A point from its coordinates; a point with both coordinates
    /// negative is a caller error and is not accepted.
    pub fn new(x: i32, y: i32) -> (p: Point)
        requires
            !(x < 0 && y < 0),
        ensures
            p.x == x,
            p.y == y,
    {
        Point { x, y }
    }

    /// The square of the distance to `p`.
    pub fn dist_squared(&self, p: &Point) -> (d: u128)
        ensures
            d == dist_sq(*self, *p),
    {
        let dx: i128 = self.x as i128 - p.x as i128;
        let dy: i128 = self.y as i128 - p.y as i128;
        proof {
            assert(dx * dx >= 0 && dx * dx < 0x10000000000000000i128) by (nonlinear_arith)
                requires
                    -0x100000000i128 < dx < 0x100000000i128,
            ;
            assert(dy * dy >= 0 && dy * dy < 0x10000000000000000i128) by (nonlinear_arith)
                requires
                    -0x100000000i128 < dy < 0x100000000i128,
            ;
        }
        let sq: i128 = dx * dx + dy * dy;
        sq as u128
    }
}

} // verus!
