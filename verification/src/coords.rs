//! A pair of like-typed coordinates, generic in the coordinate type.

use vstd::prelude::*;

verus! {

/// A pair of coordinates of one type.
pub struct Point<T> {
    pub x: T,
    pub y: T,
}

impl<T> Point<T> {
    /// The first coordinate.
    pub fn x(&self) -> (r: &T)
        ensures
            *r == self.x,
    {
        &self.x
    }

    /// Rebuilds a point of another coordinate type from its parts.
    pub fn change_type<U>(p_u: Point<U>) -> (r: Point<U>)
        ensures
            r.x == p_u.x,
            r.y == p_u.y,
    {
        Point { x: p_u.x, y: p_u.y }
    }
}

impl Point<i32> {
    /// The sum of the two coordinates.
    pub fn sum(&self) -> (r: i32)
        requires
            i32::MIN <= self.x + self.y <= i32::MAX,
        ensures
            r == self.x + self.y,
    {
        self.x + self.y
    }
}

} // verus!
