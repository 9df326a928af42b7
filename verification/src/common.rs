//! Shared plain-data types: pixel points, rectangles and facing directions.
//! All pixel coordinates are integers.

use vstd::prelude::*;

verus! {

/// A point in pixel coordinates.
#[derive(Clone, Copy, PartialEq, Eq, Structural, Debug)]
pub struct Point {
    pub x: i64,
    pub y: i64,
}

impl Point {
    /// The origin.
    pub fn zero() -> (r: Point)
        ensures
            r == (Point { x: 0, y: 0 }),
    {
        Point { x: 0, y: 0 }
    }

    /// Builds the point `(x, y)`.
    pub fn new(x: i64, y: i64) -> (r: Point)
        ensures
            r == (Point { x, y }),
    {
        Point { x, y }
    }
}

/// An axis-aligned rectangle in pixel coordinates: top-left corner plus size.
#[derive(Clone, Copy, PartialEq, Eq, Structural, Debug)]
pub struct Rect {
    pub x: i64,
    pub y: i64,
    pub w: i64,
    pub h: i64,
}

impl Rect {
    /// Builds the rectangle with top-left corner `(x, y)` and size `(w, h)`.
    pub fn new(x: i64, y: i64, w: i64, h: i64) -> (r: Rect)
        ensures
            r == (Rect { x, y, w, h }),
    {
        Rect { x, y, w, h }
    }

    /// The x coordinate of the left edge.
    pub fn left(&self) -> (r: i64)
        ensures
            r == self.x,
    {
        self.x
    }

    /// The y coordinate of the top edge.
    pub fn top(&self) -> (r: i64)
        ensures
            r == self.y,
    {
        self.y
    }

    /// The x coordinate of the right edge.
    pub fn right(&self) -> (r: i64)
        requires
            self.x + self.w <= i64::MAX,
            self.x + self.w >= i64::MIN,
        ensures
            r == self.x + self.w,
    {
        self.x + self.w
    }

    /// The y coordinate of the bottom edge.
    pub fn bottom(&self) -> (r: i64)
        requires
            self.y + self.h <= i64::MAX,
            self.y + self.h >= i64::MIN,
        ensures
            r == self.y + self.h,
    {
        self.y + self.h
    }
}

/// Which way a character is facing.
#[derive(Clone, Copy, PartialEq, Eq, Structural, Debug)]
pub enum Facing {
    Up,
    Down,
    Left,
    Right,
}

} // verus!
