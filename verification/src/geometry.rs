//! Screen rectangles and the integer arithmetic they need.
//!
//! All coordinates are physical pixels. The desktop spans several monitors, so
//! coordinates may be negative.

use vstd::prelude::*;

verus! {

/// A rectangle by its four edges.
#[derive(Clone, Copy, PartialEq, Eq, Debug, Structural)]
pub struct Rect {
    pub left: i32,
    pub top: i32,
    pub right: i32,
    pub bottom: i32,
}

/// Does the number fit a screen coordinate?
pub open spec fn fits(n: int) -> bool {
    i32::MIN <= n <= i32::MAX
}

/// How far two coordinates are apart.
pub open spec fn distance(a: int, b: int) -> int {
    if a < b {
        b - a
    } else {
        a - b
    }
}

/// The smaller of two integers.
pub open spec fn lesser(a: int, b: int) -> int {
    if a < b {
        a
    } else {
        b
    }
}

/// The larger of two integers.
pub open spec fn greater(a: int, b: int) -> int {
    if a < b {
        b
    } else {
        a
    }
}

/// Division that rounds toward zero.
pub open spec fn quotient(n: int, d: int) -> int
    recommends
        d > 0,
{
    if n >= 0 {
        n / d
    } else {
        -((-n) / d)
    }
}

/// The point halfway between two coordinates, rounded toward zero.
pub open spec fn halfway(a: int, b: int) -> int {
    quotient(a + b, 2)
}

impl Rect {
    /// The horizontal extent; negative for a rectangle turned inside out.
    pub open spec fn spec_width(self) -> int {
        self.right - self.left
    }

    /// The vertical extent; negative for a rectangle turned inside out.
    pub open spec fn spec_height(self) -> int {
        self.bottom - self.top
    }

    /// Do both extents fit a coordinate?
    pub open spec fn measurable(self) -> bool {
        &&& fits(self.spec_width())
        &&& fits(self.spec_height())
    }

    /// Are both extents at least `size`?
    pub open spec fn spans_at_least(self, size: int) -> bool {
        &&& self.spec_width() >= size
        &&& self.spec_height() >= size
    }

    /// Do both extents fit a coordinate?
    pub fn is_measurable(&self) -> (yes: bool)
        ensures
            yes == self.measurable(),
    {
        let width: i64 = self.right as i64 - self.left as i64;
        let height: i64 = self.bottom as i64 - self.top as i64;
        i32::MIN as i64 <= width && width <= i32::MAX as i64 && i32::MIN as i64 <= height && height
            <= i32::MAX as i64
    }

    /// The horizontal extent; negative for a rectangle turned inside out.
    pub fn width(&self) -> (width: i32)
        requires
            fits(self.spec_width()),
        ensures
            width == self.spec_width(),
    {
        self.right - self.left
    }

    /// The vertical extent; negative for a rectangle turned inside out.
    pub fn height(&self) -> (height: i32)
        requires
            fits(self.spec_height()),
        ensures
            height == self.spec_height(),
    {
        self.bottom - self.top
    }

    /// Are both extents at least `size`?
    pub fn at_least(&self, size: i32) -> (large: bool)
        ensures
            large == self.spans_at_least(size as int),
    {
        self.right as i64 - self.left as i64 >= size as i64 && self.bottom as i64 - self.top as i64
            >= size as i64
    }
}

/// The point halfway between `a` and `b`, rounded toward zero. Their sum may
/// exceed a coordinate; the point between them never does.
pub fn midpoint(a: i32, b: i32) -> (mid: i32)
    ensures
        mid == halfway(a as int, b as int),
{
    ((a as i64 + b as i64) / 2) as i32
}

/// Are the coordinates at most `tolerance` apart?
pub fn within(a: i32, b: i32, tolerance: i32) -> (near: bool)
    ensures
        near == (distance(a as int, b as int) <= tolerance),
{
    let apart: i64 = if a < b {
        b as i64 - a as i64
    } else {
        a as i64 - b as i64
    };
    apart <= tolerance as i64
}

/// The smaller coordinate.
pub fn min_of(a: i32, b: i32) -> (least: i32)
    ensures
        least == lesser(a as int, b as int),
{
    if a < b {
        a
    } else {
        b
    }
}

/// The larger coordinate.
pub fn max_of(a: i32, b: i32) -> (most: i32)
    ensures
        most == greater(a as int, b as int),
{
    if a < b {
        b
    } else {
        a
    }
}

} // verus!
