//! Window-resize geometry: where the drag handles sit and what moving one does.
//!
//! Nothing here touches a window; the caller supplies a rectangle and applies
//! the one it gets back.

use vstd::prelude::*;

use crate::geometry::{fits, halfway, midpoint, Rect};

verus! {

/// Smallest window width that a resize leaves (physical pixels).
pub const MIN_WIDTH: i32 = 200;

/// Smallest window height that a resize leaves (physical pixels).
pub const MIN_HEIGHT: i32 = 120;

/// One of the eight drag handles: four corners and four edge midpoints.
#[derive(Clone, Copy, PartialEq, Eq, Debug, Structural)]
pub enum Handle {
    TopLeft,
    Top,
    TopRight,
    Right,
    BottomRight,
    Bottom,
    BottomLeft,
    Left,
}

impl Handle {
    /// The position of the handle in the stable order that labels follow:
    /// clockwise from the top-left corner.
    pub open spec fn index(self) -> int {
        match self {
            Handle::TopLeft => 0,
            Handle::Top => 1,
            Handle::TopRight => 2,
            Handle::Right => 3,
            Handle::BottomRight => 4,
            Handle::Bottom => 5,
            Handle::BottomLeft => 6,
            Handle::Left => 7,
        }
    }

    /// Does the handle sit on the left edge?
    pub open spec fn on_left(self) -> bool {
        self is TopLeft || self is BottomLeft || self is Left
    }

    /// Does the handle sit on the top edge?
    pub open spec fn on_top(self) -> bool {
        self is TopLeft || self is Top || self is TopRight
    }

    /// Does the handle sit on the right edge?
    pub open spec fn on_right(self) -> bool {
        self is TopRight || self is Right || self is BottomRight
    }

    /// Does the handle sit on the bottom edge?
    pub open spec fn on_bottom(self) -> bool {
        self is BottomRight || self is Bottom || self is BottomLeft
    }

    /// All eight handles in a stable order: labels `a` to `h` are given out by
    /// index, so this order must not change.
    pub fn all() -> (handles: [Handle; 8])
        ensures
            handles@.len() == 8,
            forall|h: Handle| #![trigger h.index()] handles@[h.index()] == h,
            forall|i: int| 0 <= i < 8 ==> (#[trigger] handles@[i]).index() == i,
    {
        [
            Handle::TopLeft,
            Handle::Top,
            Handle::TopRight,
            Handle::Right,
            Handle::BottomRight,
            Handle::Bottom,
            Handle::BottomLeft,
            Handle::Left,
        ]
    }

    /// Which edges this handle moves, as `(left, top, right, bottom)`. A corner
    /// moves two edges, an edge midpoint one; the opposite edges stay put.
    pub fn edges(self) -> (moved: (bool, bool, bool, bool))
        ensures
            moved == (self.on_left(), self.on_top(), self.on_right(), self.on_bottom()),
    {
        match self {
            Handle::TopLeft => (true, true, false, false),
            Handle::Top => (false, true, false, false),
            Handle::TopRight => (false, true, true, false),
            Handle::Right => (false, false, true, false),
            Handle::BottomRight => (false, false, true, true),
            Handle::Bottom => (false, false, false, true),
            Handle::BottomLeft => (true, false, false, true),
            Handle::Left => (true, false, false, false),
        }
    }
}

/// The x coordinate of a handle on `r`: its edge, or the center of the top and
/// bottom edges.
pub open spec fn handle_x(r: Rect, handle: Handle) -> int {
    if handle.on_left() {
        r.left as int
    } else if handle.on_right() {
        r.right as int
    } else {
        halfway(r.left as int, r.right as int)
    }
}

/// The y coordinate of a handle on `r`: its edge, or the center of the left and
/// right edges.
pub open spec fn handle_y(r: Rect, handle: Handle) -> int {
    if handle.on_top() {
        r.top as int
    } else if handle.on_bottom() {
        r.bottom as int
    } else {
        halfway(r.top as int, r.bottom as int)
    }
}

/// Screen position `(x, y)` of each handle of `r`, paired with the handle, in
/// the order of [`Handle::all`].
pub fn handle_positions(r: Rect) -> (positions: [(Handle, i32, i32); 8])
    ensures
        positions@.len() == 8,
        forall|i: int|
            0 <= i < 8 ==> {
                let (handle, x, y) = #[trigger] positions@[i];
                &&& handle.index() == i
                &&& x == handle_x(r, handle)
                &&& y == handle_y(r, handle)
            },
{
    let cx: i32 = midpoint(r.left, r.right);
    let cy: i32 = midpoint(r.top, r.bottom);
    [
        (Handle::TopLeft, r.left, r.top),
        (Handle::Top, cx, r.top),
        (Handle::TopRight, r.right, r.top),
        (Handle::Right, r.right, cy),
        (Handle::BottomRight, r.right, r.bottom),
        (Handle::Bottom, cx, r.bottom),
        (Handle::BottomLeft, r.left, r.bottom),
        (Handle::Left, r.left, cy),
    ]
}

/// Where the two edges of one axis end up when `low` or `high` (not both) moves
/// by `delta`: a moved edge that comes closer than `min` to the fixed one is
/// pushed back to exactly `min` from it.
pub open spec fn moved_axis(
    low: int,
    high: int,
    move_low: bool,
    move_high: bool,
    delta: int,
    min: int,
) -> (int, int) {
    if move_low {
        (
            if high - (low + delta) < min {
                high - min
            } else {
                low + delta
            },
            high,
        )
    } else if move_high {
        (
            low,
            if high + delta - low < min {
                low + min
            } else {
                high + delta
            },
        )
    } else {
        (low, high)
    }
}

/// The horizontal edges `(left, right)` after the move.
pub open spec fn moved_x(r: Rect, handle: Handle, dx: int, min_w: int) -> (int, int) {
    moved_axis(r.left as int, r.right as int, handle.on_left(), handle.on_right(), dx, min_w)
}

/// The vertical edges `(top, bottom)` after the move.
pub open spec fn moved_y(r: Rect, handle: Handle, dy: int, min_h: int) -> (int, int) {
    moved_axis(r.top as int, r.bottom as int, handle.on_top(), handle.on_bottom(), dy, min_h)
}

/// Do all four edges after the move still fit a coordinate?
pub open spec fn move_fits(
    r: Rect,
    handle: Handle,
    dx: int,
    dy: int,
    min_w: int,
    min_h: int,
) -> bool {
    let (left, right) = moved_x(r, handle, dx, min_w);
    let (top, bottom) = moved_y(r, handle, dy, min_h);
    fits(left) && fits(right) && fits(top) && fits(bottom)
}

/// The rectangle after the move. Its edges are meant to fit.
pub open spec fn moved(r: Rect, handle: Handle, dx: int, dy: int, min_w: int, min_h: int) -> Rect {
    let (left, right) = moved_x(r, handle, dx, min_w);
    let (top, bottom) = moved_y(r, handle, dy, min_h);
    Rect { left: left as i32, top: top as i32, right: right as i32, bottom: bottom as i32 }
}

/// One axis of a move, in 64 bits.
fn move_axis(low: i32, high: i32, move_low: bool, move_high: bool, delta: i32, min: i32) -> (edges: (
    i64,
    i64,
))
    ensures
        (edges.0 as int, edges.1 as int) == moved_axis(
            low as int,
            high as int,
            move_low,
            move_high,
            delta as int,
            min as int,
        ),
{
    let mut low: i64 = low as i64;
    let mut high: i64 = high as i64;
    if move_low {
        low = low + delta as i64;
        if high - low < min as i64 {
            low = high - min as i64;
        }
    } else if move_high {
        high = high + delta as i64;
        if high - low < min as i64 {
            high = low + min as i64;
        }
    }
    (low, high)
}

/// Does the number fit a screen coordinate?
fn is_coordinate(n: i64) -> (yes: bool)
    ensures
        yes == fits(n as int),
{
    i32::MIN as i64 <= n && n <= i32::MAX as i64
}

/// Do all four edges after the move still fit a coordinate?
pub fn can_move(r: Rect, handle: Handle, dx: i32, dy: i32, min_w: i32, min_h: i32) -> (yes: bool)
    ensures
        yes == move_fits(r, handle, dx as int, dy as int, min_w as int, min_h as int),
{
    let (ml, mt, mr, mb) = handle.edges();
    let (left, right) = move_axis(r.left, r.right, ml, mr, dx, min_w);
    let (top, bottom) = move_axis(r.top, r.bottom, mt, mb, dy, min_h);
    is_coordinate(left) && is_coordinate(right) && is_coordinate(top) && is_coordinate(bottom)
}

/// Move `handle`'s edge(s) by `(dx, dy)`, clamped so that the rectangle does not
/// shrink below `(min_w, min_h)`. The opposite (fixed) edges stay in place; a
/// moved edge that would cross the minimum is pushed back to exactly the minimum.
pub fn apply_handle_move(r: Rect, handle: Handle, dx: i32, dy: i32, min_w: i32, min_h: i32) -> (out:
    Rect)
    requires
        move_fits(r, handle, dx as int, dy as int, min_w as int, min_h as int),
    ensures
        out == moved(r, handle, dx as int, dy as int, min_w as int, min_h as int),
        (out.left as int, out.right as int) == moved_x(r, handle, dx as int, min_w as int),
        (out.top as int, out.bottom as int) == moved_y(r, handle, dy as int, min_h as int),
{
    let (ml, mt, mr, mb) = handle.edges();
    let (left, right) = move_axis(r.left, r.right, ml, mr, dx, min_w);
    let (top, bottom) = move_axis(r.top, r.bottom, mt, mb, dy, min_h);
    Rect { left: left as i32, top: top as i32, right: right as i32, bottom: bottom as i32 }
}

} // verus!
