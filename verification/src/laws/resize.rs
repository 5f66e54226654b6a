//! Laws of window resizing.

use vstd::prelude::*;

use crate::geometry::Rect;
use crate::resize::{handle_x, handle_y, move_fits, moved, moved_x, moved_y, Handle};

verus! {

/// A handle on the left never moves the right edge and the other way round, and
/// likewise for top and bottom: the opposite edges stay in place.
pub proof fn law_opposite_edges_stay(r: Rect, handle: Handle, dx: int, dy: int, min_w: int, min_h: int)
    ensures
        !handle.on_left() ==> moved_x(r, handle, dx, min_w).0 == r.left,
        !handle.on_right() ==> moved_x(r, handle, dx, min_w).1 == r.right,
        !handle.on_top() ==> moved_y(r, handle, dy, min_h).0 == r.top,
        !handle.on_bottom() ==> moved_y(r, handle, dy, min_h).1 == r.bottom,
        !(handle.on_left() && handle.on_right()),
        !(handle.on_top() && handle.on_bottom()),
{
}

/// A move never takes the rectangle below the minimum size: along an axis that
/// the handle moves, it ends at least as large as the minimum; along the other it
/// keeps its size.
pub proof fn law_move_respects_the_minimum(
    r: Rect,
    handle: Handle,
    dx: int,
    dy: int,
    min_w: int,
    min_h: int,
)
    ensures
        ({
            let (left, right) = moved_x(r, handle, dx, min_w);
            if handle.on_left() || handle.on_right() {
                right - left >= min_w
            } else {
                right - left == r.spec_width()
            }
        }),
        ({
            let (top, bottom) = moved_y(r, handle, dy, min_h);
            if handle.on_top() || handle.on_bottom() {
                bottom - top >= min_h
            } else {
                bottom - top == r.spec_height()
            }
        }),
{
}

/// Unless a move is held back by the minimum size, moving back by the same
/// distance restores the rectangle.
pub proof fn law_move_back_restores(
    r: Rect,
    handle: Handle,
    dx: int,
    dy: int,
    min_w: int,
    min_h: int,
)
    requires
        move_fits(r, handle, dx, dy, min_w, min_h),
        handle.on_left() ==> min_w <= r.spec_width() && min_w <= r.spec_width() - dx,
        handle.on_right() ==> min_w <= r.spec_width() && min_w <= r.spec_width() + dx,
        handle.on_top() ==> min_h <= r.spec_height() && min_h <= r.spec_height() - dy,
        handle.on_bottom() ==> min_h <= r.spec_height() && min_h <= r.spec_height() + dy,
    ensures
        moved(moved(r, handle, dx, dy, min_w, min_h), handle, -dx, -dy, min_w, min_h) == r,
{
}

/// Every handle lies on the rectangle's outline.
pub proof fn law_handles_lie_on_the_outline(r: Rect, handle: Handle)
    requires
        r.left <= r.right,
        r.top <= r.bottom,
    ensures
        r.left <= handle_x(r, handle) <= r.right,
        r.top <= handle_y(r, handle) <= r.bottom,
        handle_x(r, handle) == r.left || handle_x(r, handle) == r.right || handle_y(r, handle)
            == r.top || handle_y(r, handle) == r.bottom,
{
}

/// The eight handles have eight different places in the order.
pub proof fn law_handles_are_distinct(a: Handle, b: Handle)
    ensures
        a.index() == b.index() ==> a == b,
        0 <= a.index() < 8,
{
}

// ---------------------------------------------------------------------------
// Edge by edge
// ---------------------------------------------------------------------------

/// The three handles of a side move that side's edge by the horizontal distance: as far
/// as is asked, where that leaves the minimum width, and else to exactly the minimum.
/// The other side's edge stays; the two handles in the middle move neither.
pub proof fn law_side_handles_move_their_side(
    r: Rect,
    handle: Handle,
    dx: int,
    dy: int,
    min_w: int,
    min_h: int,
)
    requires
        move_fits(r, handle, dx, dy, min_w, min_h),
    ensures
        ({
            let after = moved(r, handle, dx, dy, min_w, min_h);
            match handle {
                Handle::TopLeft | Handle::Left | Handle::BottomLeft => {
                    &&& after.right == r.right
                    &&& r.right - r.left - dx >= min_w ==> after.left == r.left + dx
                    &&& r.right - r.left - dx < min_w ==> after.right - after.left == min_w
                },
                Handle::TopRight | Handle::Right | Handle::BottomRight => {
                    &&& after.left == r.left
                    &&& r.right - r.left + dx >= min_w ==> after.right == r.right + dx
                    &&& r.right - r.left + dx < min_w ==> after.right - after.left == min_w
                },
                Handle::Top | Handle::Bottom => after.left == r.left && after.right == r.right,
            }
        }),
{
}

/// The three handles of the top or the bottom move that edge by the vertical distance: as
/// far as is asked, where that leaves the minimum height, and else to exactly the minimum.
/// The opposite edge stays; the two handles in the middle of the sides move neither.
pub proof fn law_top_and_bottom_handles_move_their_edge(
    r: Rect,
    handle: Handle,
    dx: int,
    dy: int,
    min_w: int,
    min_h: int,
)
    requires
        move_fits(r, handle, dx, dy, min_w, min_h),
    ensures
        ({
            let after = moved(r, handle, dx, dy, min_w, min_h);
            match handle {
                Handle::TopLeft | Handle::Top | Handle::TopRight => {
                    &&& after.bottom == r.bottom
                    &&& r.bottom - r.top - dy >= min_h ==> after.top == r.top + dy
                    &&& r.bottom - r.top - dy < min_h ==> after.bottom - after.top == min_h
                },
                Handle::BottomLeft | Handle::Bottom | Handle::BottomRight => {
                    &&& after.top == r.top
                    &&& r.bottom - r.top + dy >= min_h ==> after.bottom == r.bottom + dy
                    &&& r.bottom - r.top + dy < min_h ==> after.bottom - after.top == min_h
                },
                Handle::Left | Handle::Right => after.top == r.top && after.bottom == r.bottom,
            }
        }),
{
}

/// A move fits whenever rectangle, distance and minimum stay within a quarter of the range
/// of coordinates.
pub proof fn law_ordinary_moves_fit(
    r: Rect,
    handle: Handle,
    dx: int,
    dy: int,
    min_w: int,
    min_h: int,
)
    requires
        -0x4000_0000 <= r.left <= 0x3FFF_FFFF && -0x4000_0000 <= r.right <= 0x3FFF_FFFF,
        -0x4000_0000 <= r.top <= 0x3FFF_FFFF && -0x4000_0000 <= r.bottom <= 0x3FFF_FFFF,
        -0x4000_0000 <= dx <= 0x3FFF_FFFF && -0x4000_0000 <= dy <= 0x3FFF_FFFF,
        -0x4000_0000 <= min_w <= 0x3FFF_FFFF && -0x4000_0000 <= min_h <= 0x3FFF_FFFF,
    ensures
        move_fits(r, handle, dx, dy, min_w, min_h),
{
}

/// Each handle lies on the edges that it is named after, and a handle that names one edge
/// only lies in the middle of it.
pub proof fn law_handles_lie_where_they_are_named(r: Rect, handle: Handle)
    ensures
        ({
            let x = handle_x(r, handle);
            let y = handle_y(r, handle);
            let middle_x = x == (r.left + r.right) / 2 || (r.left + r.right < 0 && 2 * x - 1
                == r.left + r.right);
            let middle_y = y == (r.top + r.bottom) / 2 || (r.top + r.bottom < 0 && 2 * y - 1
                == r.top + r.bottom);
            match handle {
                Handle::TopLeft => x == r.left && y == r.top,
                Handle::Top => middle_x && y == r.top,
                Handle::TopRight => x == r.right && y == r.top,
                Handle::Right => x == r.right && middle_y,
                Handle::BottomRight => x == r.right && y == r.bottom,
                Handle::Bottom => middle_x && y == r.bottom,
                Handle::BottomLeft => x == r.left && y == r.bottom,
                Handle::Left => x == r.left && middle_y,
            }
        }),
{
}

/// The handles are counted clockwise from the top left corner.
pub proof fn law_handles_are_counted_clockwise(handle: Handle)
    ensures
        handle.index() == (match handle {
            Handle::TopLeft => 0int,
            Handle::Top => 1,
            Handle::TopRight => 2,
            Handle::Right => 3,
            Handle::BottomRight => 4,
            Handle::Bottom => 5,
            Handle::BottomLeft => 6,
            Handle::Left => 7,
        }),
{
}

/// A handle moves the edges that it is named after and no others.
pub proof fn law_handles_move_the_edges_they_name(handle: Handle)
    ensures
        handle.on_left() <==> handle is TopLeft || handle is Left || handle is BottomLeft,
        handle.on_right() <==> handle is TopRight || handle is Right || handle is BottomRight,
        handle.on_top() <==> handle is TopLeft || handle is Top || handle is TopRight,
        handle.on_bottom() <==> handle is BottomLeft || handle is Bottom || handle is BottomRight,
{
}

} // verus!
