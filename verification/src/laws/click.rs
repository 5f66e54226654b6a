//! Laws of simulated mouse input.

use vstd::prelude::*;

use crate::click::{
    absolute, button_inputs, click_inputs, drag_events, drag_inputs, input_for, lemma_waypoint_between,
    steps_between, waypoint, MouseEvent, VirtualScreen, MAX_SUBSTEPS,
};
use crate::laws::geometry::law_quotient_cuts_toward_zero;

verus! {

/// A coordinate on the desktop becomes one of 0 to 65535, its first pixel 0 and
/// its last pixel 65535.
pub proof fn law_desktop_points_are_in_range(p: int, origin: int, extent: int)
    requires
        origin <= p < origin + extent,
    ensures
        0 <= absolute(p, origin, extent) <= 65535,
        absolute(origin, origin, extent) == 0,
        extent > 1 ==> absolute(origin + extent - 1, origin, extent) == 65535,
{
    let span = if extent - 1 < 1 {
        1
    } else {
        extent - 1
    };
    let n = (p - origin) * 65535;
    assert(0 <= n <= 65535 * span);
    assert(0 <= n / span <= 65535) by (nonlinear_arith)
        requires
            0 <= n <= 65535 * span,
            span >= 1,
    ;
    assert(0int / span == 0) by (nonlinear_arith)
        requires
            span >= 1,
    ;
    if extent > 1 {
        assert(((extent - 1) * 65535) / (extent - 1) == 65535) by (nonlinear_arith)
            requires
                extent > 1,
        ;
    }
}

/// Absolute positions keep the order of points.
pub proof fn law_absolute_positions_keep_order(p: int, q: int, origin: int, extent: int)
    requires
        origin <= p <= q,
    ensures
        absolute(p, origin, extent) <= absolute(q, origin, extent),
{
    let span = if extent - 1 < 1 {
        1
    } else {
        extent - 1
    };
    assert(((p - origin) * 65535) / span <= ((q - origin) * 65535) / span) by (nonlinear_arith)
        requires
            0 <= (p - origin) * 65535 <= (q - origin) * 65535,
            span >= 1,
    ;
}

/// A click presses one button once and releases it, at one point.
pub proof fn law_click_releases_its_button(point: (int, int), down: MouseEvent, up: MouseEvent, screen: VirtualScreen)
    ensures
        click_inputs(point, down, up, screen).len() == 3,
        click_inputs(point, down, up, screen)[0] == input_for(point, MouseEvent::Move, screen),
        click_inputs(point, down, up, screen)[1] == input_for(point, down, screen),
        click_inputs(point, down, up, screen)[2] == input_for(point, up, screen),
{
}

/// A drag is complete in itself: it moves to the start, presses the left button
/// there, only moves, and at the end releases the button at its goal. No button
/// stays held.
pub proof fn law_drag_releases_its_button(from: (int, int), to: (int, int))
    ensures
        ({
            let events = drag_events(from, to);
            let last = events.len() - 1;
            &&& events.len() == steps_between(from, to) + 3
            &&& 4 <= events.len() <= MAX_SUBSTEPS + 3
            &&& events[0] == (from, MouseEvent::Move)
            &&& events[1] == (from, MouseEvent::LeftDown)
            &&& events[last - 1] == (to, MouseEvent::Move)
            &&& events[last] == (to, MouseEvent::LeftUp)
            &&& forall|k: int| 2 <= k < last ==> (#[trigger] events[k]).1 == MouseEvent::Move
        }),
{
}

/// The moves of a drag stay between its two ends.
pub proof fn law_drag_stays_on_its_way(from: (int, int), to: (int, int), s: int)
    requires
        0 <= s <= steps_between(from, to),
    ensures
        ({
            let (x, y) = waypoint(from, to, s, steps_between(from, to));
            &&& from.0 <= to.0 ==> from.0 <= x <= to.0
            &&& to.0 <= from.0 ==> to.0 <= x <= from.0
            &&& from.1 <= to.1 ==> from.1 <= y <= to.1
            &&& to.1 <= from.1 ==> to.1 <= y <= from.1
        }),
{
    let steps = steps_between(from, to);
    lemma_waypoint_between(from.0, to.0, s, steps);
    lemma_waypoint_between(from.1, to.1, s, steps);
}

// ---------------------------------------------------------------------------
// Pixels and units
// ---------------------------------------------------------------------------

/// A point `offset` pixels from the beginning of an axis of `extent` pixels lies at that
/// share of 65535 units, of which the last pixel has all, cut off to a whole unit.
pub proof fn law_pixels_are_scaled(origin: int, offset: int, extent: int)
    requires
        offset >= 0,
        extent >= 2,
    ensures
        ({
            let units = absolute(origin + offset, origin, extent);
            units * (extent - 1) <= offset * 65535 < (units + 1) * (extent - 1)
        }),
        ({
            let units = absolute(origin - offset, origin, extent);
            units == -absolute(origin + offset, origin, extent)
        }),
{
    let n = offset * 65535;
    law_quotient_cuts_toward_zero(n, extent - 1);
    let units = absolute(origin + offset, origin, extent);
    assert((units + 1) * (extent - 1) == units * (extent - 1) + (extent - 1)) by (nonlinear_arith);
    assert((origin - offset - origin) * 65535 == -n);
    if n == 0 {
        assert(0int / (extent - 1) == 0) by (nonlinear_arith)
            requires
                extent >= 2,
        ;
    }
}

/// The inputs of a click or a drag are scaled across by the desktop's left edge and width,
/// and down by its top edge and height.
pub proof fn law_inputs_are_scaled_by_the_desktop(
    x: int,
    y: int,
    event: MouseEvent,
    screen: VirtualScreen,
)
    requires
        screen.x <= x < screen.x + screen.width,
        screen.y <= y < screen.y + screen.height,
        screen.width >= 2 && screen.height >= 2,
    ensures
        ({
            let input = input_for((x, y), event, screen);
            &&& input.event == event
            &&& input.dx * (screen.width - 1) <= (x - screen.x) * 65535 < (input.dx + 1) * (
            screen.width - 1)
            &&& input.dy * (screen.height - 1) <= (y - screen.y) * 65535 < (input.dy + 1) * (
            screen.height - 1)
        }),
{
    law_desktop_points_are_in_range(x, screen.x as int, screen.width as int);
    law_desktop_points_are_in_range(y, screen.y as int, screen.height as int);
    law_pixels_are_scaled(screen.x as int, x - screen.x, screen.width as int);
    law_pixels_are_scaled(screen.y as int, y - screen.y, screen.height as int);
}

/// A click is three inputs at one place: a move there, the press, the release.
pub proof fn law_click_stays_in_place(
    point: (int, int),
    down: MouseEvent,
    up: MouseEvent,
    screen: VirtualScreen,
    k: int,
)
    requires
        0 <= k < 3,
    ensures
        ({
            let inputs = click_inputs(point, down, up, screen);
            &&& inputs.len() == 3
            &&& inputs[0].event is Move && inputs[1].event == down && inputs[2].event == up
            &&& inputs[k].dx == input_for(point, MouseEvent::Move, screen).dx
            &&& inputs[k].dy == input_for(point, MouseEvent::Move, screen).dy
        }),
{
}

/// A drag moves to its start and presses there; it ends with a move to its goal and the
/// release. On the way it makes one move for every 4 whole pixels of the longer axis, the
/// last one included, at least 1 and at most 8.
pub proof fn law_drags_press_move_and_release(
    from: (int, int),
    to: (int, int),
    screen: VirtualScreen,
    longer: int,
)
    requires
        -longer <= to.0 - from.0 <= longer && -longer <= to.1 - from.1 <= longer,
        longer == to.0 - from.0 || longer == from.0 - to.0 || longer == to.1 - from.1 || longer
            == from.1 - to.1,
    ensures
        ({
            let inputs = drag_inputs(from, to, screen);
            let moves = inputs.len() - 3;
            let last = inputs.len() - 1;
            &&& longer < 8 ==> moves == 1
            &&& longer >= 32 ==> moves == 8
            &&& 4 <= longer <= 32 ==> 4 * moves <= longer < 4 * moves + 4
            &&& inputs[0] == input_for(from, MouseEvent::Move, screen)
            &&& inputs[1] == input_for(from, MouseEvent::LeftDown, screen)
            &&& inputs[last - 1] == input_for(to, MouseEvent::Move, screen)
            &&& inputs[last] == input_for(to, MouseEvent::LeftUp, screen)
            &&& forall|k: int| 2 <= k < last ==> (#[trigger] inputs[k]).event is Move
        }),
{
    let events = drag_events(from, to);
    let inputs = drag_inputs(from, to, screen);
    law_drag_releases_its_button(from, to);
    assert(inputs.len() == events.len());
    assert forall|k: int| 2 <= k < inputs.len() - 1 implies (#[trigger] inputs[k]).event is Move by {
        assert(events[k].1 is Move);
    }
}

/// The moves of a drag are spread evenly: move `s` of `n` has gone that share of the way
/// on each axis, cut off to a whole pixel.
pub proof fn law_drags_go_evenly(from: (int, int), to: (int, int), screen: VirtualScreen, s: int)
    requires
        0 < s < drag_inputs(from, to, screen).len() - 3,
    ensures
        ({
            let n = drag_inputs(from, to, screen).len() - 3;
            let (x, y) = waypoint(from, to, s, n);
            &&& drag_inputs(from, to, screen)[s + 1] == input_for((x, y), MouseEvent::Move, screen)
            &&& -n < (x - from.0) * n - (to.0 - from.0) * s < n
            &&& -n < (y - from.1) * n - (to.1 - from.1) * s < n
        }),
{
    let events = drag_events(from, to);
    let n = drag_inputs(from, to, screen).len() - 3;
    law_drag_releases_its_button(from, to);
    assert(n == steps_between(from, to));
    assert(events[s + 1] == (waypoint(from, to, s, n), MouseEvent::Move));
    let (x, y) = waypoint(from, to, s, n);
    law_quotient_cuts_toward_zero((to.0 - from.0) * s, n);
    law_quotient_cuts_toward_zero((to.1 - from.1) * s, n);
}

/// A click presses and releases one button: the right one or the left one, as was asked.
pub proof fn law_clicks_use_the_button_asked_for(
    point: (int, int),
    right: bool,
    screen: VirtualScreen,
)
    ensures
        ({
            let inputs = button_inputs(point, right, screen);
            &&& inputs.len() == 3
            &&& inputs[0].event is Move
            &&& right ==> inputs[1].event is RightDown && inputs[2].event is RightUp
            &&& !right ==> inputs[1].event is LeftDown && inputs[2].event is LeftUp
            &&& inputs[1] == input_for(point, inputs[1].event, screen)
            &&& inputs[2] == input_for(point, inputs[2].event, screen)
            &&& inputs[0] == input_for(point, MouseEvent::Move, screen)
        }),
{
}

} // verus!
