//! Simulated mouse input.
//!
//! Mouse positions are handed to the system in absolute units: 0 to 65535 across
//! the whole virtual desktop, all monitors together.

use vstd::prelude::*;

use crate::geometry::{distance, greater, quotient};

verus! {

/// Most moves from press to release of a drag.
pub const MAX_SUBSTEPS: i32 = 8;

/// Distance (pixels) between the moves of a drag.
pub const SUBSTEP_PX: i32 = 4;

/// The virtual desktop in physical pixels.
#[derive(Clone, Copy, PartialEq, Eq, Debug, Structural)]
pub struct VirtualScreen {
    pub x: i32,
    pub y: i32,
    pub width: i32,
    pub height: i32,
}

/// What the mouse does.
#[derive(Clone, Copy, PartialEq, Eq, Debug, Structural)]
pub enum MouseEvent {
    Move,
    LeftDown,
    LeftUp,
    RightDown,
    RightUp,
}

/// One mouse input at an absolute position.
#[derive(Clone, Copy, PartialEq, Eq, Debug, Structural)]
pub struct MouseInput {
    pub dx: i32,
    pub dy: i32,
    pub event: MouseEvent,
}

/// A coordinate in absolute units along an axis that begins at `origin` and has
/// `extent` pixels; the last pixel is 65535.
pub open spec fn absolute(p: int, origin: int, extent: int) -> int {
    quotient((p - origin) * 65535, greater(greater(extent, 1) - 1, 1))
}

/// A mouse input at a point of the virtual desktop.
pub open spec fn input_for(point: (int, int), event: MouseEvent, screen: VirtualScreen) -> MouseInput {
    MouseInput {
        dx: absolute(point.0, screen.x as int, screen.width as int) as i32,
        dy: absolute(point.1, screen.y as int, screen.height as int) as i32,
        event,
    }
}

/// Move to a point and press and release a button there.
pub open spec fn click_inputs(
    point: (int, int),
    down: MouseEvent,
    up: MouseEvent,
    screen: VirtualScreen,
) -> Seq<MouseInput> {
    seq![
        input_for(point, MouseEvent::Move, screen),
        input_for(point, down, screen),
        input_for(point, up, screen),
    ]
}

/// A click with the right or the left button.
pub open spec fn button_inputs(point: (int, int), right: bool, screen: VirtualScreen) -> Seq<
    MouseInput,
> {
    if right {
        click_inputs(point, MouseEvent::RightDown, MouseEvent::RightUp, screen)
    } else {
        click_inputs(point, MouseEvent::LeftDown, MouseEvent::LeftUp, screen)
    }
}

/// The moves of a drag over a distance.
pub open spec fn drag_steps(dist: int) -> int {
    let steps = dist / (SUBSTEP_PX as int);
    if steps < 1 {
        1
    } else if steps > MAX_SUBSTEPS {
        MAX_SUBSTEPS as int
    } else {
        steps
    }
}

/// The moves of a drag between two points: it goes by the longer axis.
pub open spec fn steps_between(from: (int, int), to: (int, int)) -> int {
    drag_steps(greater(distance(from.0, to.0), distance(from.1, to.1)))
}

/// Point number `s` of `steps` on the way from one point to another.
pub open spec fn waypoint(from: (int, int), to: (int, int), s: int, steps: int) -> (int, int) {
    (
        from.0 + quotient((to.0 - from.0) * s, steps),
        from.1 + quotient((to.1 - from.1) * s, steps),
    )
}

/// The points and events of a drag: press, intermediate moves, release.
pub open spec fn drag_events(from: (int, int), to: (int, int)) -> Seq<((int, int), MouseEvent)> {
    let steps = steps_between(from, to);
    seq![(from, MouseEvent::Move), (from, MouseEvent::LeftDown)] + Seq::new(
        (steps - 1) as nat,
        |k: int| (waypoint(from, to, k + 1, steps), MouseEvent::Move),
    ) + seq![(to, MouseEvent::Move), (to, MouseEvent::LeftUp)]
}

/// The inputs of a drag.
pub open spec fn drag_inputs(from: (int, int), to: (int, int), screen: VirtualScreen) -> Seq<
    MouseInput,
> {
    drag_events(from, to).map_values(|e: ((int, int), MouseEvent)| input_for(e.0, e.1, screen))
}

/// One axis of [`normalize`].
fn absolute_units(p: i32, origin: i32, extent: i32) -> (units: i32)
    ensures
        units == absolute(p as int, origin as int, extent as int) as i32,
{
    let extent: i64 = if extent < 1 {
        1
    } else {
        extent as i64
    };
    let span: i64 = if extent - 1 < 1 {
        1
    } else {
        extent - 1
    };
    let units: i64 = ((p as i64 - origin as i64) * 65535) / span;
    #[verifier::truncate]
    (units as i32)
}

/// Normalize a physical screen point to the absolute range over the whole virtual
/// desktop.
pub fn normalize(x: i32, y: i32, screen: &VirtualScreen) -> (units: (i32, i32))
    ensures
        units.0 == absolute(x as int, screen.x as int, screen.width as int) as i32,
        units.1 == absolute(y as int, screen.y as int, screen.height as int) as i32,
{
    (
        absolute_units(x, screen.x, screen.width),
        absolute_units(y, screen.y, screen.height),
    )
}

/// A single mouse input at physical point `(x, y)`.
pub fn input_at(x: i32, y: i32, event: MouseEvent, screen: &VirtualScreen) -> (input: MouseInput)
    ensures
        input == input_for((x as int, y as int), event, *screen),
{
    let (dx, dy) = normalize(x, y, screen);
    MouseInput { dx, dy, event }
}

/// Move to `(x, y)` and issue a `down`/`up` button pair.
fn send_at(x: i32, y: i32, down: MouseEvent, up: MouseEvent, screen: &VirtualScreen) -> (inputs: Vec<
    MouseInput,
>)
    ensures
        inputs@ == click_inputs((x as int, y as int), down, up, *screen),
{
    let mut inputs: Vec<MouseInput> = Vec::new();
    inputs.push(input_at(x, y, MouseEvent::Move, screen));
    inputs.push(input_at(x, y, down, screen));
    inputs.push(input_at(x, y, up, screen));
    assert(inputs@ =~= click_inputs((x as int, y as int), down, up, *screen));
    inputs
}

/// The inputs that move the cursor to the physical screen point `(x, y)` and
/// left-click it.
pub fn click(x: i32, y: i32, screen: &VirtualScreen) -> (inputs: Vec<MouseInput>)
    ensures
        inputs@ == click_inputs(
            (x as int, y as int),
            MouseEvent::LeftDown,
            MouseEvent::LeftUp,
            *screen,
        ),
        inputs@ == button_inputs((x as int, y as int), false, *screen),
{
    send_at(x, y, MouseEvent::LeftDown, MouseEvent::LeftUp, screen)
}

/// The inputs that move the cursor to the physical screen point `(x, y)` and
/// right-click it (which opens the element's context menu).
pub fn right_click(x: i32, y: i32, screen: &VirtualScreen) -> (inputs: Vec<MouseInput>)
    ensures
        inputs@ == click_inputs(
            (x as int, y as int),
            MouseEvent::RightDown,
            MouseEvent::RightUp,
            *screen,
        ),
        inputs@ == button_inputs((x as int, y as int), true, *screen),
{
    send_at(x, y, MouseEvent::RightDown, MouseEvent::RightUp, screen)
}

/// The way between two coordinates, without its sign.
fn apart(a: i32, b: i32) -> (gap: i64)
    ensures
        gap == distance(a as int, b as int),
{
    if a < b {
        b as i64 - a as i64
    } else {
        a as i64 - b as i64
    }
}

/// A part of the way from `a` to `b` never leaves the way.
pub proof fn lemma_waypoint_between(a: int, b: int, s: int, steps: int)
    requires
        0 <= s <= steps,
        0 < steps,
    ensures
        a <= b ==> a <= a + quotient((b - a) * s, steps) <= b,
        b <= a ==> b <= a + quotient((b - a) * s, steps) <= a,
{
    let way = b - a;
    if way >= 0 {
        assert(0 <= way * s <= way * steps) by (nonlinear_arith)
            requires
                way >= 0,
                0 <= s <= steps,
        ;
        lemma_part(way * s, steps, way);
    } else {
        assert(0 <= (-way) * s <= (-way) * steps) by (nonlinear_arith)
            requires
                way < 0,
                0 <= s <= steps,
        ;
        assert((-way) * s == -(way * s)) by (nonlinear_arith);
        lemma_part((-way) * s, steps, -way);
        assert(way * s <= 0);
    }
}

proof fn lemma_part(n: int, d: int, bound: int)
    requires
        0 <= n <= bound * d,
        0 < d,
    ensures
        0 <= n / d <= bound,
{
    assert(0 <= n / d <= bound) by (nonlinear_arith)
        requires
            0 <= n <= bound * d,
            0 < d,
    ;
}

/// One axis of a waypoint.
fn on_the_way(a: i32, b: i32, s: i32, steps: i32) -> (at: i32)
    requires
        0 <= s <= steps,
        0 < steps <= MAX_SUBSTEPS,
    ensures
        at == a + quotient((b - a) * s, steps as int),
{
    let way: i64 = b as i64 - a as i64;
    proof {
        lemma_waypoint_between(a as int, b as int, s as int, steps as int);
        assert(-0x1_0000_0000 * 8 <= way * s <= 0x1_0000_0000 * 8) by (nonlinear_arith)
            requires
                -0x1_0000_0000 <= way <= 0x1_0000_0000,
                0 <= s <= 8,
        ;
    }
    let part: i64 = (way * s as i64) / (steps as i64);
    (a as i64 + part) as i32
}

/// The inputs that press the left button at `from`, drag to `to` (with a few moves
/// in between, so that applications see a real drag), and release it. Each drag is
/// complete in itself: no button stays held.
pub fn drag(from: (i32, i32), to: (i32, i32), screen: &VirtualScreen) -> (inputs: Vec<MouseInput>)
    ensures
        inputs@ == drag_inputs(
            (from.0 as int, from.1 as int),
            (to.0 as int, to.1 as int),
            *screen,
        ),
{
    let ghost gfrom = (from.0 as int, from.1 as int);
    let ghost gto = (to.0 as int, to.1 as int);
    let ghost all = drag_inputs(gfrom, gto, *screen);
    let mut inputs: Vec<MouseInput> = Vec::new();
    inputs.push(input_at(from.0, from.1, MouseEvent::Move, screen));
    inputs.push(input_at(from.0, from.1, MouseEvent::LeftDown, screen));
    let across: i64 = apart(from.0, to.0);
    let down: i64 = apart(from.1, to.1);
    let dist: i64 = if across < down {
        down
    } else {
        across
    };
    let whole: i64 = dist / (SUBSTEP_PX as i64);
    let steps: i32 = if whole < 1 {
        1
    } else if whole > MAX_SUBSTEPS as i64 {
        MAX_SUBSTEPS
    } else {
        whole as i32
    };
    assert(steps == steps_between(gfrom, gto));
    assert(all.len() == steps + 3);
    assert(inputs@ =~= all.take(2));
    let mut s: i32 = 1;
    while s < steps
        invariant
            1 <= s <= steps <= MAX_SUBSTEPS,
            gfrom == (from.0 as int, from.1 as int),
            gto == (to.0 as int, to.1 as int),
            steps == steps_between(gfrom, gto),
            all == drag_inputs(gfrom, gto, *screen),
            all.len() == steps + 3,
            inputs@ == all.take(s + 1),
        decreases steps - s,
    {
        let x: i32 = on_the_way(from.0, to.0, s, steps);
        let y: i32 = on_the_way(from.1, to.1, s, steps);
        let input: MouseInput = input_at(x, y, MouseEvent::Move, screen);
        assert(drag_events(gfrom, gto)[s + 1] == (
            waypoint(gfrom, gto, s as int, steps as int),
            MouseEvent::Move,
        ));
        assert(all[s + 1] == input);
        inputs.push(input);
        assert(inputs@ =~= all.take(s + 2));
        s += 1;
    }
    inputs.push(input_at(to.0, to.1, MouseEvent::Move, screen));
    inputs.push(input_at(to.0, to.1, MouseEvent::LeftUp, screen));
    assert(drag_events(gfrom, gto)[steps + 1] == (gto, MouseEvent::Move));
    assert(drag_events(gfrom, gto)[steps + 2] == (gto, MouseEvent::LeftUp));
    assert(inputs@ =~= all);
    inputs
}

} // verus!
