//! Laws of single intents: what each of them does to what is shown, in pixels and
//! characters.

use vstd::prelude::*;

use crate::geometry::Rect;
use crate::hotkey::HookState;
use crate::laws::matching::{
    law_exact_match_has_the_code, law_first_with_the_code_is_the_match,
};
use crate::matching::{visible, Mode};
use crate::message::Intent;
use crate::resize::{moved, Handle};
use crate::scanner::HintModel;
use crate::session::{
    after_scan, after_search, hook_told, intent_fits, loaded, resize_begun, step, Action, AppModel,
    Placement, ResizeModel, ResizeSelection, UiModel,
};
use crate::splitter::{boundaries_of, Boundary};
use crate::text::lowered;
use crate::tray::after_toggle;

verus! {

// ---------------------------------------------------------------------------
// Arrows in resize mode
// ---------------------------------------------------------------------------

/// Is this the placement of the rectangle: its top left corner and its size?
pub open spec fn covers_exactly(place: Placement, r: Rect) -> bool {
    &&& place.x == r.left
    &&& place.y == r.top
    &&& place.x + place.width == r.right
    &&& place.y + place.height == r.bottom
}

/// Did the step leave everything as it was but the window's rectangle, now `rect`, and ask
/// for the window to be put there?
pub open spec fn window_now(
    m: AppModel,
    rs: ResizeModel,
    after: (AppModel, Action),
    rect: Rect,
) -> bool {
    &&& after.0 == (AppModel {
        state: UiModel::Resize(ResizeModel { current_rect: rect, ..rs }),
        ..m
    })
    &&& after.1 matches Action::MoveWindow(place) && place.target == rs.target && covers_exactly(
        place,
        rect,
    )
}

/// The rectangle with these edges.
pub open spec fn edges(left: int, top: int, right: int, bottom: int) -> Rect {
    Rect { left: left as i32, top: top as i32, right: right as i32, bottom: bottom as i32 }
}

/// Are these edges those of a window: coordinates of 32 bits, at least 200 pixels of width and
/// 120 of height between them, and both sizes of 32 bits too?
pub open spec fn window_edges(left: int, top: int, right: int, bottom: int) -> bool {
    &&& -0x8000_0000 <= left && right <= 0x7FFF_FFFF && 200 <= right - left <= 0x7FFF_FFFF
    &&& -0x8000_0000 <= top && bottom <= 0x7FFF_FFFF && 120 <= bottom - top <= 0x7FFF_FFFF
}

/// Down and Up move the grabbed edge of the window by 8 pixels, by 1 with Shift: Down adds
/// to the edge's coordinate and Up takes away, be it the top or the bottom edge, as long
/// as that leaves the edges of a window. A handle in the middle of a side moves nothing.
pub proof fn law_up_and_down_move_the_edge(
    m: AppModel,
    rs: ResizeModel,
    handle: Handle,
    down: bool,
    shift: bool,
)
    requires
        m.state == UiModel::Resize(rs),
        rs.selection == ResizeSelection::Window(handle),
    ensures
        ({
            let r = rs.current_rect;
            let (l, t, e, b) = (r.left as int, r.top as int, r.right as int, r.bottom as int);
            let by = if shift {
                1int
            } else {
                8int
            };
            let d = if down {
                by
            } else {
                -by
            };
            let after = step(m, Intent::Nav { down, shift });
            match handle {
                Handle::TopLeft | Handle::Top | Handle::TopRight => window_edges(l, t + d, e, b)
                    ==> window_now(m, rs, after, edges(l, t + d, e, b)),
                Handle::BottomLeft | Handle::Bottom | Handle::BottomRight => window_edges(
                    l,
                    t,
                    e,
                    b + d,
                ) ==> window_now(m, rs, after, edges(l, t, e, b + d)),
                Handle::Left | Handle::Right => window_edges(l, t, e, b) ==> window_now(
                    m,
                    rs,
                    after,
                    r,
                ),
            }
        }),
{
}

/// Right and Left move the grabbed edge of the window by 8 pixels, by 1 with Shift: Right
/// adds to the edge's coordinate and Left takes away, be it the left or the right edge, as
/// long as that leaves the edges of a window. A handle in the middle of the top or the
/// bottom moves nothing.
pub proof fn law_left_and_right_move_the_edge(
    m: AppModel,
    rs: ResizeModel,
    handle: Handle,
    right: bool,
    shift: bool,
)
    requires
        m.state == UiModel::Resize(rs),
        rs.selection == ResizeSelection::Window(handle),
    ensures
        ({
            let r = rs.current_rect;
            let (l, t, e, b) = (r.left as int, r.top as int, r.right as int, r.bottom as int);
            let by = if shift {
                1int
            } else {
                8int
            };
            let d = if right {
                by
            } else {
                -by
            };
            let after = step(m, Intent::NavH { right, shift });
            match handle {
                Handle::TopLeft | Handle::Left | Handle::BottomLeft => window_edges(l + d, t, e, b)
                    ==> window_now(m, rs, after, edges(l + d, t, e, b)),
                Handle::TopRight | Handle::Right | Handle::BottomRight => window_edges(
                    l,
                    t,
                    e + d,
                    b,
                ) ==> window_now(m, rs, after, edges(l, t, e + d, b)),
                Handle::Top | Handle::Bottom => window_edges(l, t, e, b) ==> window_now(
                    m,
                    rs,
                    after,
                    r,
                ),
            }
        }),
{
}

/// Whatever the window's size, an arrow moves the grabbed handle by 8 pixels, by 1 with Shift,
/// up or down, left or right, with 200 by 120 pixels as the smallest size.
pub proof fn law_arrows_move_the_grabbed_handle(
    m: AppModel,
    rs: ResizeModel,
    handle: Handle,
    forth: bool,
    shift: bool,
)
    requires
        m.state == UiModel::Resize(rs),
        rs.selection == ResizeSelection::Window(handle),
    ensures
        ({
            let r = rs.current_rect;
            let by = if shift {
                1int
            } else {
                8int
            };
            let d = if forth {
                by
            } else {
                -by
            };
            let with = |rect: Rect|
                AppModel { state: UiModel::Resize(ResizeModel { current_rect: rect, ..rs }), ..m };
            &&& step(m, Intent::Nav { down: forth, shift }).0 == with(
                moved(r, handle, 0, d, 200, 120),
            )
            &&& step(m, Intent::NavH { right: forth, shift }).0 == with(
                moved(r, handle, d, 0, 200, 120),
            )
        }),
{
}

/// An arrow that would leave less than 120 pixels of height or 200 of width stops the moved
/// edge exactly there; the opposite edge stays. Here the window has up to `more` pixels more
/// than that, which one arrow press would use up.
pub proof fn law_arrows_stop_at_the_smallest_window(
    m: AppModel,
    rs: ResizeModel,
    handle: Handle,
    shift: bool,
    more: int,
)
    requires
        m.state == UiModel::Resize(rs),
        rs.selection == ResizeSelection::Window(handle),
        0 <= more < (if shift {
            1int
        } else {
            8int
        }),
        rs.current_rect.right == rs.current_rect.left + 200 + more,
        rs.current_rect.bottom == rs.current_rect.top + 120 + more,
    ensures
        ({
            let r = rs.current_rect;
            &&& handle is TopLeft || handle is Top || handle is TopRight ==> window_now(
                m,
                rs,
                step(m, Intent::Nav { down: true, shift }),
                Rect { top: (r.bottom - 120) as i32, ..r },
            )
            &&& handle is BottomLeft || handle is Bottom || handle is BottomRight ==> window_now(
                m,
                rs,
                step(m, Intent::Nav { down: false, shift }),
                Rect { bottom: (r.top + 120) as i32, ..r },
            )
            &&& handle is TopLeft || handle is Left || handle is BottomLeft ==> window_now(
                m,
                rs,
                step(m, Intent::NavH { right: true, shift }),
                Rect { left: (r.right - 200) as i32, ..r },
            )
            &&& handle is TopRight || handle is Right || handle is BottomRight ==> window_now(
                m,
                rs,
                step(m, Intent::NavH { right: false, shift }),
                Rect { right: (r.left + 200) as i32, ..r },
            )
        }),
{
}

/// Up after Down, and Left after Right, put the window back where it was, and so the other
/// way round, where neither leaves less than the edges of a window.
pub proof fn law_opposite_arrows_restore_the_window(
    m: AppModel,
    rs: ResizeModel,
    handle: Handle,
    forth: bool,
    shift: bool,
)
    requires
        m.state == UiModel::Resize(rs),
        rs.selection == ResizeSelection::Window(handle),
        -0x7FFF_FF00 <= rs.current_rect.left && rs.current_rect.right <= 0x7FFF_FF00,
        208 <= rs.current_rect.right - rs.current_rect.left <= 0x7FFF_FF00,
        -0x7FFF_FF00 <= rs.current_rect.top && rs.current_rect.bottom <= 0x7FFF_FF00,
        128 <= rs.current_rect.bottom - rs.current_rect.top <= 0x7FFF_FF00,
    ensures
        step(
            step(m, Intent::Nav { down: forth, shift }).0,
            Intent::Nav { down: !forth, shift },
        ).0 == m,
        step(
            step(m, Intent::NavH { right: forth, shift }).0,
            Intent::NavH { right: !forth, shift },
        ).0 == m,
{
    let r = rs.current_rect;
    let down = step(m, Intent::Nav { down: forth, shift }).0;
    let side = step(m, Intent::NavH { right: forth, shift }).0;
    law_up_and_down_move_the_edge(m, rs, handle, forth, shift);
    law_left_and_right_move_the_edge(m, rs, handle, forth, shift);
    law_up_and_down_move_the_edge(down, down.state->Resize_0, handle, !forth, shift);
    law_left_and_right_move_the_edge(side, side.state->Resize_0, handle, !forth, shift);
    assert(step(down, Intent::Nav { down: !forth, shift }).0.state->Resize_0.current_rect == r);
    assert(step(side, Intent::NavH { right: !forth, shift }).0.state->Resize_0.current_rect == r);
    assert(step(down, Intent::Nav { down: !forth, shift }).0 =~= m);
    assert(step(side, Intent::NavH { right: !forth, shift }).0 =~= m);
}

/// A grabbed vertical splitter follows Left and Right, a horizontal one Up and Down: its
/// line goes by 8 pixels, by 1 with Shift, and the mouse drags it by as much. Its ends
/// stay, and so do the other splitters and the window.
pub proof fn law_arrows_drag_the_splitter(
    m: AppModel,
    rs: ResizeModel,
    i: usize,
    forth: bool,
    shift: bool,
)
    requires
        m.state == UiModel::Resize(rs),
        rs.selection == ResizeSelection::Splitter(i),
        i < rs.splitters.len(),
        -0x8000_0000 <= rs.splitters[i as int].coord - 8,
        rs.splitters[i as int].coord + 8 <= 0x7FFF_FFFF,
    ensures
        ({
            let b = rs.splitters[i as int];
            let by = if shift {
                1int
            } else {
                8int
            };
            let d = if forth {
                by
            } else {
                -by
            };
            let across = if b.orientation is Vertical {
                Intent::NavH { right: forth, shift }
            } else {
                Intent::Nav { down: forth, shift }
            };
            let along = if b.orientation is Vertical {
                Intent::Nav { down: forth, shift }
            } else {
                Intent::NavH { right: forth, shift }
            };
            let after = step(m, across);
            &&& step(m, along) == (m, Action::Nothing)
            &&& after.0 == (AppModel {
                state: UiModel::Resize(
                    ResizeModel {
                        splitters: rs.splitters.update(
                            i as int,
                            Boundary { coord: (b.coord + d) as i32, ..b },
                        ),
                        ..rs
                    },
                ),
                ..m
            })
            &&& after.1 matches Action::Drag { from, to } && {
                let (line, mid, line_to, mid_to) = if b.orientation is Vertical {
                    (from.0, from.1, to.0, to.1)
                } else {
                    (from.1, from.0, to.1, to.0)
                };
                &&& line == b.coord
                &&& line_to == b.coord + d
                &&& mid_to == mid
                &&& -1 <= 2 * mid - (b.span_start + b.span_end) <= 1
            }
        }),
{
}

/// Arrows are accepted whenever the window and the splitters stay clear of the ends of
/// the range of coordinates; every other intent always is.
pub proof fn law_ordinary_intents_are_accepted(m: AppModel, intent: Intent)
    requires
        intent is Nav || intent is NavH ==> (m.state matches UiModel::Resize(rs) ==> {
            &&& -0x3FFF_FF00 <= rs.current_rect.left <= rs.current_rect.right <= 0x3FFF_FF00
            &&& -0x3FFF_FF00 <= rs.current_rect.top <= rs.current_rect.bottom <= 0x3FFF_FF00
            &&& rs.selection matches ResizeSelection::Splitter(i) ==> i < rs.splitters.len() && {
                let b = rs.splitters[i as int];
                &&& -0x3FFF_FF00 <= b.coord <= 0x3FFF_FF00
                &&& -0x3FFF_FF00 <= b.span_start <= b.span_end <= 0x3FFF_FF00
            }
        }),
    ensures
        intent_fits(m, intent),
{
}

// ---------------------------------------------------------------------------
// Other keys in resize mode
// ---------------------------------------------------------------------------

/// The keys A to H grab the window's handles, clockwise from the top left corner; I to Z
/// grab the splitters in their order, as far as there are any; every other key does
/// nothing. Nothing but the grip changes.
pub proof fn law_letter_keys_grab(m: AppModel, rs: ResizeModel, vk: u32, shift: bool)
    requires
        m.state == UiModel::Resize(rs),
        rs.splitters.len() <= 18,
    ensures
        ({
            let after = step(m, Intent::Key { vk, shift });
            let grabs = |selection: ResizeSelection|
                after == (
                    AppModel {
                        state: UiModel::Resize(ResizeModel { selection, ..rs }),
                        ..m
                    },
                    Action::RedrawResize,
                );
            &&& vk == 0x41 ==> grabs(ResizeSelection::Window(Handle::TopLeft))
            &&& vk == 0x42 ==> grabs(ResizeSelection::Window(Handle::Top))
            &&& vk == 0x43 ==> grabs(ResizeSelection::Window(Handle::TopRight))
            &&& vk == 0x44 ==> grabs(ResizeSelection::Window(Handle::Right))
            &&& vk == 0x45 ==> grabs(ResizeSelection::Window(Handle::BottomRight))
            &&& vk == 0x46 ==> grabs(ResizeSelection::Window(Handle::Bottom))
            &&& vk == 0x47 ==> grabs(ResizeSelection::Window(Handle::BottomLeft))
            &&& vk == 0x48 ==> grabs(ResizeSelection::Window(Handle::Left))
            &&& 0x49 <= vk && vk - 0x49 < rs.splitters.len() ==> grabs(
                ResizeSelection::Splitter((vk - 0x49) as usize),
            )
            &&& !(0x41 <= vk <= 0x48) && !(0x49 <= vk && vk - 0x49 < rs.splitters.len())
                ==> after == (m, Action::Nothing)
        }),
{
}

/// Esc ends a resize session and puts the window back to the very rectangle that it had at
/// the beginning; Enter ends it and leaves the window. Hints, mode and cursor stay.
pub proof fn law_sessions_end(m: AppModel, rs: ResizeModel, shift: bool)
    requires
        m.state == UiModel::Resize(rs),
        -0x8000_0000 <= rs.orig_rect.right - rs.orig_rect.left <= 0x7FFF_FFFF,
        -0x8000_0000 <= rs.orig_rect.bottom - rs.orig_rect.top <= 0x7FFF_FFFF,
    ensures
        ({
            let esc = step(m, Intent::Cancel);
            let enter = step(m, Intent::Confirm { shift });
            let ended = AppModel { state: UiModel::Idle, typed: Seq::empty(), ..m };
            &&& esc.0 == ended
            &&& esc.1 matches Action::LeaveResize(Some(place)) && place.target == rs.target
                && covers_exactly(place, rs.orig_rect)
            &&& enter == (ended, Action::LeaveResize(None))
        }),
{
}

/// In resize mode Tab and the two taps of CapsLock do nothing.
pub proof fn law_resize_mode_ignores_the_rest(m: AppModel, rs: ResizeModel)
    requires
        m.state == UiModel::Resize(rs),
    ensures
        step(m, Intent::Tab) == (m, Action::Nothing),
        step(m, Intent::Show) == (m, Action::Nothing),
        step(m, Intent::Resize) == (m, Action::Nothing),
{
}

/// Quitting is carried out in every mode, and changes nothing.
pub proof fn law_quit_always_quits(m: AppModel)
    ensures
        step(m, Intent::Quit) == (m, Action::Quit),
{
}

/// A resize session begins with the window as it is, nothing grabbed and nothing typed,
/// and with the splitters of its panes, the first 18 if there are more.
pub proof fn law_sessions_begin(m: AppModel, target: isize, rect: Rect, panes: Seq<Rect>)
    ensures
        ({
            let begun = resize_begun(m, target, rect, panes);
            let found = boundaries_of(panes);
            &&& begun.typed.len() == 0
            &&& begun.mode == m.mode && begun.selected == m.selected && begun.hints == m.hints
            &&& begun.state matches UiModel::Resize(rs) && {
                &&& rs.target == target
                &&& rs.orig_rect == rect && rs.current_rect == rect
                &&& rs.selection is Nothing
                &&& found.len() <= 18 ==> rs.splitters == found
                &&& found.len() > 18 ==> rs.splitters.len() == 18
                &&& forall|k: int|
                    0 <= k < rs.splitters.len() ==> #[trigger] rs.splitters[k] == found[k]
            }
        }),
{
}

// ---------------------------------------------------------------------------
// Typing
// ---------------------------------------------------------------------------

/// Where names are searched, a letter's key types the small letter, a digit's the digit and
/// the space bar a space; each puts the cursor back to the top. No other key but
/// Backspace does anything, and none clicks.
pub proof fn law_keys_type_their_characters(m: AppModel, vk: u32, shift: bool)
    requires
        m.state is Hints,
        !(m.mode is Hints),
        vk != 0x08,
    ensures
        ({
            let after = step(m, Intent::Key { vk, shift });
            let types = |c: char|
                after == (
                    AppModel { typed: m.typed.push(c), selected: 0, ..m },
                    Action::RedrawHints,
                );
            &&& 0x41 <= vk <= 0x5A ==> types((97 + (vk - 0x41)) as char)
            &&& 0x30 <= vk <= 0x39 ==> types((48 + (vk - 0x30)) as char)
            &&& vk == 0x20 ==> types(' ')
            &&& !(0x41 <= vk <= 0x5A || 0x30 <= vk <= 0x39 || vk == 0x20) ==> after == (
                m,
                Action::Nothing,
            )
        }),
{
}

/// Where codes alone count, a letter's key types the small letter; if that completes the
/// code of an element, its center is clicked, with the right button if Shift is held, and
/// the overlay is put away. Other keys than letters and Backspace do nothing.
pub proof fn law_letters_type_codes(m: AppModel, vk: u32, shift: bool, i: int)
    requires
        m.state is Hints,
        m.mode is Hints,
        vk != 0x08,
    ensures
        ({
            let after = step(m, Intent::Key { vk, shift });
            let typed = m.typed.push((97 + (vk - 0x41)) as char);
            &&& !(0x41 <= vk <= 0x5A) ==> after == (m, Action::Nothing)
            &&& 0x41 <= vk <= 0x5A && (forall|k: int|
                0 <= k < m.hints.len() ==> (#[trigger] m.hints[k]).label != typed) ==> after == (
                AppModel { typed, selected: 0, ..m },
                Action::RedrawHints,
            )
            &&& 0x41 <= vk <= 0x5A && 0 <= i < m.hints.len() && m.hints[i].label == typed && (
            forall|k: int| 0 <= k < i ==> (#[trigger] m.hints[k]).label != typed) ==> after == (
                AppModel { state: UiModel::Idle, typed: Seq::empty(), ..m },
                Action::Click { x: m.hints[i].x, y: m.hints[i].y, right: shift },
            )
        }),
{
    let typed = m.typed.push((97 + (vk - 0x41)) as char);
    law_exact_match_has_the_code(m.hints, typed);
    if 0 <= i < m.hints.len() && m.hints[i].label == typed && (forall|k: int|
        0 <= k < i ==> (#[trigger] m.hints[k]).label != typed) {
        law_first_with_the_code_is_the_match(m.hints, typed, i);
    }
}

/// Backspace takes back the last character, if there is one, and puts the cursor back to
/// the top; in every matching mode.
pub proof fn law_backspace_takes_the_last_character(m: AppModel, shift: bool)
    requires
        m.state is Hints,
    ensures
        ({
            let after = step(m, Intent::Key { vk: 0x08, shift });
            &&& after.1 == Action::RedrawHints
            &&& after.0 == (AppModel { typed: after.0.typed, selected: 0, ..m })
            &&& m.typed.len() == 0 ==> after.0.typed.len() == 0
            &&& m.typed.len() > 0 ==> after.0.typed.push(m.typed[m.typed.len() - 1]) == m.typed
        }),
{
    if m.typed.len() > 0 {
        assert(m.typed.drop_last().push(m.typed[m.typed.len() - 1]) =~= m.typed);
    } else {
        assert(m.typed =~= Seq::empty());
    }
}

/// With something typed, Down goes to the next listed element and from the last to the
/// first, Up the other way; with nothing typed the arrows do nothing. Shift does not
/// matter, and nothing but the cursor changes.
pub proof fn law_arrows_walk_the_list(m: AppModel, shift: bool)
    requires
        m.state is Hints,
        0 <= m.selected,
    ensures
        ({
            let n = visible(m.hints, m.mode, m.typed).len();
            let down = step(m, Intent::Nav { down: true, shift });
            let up = step(m, Intent::Nav { down: false, shift });
            let at = |selected: int| (AppModel { selected, ..m }, Action::RedrawHints);
            &&& m.typed.len() == 0 ==> down == (m, Action::Nothing) && up == (m, Action::Nothing)
            &&& m.typed.len() > 0 ==> {
                &&& n == 0 ==> down == at(0) && up == at(0)
                &&& m.selected + 1 < n ==> down == at(m.selected + 1)
                &&& m.selected + 1 == n ==> down == at(0)
                &&& 0 < m.selected < n ==> up == at(m.selected - 1)
                &&& m.selected == 0 && n > 0 ==> up == at(n - 1)
            }
        }),
{
    let n = visible(m.hints, m.mode, m.typed).len() as int;
    let c = m.selected;
    if n > 0 && c < n {
        if c + 1 < n {
            vstd::arithmetic::div_mod::lemma_small_mod((c + 1) as nat, n as nat);
        } else {
            vstd::arithmetic::div_mod::lemma_mod_self_0(n);
        }
        if c > 0 {
            vstd::arithmetic::div_mod::lemma_mod_add_multiples_vanish(c - 1, n);
            vstd::arithmetic::div_mod::lemma_small_mod((c - 1) as nat, n as nat);
        } else {
            vstd::arithmetic::div_mod::lemma_small_mod((n - 1) as nat, n as nat);
        }
    }
}

/// With something typed and something listed, Enter clicks the center of the listed element
/// under the cursor, the last one if the cursor stands behind the end: with the right
/// button if Shift is held. The overlay is put away. Else Enter does nothing.
pub proof fn law_enter_clicks_under_the_cursor(m: AppModel, shift: bool)
    requires
        m.state is Hints,
        0 <= m.selected,
    ensures
        ({
            let list = visible(m.hints, m.mode, m.typed);
            let after = step(m, Intent::Confirm { shift });
            let i = if m.selected < list.len() {
                list[m.selected]
            } else {
                list[list.len() - 1]
            };
            &&& m.typed.len() == 0 || list.len() == 0 ==> after == (m, Action::Nothing)
            &&& m.typed.len() > 0 && list.len() > 0 ==> after == (
                AppModel { state: UiModel::Idle, typed: Seq::empty(), ..m },
                Action::Click { x: m.hints[i].x, y: m.hints[i].y, right: shift },
            )
        }),
{
}

/// Among the hints, Tab goes from the combined mode to names alone, on to codes alone and
/// back, with the text kept and the cursor at the top; Left and Right do nothing, the
/// first tap of CapsLock neither, a second one looks for a window to resize, and Esc
/// puts everything away.
pub proof fn law_other_intents_among_the_hints(m: AppModel, right: bool, shift: bool)
    requires
        m.state is Hints,
    ensures
        step(m, Intent::Tab) == (
            AppModel {
                mode: match m.mode {
                    Mode::Both => Mode::Search,
                    Mode::Search => Mode::Hints,
                    Mode::Hints => Mode::Both,
                },
                selected: 0,
                ..m
            },
            Action::RedrawHints,
        ),
        step(m, Intent::NavH { right, shift }) == (m, Action::Nothing),
        step(m, Intent::Show) == (m, Action::Nothing),
        step(m, Intent::Resize) == (m, Action::FindTarget),
        step(m, Intent::Cancel) == (
            AppModel { state: UiModel::Idle, typed: Seq::empty(), ..m },
            Action::Hide,
        ),
{
}

/// With nothing shown, a tap of CapsLock scans the window, Esc hides what there may be, and
/// no key, arrow, Tab, Enter or second tap does anything.
pub proof fn law_intents_while_idle(m: AppModel, vk: u32, way: bool, shift: bool)
    requires
        m.state is Idle,
    ensures
        step(m, Intent::Show) == (m, Action::Scan),
        step(m, Intent::Cancel) == (AppModel { typed: Seq::empty(), ..m }, Action::Hide),
        step(m, Intent::Resize) == (m, Action::Nothing),
        step(m, Intent::Key { vk, shift }) == (m, Action::Nothing),
        step(m, Intent::Confirm { shift }) == (m, Action::Nothing),
        step(m, Intent::Tab) == (m, Action::Nothing),
        step(m, Intent::Nav { down: way, shift }) == (m, Action::Nothing),
        step(m, Intent::NavH { right: way, shift }) == (m, Action::Nothing),
{
}

// ---------------------------------------------------------------------------
// New hints
// ---------------------------------------------------------------------------

/// A scan gives as many hints as it found elements, the first 676 if there are more, in
/// that order. Each is clicked at its element's center, keeps its element's top edge and
/// mark, has the element's name in lower case and a code of one or two letters counted
/// through the alphabet. Nothing is typed, and the cursor is at the top.
pub proof fn law_scanned_elements_become_hints(m: AppModel, scanned: Seq<HintModel>, i: int)
    requires
        0 <= i < scanned.len(),
        i < 676,
    ensures
        ({
            let n = scanned.len();
            let after = loaded(m, scanned);
            let hint = after.hints[i];
            &&& after.typed.len() == 0 && after.selected == 0
            &&& after.state == m.state && after.mode == m.mode
            &&& n <= 676 ==> after.hints.len() == n
            &&& n > 676 ==> after.hints.len() == 676
            &&& hint.x == scanned[i].cx && hint.y == scanned[i].cy
            &&& hint.top == scanned[i].top && hint.above == scanned[i].above
            &&& hint.name == lowered(scanned[i].name)
            &&& n <= 26 ==> hint.label.len() == 1 && hint.label[0] as int == 97 + i
            &&& n > 26 ==> hint.label.len() == 2 && (hint.label[0] as int - 97) * 26 + (
            hint.label[1] as int - 97) == i && 97 <= hint.label[1] as int <= 122
        }),
{
}

/// The overlay is up among the hints and in resize mode, and at no other time; and what is
/// put away is idle, with nothing typed and the rest as it was.
pub proof fn law_overlay_is_up_unless_idle(m: AppModel)
    ensures
        m.state is Hints || m.state is Resize ==> m.active(),
        m.state is Idle ==> !m.active(),
        m.put_away() == (AppModel { state: UiModel::Idle, typed: Seq::empty(), ..m }),
{
}

/// A session is in order exactly if it has at most 18 splitters, a grabbed splitter is one
/// of them, and both its rectangles have sizes of 32 bits.
pub proof fn law_sessions_in_order(rs: ResizeModel)
    ensures
        rs.wf() <==> rs.splitters.len() <= 18 && (rs.selection matches ResizeSelection::Splitter(i)
            ==> i < rs.splitters.len()) && {
            let o = rs.orig_rect;
            let c = rs.current_rect;
            &&& -0x8000_0000 <= o.right - o.left <= 0x7FFF_FFFF
            &&& -0x8000_0000 <= o.bottom - o.top <= 0x7FFF_FFFF
            &&& -0x8000_0000 <= c.right - c.left <= 0x7FFF_FFFF
            &&& -0x8000_0000 <= c.bottom - c.top <= 0x7FFF_FFFF
        },
{
}

/// A scan is taken in exactly if nothing is shown yet and it found something; a window is
/// taken for resizing exactly among the hints, and if it and its rectangle are known. Else
/// nothing changes.
pub proof fn law_answers_are_taken_in_turn(
    m: AppModel,
    scanned: Seq<HintModel>,
    target: Option<isize>,
    rect: Option<Rect>,
    panes: Seq<Rect>,
)
    ensures
        m.state is Idle && scanned.len() > 0 ==> after_scan(m, scanned) == (
            loaded(m, scanned),
            true,
        ),
        !(m.state is Idle) || scanned.len() == 0 ==> after_scan(m, scanned) == (m, false),
        m.state is Hints && target is Some && rect is Some ==> after_search(m, target, rect, panes)
            == (resize_begun(m, target->0, rect->0, panes), true),
        !(m.state is Hints) || target is None || rect is None ==> after_search(
            m,
            target,
            rect,
            panes,
        ) == (m, false),
{
}

/// The hook is told that a mode is on among the hints and in resize mode, that resizing is
/// on in resize mode only, and nothing else.
pub proof fn law_hook_is_told_the_mode(m: AppModel, hook: HookState)
    ensures
        hook_told(m, hook).active <==> m.state is Hints || m.state is Resize,
        hook_told(m, hook).resize_active <==> m.state is Resize,
        hook_told(m, hook) == (HookState {
            active: hook_told(m, hook).active,
            resize_active: hook_told(m, hook).resize_active,
            ..hook
        }),
{
}

/// Pausing and resuming take turns. Pausing does what Esc does, where anything is shown;
/// resuming and pausing with nothing shown leave everything else as it is.
pub proof fn law_pausing_takes_turns(m: AppModel, hook: HookState)
    ensures
        ({
            let (after, told, action) = after_toggle(m, hook);
            &&& told.paused == !hook.paused
            &&& told == (HookState { paused: told.paused, ..hook })
            &&& !hook.paused && !(m.state is Idle) ==> (after, action) == step(m, Intent::Cancel)
                && after.state is Idle && after.typed.len() == 0
            &&& hook.paused || m.state is Idle ==> after == m && action == Action::Nothing
        }),
{
}

} // verus!
