//! Laws of the scan.

use vstd::prelude::*;

use crate::geometry::Rect;
use crate::scanner::{
    app_like, considered, control_label, drag_arrow, hint_of, pane_of, raised, same_spot,
    shell_class, splitter_like, spot_taken, window_chosen, HintModel, MAX_ELEMENTS,
};
use crate::splitter::MIN_PANE_SIZE;

verus! {

/// Do no two hints sit on (nearly) the same pixel?
pub open spec fn spots_differ(hints: Seq<HintModel>) -> bool {
    forall|i: int, j: int| 0 <= i < j < hints.len() ==> !same_spot(hints[i], hints[j])
}

/// Looking at an element never puts two hints on one spot.
pub proof fn law_spots_stay_different(
    control_type: Option<i32>,
    rect: Option<Rect>,
    offscreen: Option<bool>,
    name: Option<Seq<char>>,
    window: Rect,
    hints: Seq<HintModel>,
)
    requires
        spots_differ(hints),
    ensures
        spots_differ(considered(control_type, rect, offscreen, name, window, hints)),
{
    if let Some(h) = hint_of(control_type, rect, offscreen, name, window) {
        if !spot_taken(hints, h) {
            assert forall|i: int, j: int| 0 <= i < j < hints.push(h).len() implies !same_spot(
                #[trigger] hints.push(h)[i],
                #[trigger] hints.push(h)[j],
            ) by {
                if j == hints.len() {
                    assert(hints.push(h)[i] == hints[i]);
                    assert(!same_spot(hints[i], h));
                }
            }
        }
    }
}

/// Looking at an element keeps what was found and adds at most one hint, at the
/// end; its center lies within the window.
pub proof fn law_looking_adds_at_most_one(
    control_type: Option<i32>,
    rect: Option<Rect>,
    offscreen: Option<bool>,
    name: Option<Seq<char>>,
    window: Rect,
    hints: Seq<HintModel>,
)
    ensures
        ({
            let after = considered(control_type, rect, offscreen, name, window, hints);
            &&& hints.len() <= after.len() <= hints.len() + 1
            &&& after.take(hints.len() as int) == hints
            &&& after.len() > hints.len() ==> {
                &&& window.left <= after.last().cx <= window.right
                &&& window.top <= after.last().cy <= window.bottom
                &&& !after.last().above
            }
        }),
{
    assert(hints.take(hints.len() as int) =~= hints);
    if let Some(h) = hint_of(control_type, rect, offscreen, name, window) {
        assert(hints.push(h).take(hints.len() as int) =~= hints);
    }
}

/// A scan that stops looking once it is full never holds more than it may.
pub proof fn law_scan_is_capped(
    control_type: Option<i32>,
    rect: Option<Rect>,
    offscreen: Option<bool>,
    name: Option<Seq<char>>,
    window: Rect,
    hints: Seq<HintModel>,
)
    requires
        hints.len() < MAX_ELEMENTS,
    ensures
        considered(control_type, rect, offscreen, name, window, hints).len() <= MAX_ELEMENTS,
{
}

/// An element that is covered, scrolled away, empty or stale makes no hint.
pub proof fn law_unseen_elements_make_no_hint(
    control_type: Option<i32>,
    rect: Option<Rect>,
    offscreen: Option<bool>,
    name: Option<Seq<char>>,
    window: Rect,
    hints: Seq<HintModel>,
)
    requires
        control_type is None || rect is None || offscreen == Some(true) || rect->0.left
            >= rect->0.right || rect->0.top >= rect->0.bottom,
    ensures
        considered(control_type, rect, offscreen, name, window, hints) == hints,
{
}

/// Marking hints to be labeled above moves none and marks no earlier one.
pub proof fn law_raising_moves_nothing(hints: Seq<HintModel>, from: int)
    requires
        spots_differ(hints),
    ensures
        raised(hints, from).len() == hints.len(),
        forall|i: int|
            0 <= i < hints.len() ==> {
                &&& (#[trigger] raised(hints, from)[i]).cx == hints[i].cx
                &&& raised(hints, from)[i].cy == hints[i].cy
                &&& i < from ==> raised(hints, from)[i] == hints[i]
            },
        spots_differ(raised(hints, from)),
{
    let after = raised(hints, from);
    assert forall|i: int, j: int| 0 <= i < j < after.len() implies !same_spot(after[i], after[j]) by {
        assert(!same_spot(hints[i], hints[j]));
    }
}

/// Every pane that the scan collects is large enough to take part in the search
/// for splitters.
pub proof fn law_collected_panes_take_part(control_type: Option<i32>, rect: Option<Rect>)
    ensures
        pane_of(control_type, rect) matches Some(pane) ==> pane.spans_at_least(
            MIN_PANE_SIZE as int,
        ) && rect == Some(pane),
{
}

// ---------------------------------------------------------------------------
// Element by element
// ---------------------------------------------------------------------------

/// Is this one of the control types that can be clicked: button, check box, combo box,
/// edit field, link, list item, menu item, radio button, tab, tree item, data item, split
/// button or header?
pub open spec fn one_of_the_clickable(ct: i32) -> bool {
    ||| ct == 50000
    ||| ct == 50002
    ||| ct == 50003
    ||| ct == 50004
    ||| ct == 50005
    ||| ct == 50007
    ||| ct == 50011
    ||| ct == 50013
    ||| ct == 50019
    ||| ct == 50024
    ||| ct == 50029
    ||| ct == 50031
    ||| ct == 50035
}

/// Is `mid` the pixel in the middle of the two, of two such pixels the one nearer to zero?
pub open spec fn in_the_middle(a: i32, b: i32, mid: i32) -> bool {
    ||| 2 * mid == a + b
    ||| a + b > 0 && 2 * mid + 1 == a + b
    ||| a + b < 0 && 2 * mid - 1 == a + b
}

/// Is there a hint less than 4 pixels from the point, across and down?
pub open spec fn near_a_hint(hints: Seq<HintModel>, x: i32, y: i32) -> bool {
    exists|k: int|
        0 <= k < hints.len() && -4 < (#[trigger] hints[k]).cx - x < 4 && -4 < hints[k].cy - y < 4
}

/// An element makes a hint exactly if its control type can be clicked, it has an area with
/// its center in the window, it is not known to be off the screen, and no hint is less
/// than 4 pixels from the center. The hint sits at the center, keeps the top edge and the
/// name (an empty one if none was read), is labeled in place, and comes last; the other
/// hints stay.
pub proof fn law_clickable_elements_make_hints(
    control_type: Option<i32>,
    rect: Option<Rect>,
    offscreen: Option<bool>,
    name: Option<Seq<char>>,
    window: Rect,
    hints: Seq<HintModel>,
    x: i32,
    y: i32,
)
    requires
        rect matches Some(r) ==> in_the_middle(r.left, r.right, x) && in_the_middle(
            r.top,
            r.bottom,
            y,
        ),
    ensures
        ({
            let after = considered(control_type, rect, offscreen, name, window, hints);
            let makes_one = (control_type matches Some(ct) && one_of_the_clickable(ct)) && (
            rect matches Some(r) && r.left < r.right && r.top < r.bottom) && window.left <= x
                <= window.right && window.top <= y <= window.bottom && offscreen != Some(true)
                && !near_a_hint(hints, x, y);
            &&& !makes_one ==> after == hints
            &&& makes_one ==> {
                let h = after[hints.len() as int];
                &&& after.len() == hints.len() + 1
                &&& after.take(hints.len() as int) == hints
                &&& h.cx == x && h.cy == y
                &&& h.top == rect->0.top
                &&& !h.above
                &&& name matches Some(n) ==> h.name == n
                &&& name is None ==> h.name.len() == 0
                &&& h.control == control_label(control_type->0)->0
            }
        }),
{
    let after = considered(control_type, rect, offscreen, name, window, hints);
    if let Some(h) = hint_of(control_type, rect, offscreen, name, window) {
        assert(h.cx == x && h.cy == y);
        if spot_taken(hints, h) {
            let k = choose|k: int| 0 <= k < hints.len() && same_spot(#[trigger] hints[k], h);
            assert(-4 < hints[k].cx - x < 4 && -4 < hints[k].cy - y < 4);
            assert(near_a_hint(hints, x, y));
        } else {
            if near_a_hint(hints, x, y) {
                let k = choose|k: int|
                    0 <= k < hints.len() && -4 < (#[trigger] hints[k]).cx - x < 4 && -4 < hints[k].cy
                        - y < 4;
                assert(same_spot(hints[k], h));
            }
            assert(after.take(hints.len() as int) =~= hints);
        }
    }
}

/// The label of a control names what it is.
pub proof fn law_controls_are_named(ct: i32)
    ensures
        control_label(ct) is Some <==> one_of_the_clickable(ct),
        ct == 50000 ==> control_label(ct) == Some("Button"@),
        ct == 50002 ==> control_label(ct) == Some("CheckBox"@),
        ct == 50003 ==> control_label(ct) == Some("ComboBox"@),
        ct == 50004 ==> control_label(ct) == Some("Edit"@),
        ct == 50005 ==> control_label(ct) == Some("Hyperlink"@),
        ct == 50007 ==> control_label(ct) == Some("ListItem"@),
        ct == 50011 ==> control_label(ct) == Some("MenuItem"@),
        ct == 50013 ==> control_label(ct) == Some("RadioButton"@),
        ct == 50019 ==> control_label(ct) == Some("TabItem"@),
        ct == 50024 ==> control_label(ct) == Some("TreeItem"@),
        ct == 50029 ==> control_label(ct) == Some("DataItem"@),
        ct == 50031 ==> control_label(ct) == Some("SplitButton"@),
        ct == 50035 ==> control_label(ct) == Some("HeaderItem"@),
{
}

/// From the given place on every hint is labeled above, before it as it was; nothing else
/// of a hint changes.
pub proof fn law_raising_marks_the_rest(hints: Seq<HintModel>, from: int, i: int)
    requires
        0 <= i < hints.len(),
    ensures
        raised(hints, from).len() == hints.len(),
        raised(hints, from)[i].above == (hints[i].above || i >= from),
        raised(hints, from)[i] == (HintModel {
            above: raised(hints, from)[i].above,
            ..hints[i]
        }),
{
}

/// An element is a pane for the search of splitters exactly if it has the control type
/// 50033 and is at least 80 pixels wide and high; the pane is its rectangle.
pub proof fn law_large_panes_are_collected(control_type: Option<i32>, rect: Option<Rect>)
    ensures
        pane_of(control_type, rect) is Some <==> control_type == Some(50033i32) && (
        rect matches Some(r) && r.right - r.left >= 80 && r.bottom - r.top >= 80),
        pane_of(control_type, rect) is Some ==> pane_of(control_type, rect) == rect,
{
}

/// An element looks like a splitter exactly if it has an area and is either a separator
/// (control type 50038) or a bar at most 10 pixels thin and at least 40 long. A bar that is
/// wider than high is dragged up and down, another one sideways.
pub proof fn law_thin_bars_look_like_splitters(ct: i32, w: i32, h: i32)
    ensures
        splitter_like(ct, w, h) == splitter_like(ct, h, w),
        w <= h ==> (splitter_like(ct, w, h) <==> w > 0 && (ct == 50038 || (w <= 10 && h >= 40))),
        w >= h ==> drag_arrow(w, h).len() == 1 && drag_arrow(w, h)[0] as int == 0x2195,
        w < h ==> drag_arrow(w, h).len() == 1 && drag_arrow(w, h)[0] as int == 0x2194,
{
    reveal_strlit("↕");
    reveal_strlit("↔");
}

/// The taskbar, on any screen, the desktop behind the icons, in either of its two windows,
/// and the overlay itself are no application windows; every other window is one.
pub proof fn law_shell_windows_are_known(class: Seq<char>)
    ensures
        shell_class(class) <==> (class == "Shell_TrayWnd"@ || class == "Shell_SecondaryTrayWnd"@
            || class == "Progman"@ || class == "WorkerW"@ || class == "WinHintOverlay"@),
{
}

/// The window in front is scanned, unless there is none or it is the taskbar, the desktop or
/// the overlay: then it is the one that was scanned last.
pub proof fn law_window_in_front_is_scanned(last: isize, foreground: isize, class: Seq<char>)
    ensures
        ({
            let shell = class == "Shell_TrayWnd"@ || class == "Shell_SecondaryTrayWnd"@ || class
                == "Progman"@ || class == "WorkerW"@ || class == "WinHintOverlay"@;
            &&& foreground != 0 && !shell ==> window_chosen(last, foreground, class) == foreground
            &&& foreground == 0 || shell ==> window_chosen(last, foreground, class) == last
            &&& app_like(foreground, class) <==> foreground != 0 && !shell
        }),
{
}

} // verus!
