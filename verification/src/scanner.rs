//! What a scan keeps of the elements that it comes across.
//!
//! The scan itself, element by element over the accessibility tree, is driven
//! from outside (see [`crate::treewalk`]). Here it is decided which elements are
//! clickable, which panes can share an edge, and which window to scan.

use vstd::prelude::*;

use crate::geometry::{distance, halfway, midpoint, within, Rect};
use crate::text::same_text;

verus! {

/// Maximum depth to descend in a scan for clickable elements. Web documents nest
/// far deeper than native interfaces, so this is generous.
pub const MAX_DEPTH: usize = 32;

/// Most elements that a scan collects, over all scanned windows together.
pub const MAX_ELEMENTS: usize = 300;

/// Two centers less than this many pixels apart on each axis are the same hit.
pub const DEDUP_PX: i32 = 4;

/// Maximum depth of the walks that look for panes and of the diagnostic walks.
pub const MAX_RAW_DEPTH: usize = 30;

/// Most elements that such a walk visits.
pub const MAX_VISITED: usize = 5000;

/// Smallest pane (each axis) collected as a neighbor for a splitter.
pub const PANE_MIN_SIZE: i32 = 80;

/// A bar at most this thick on its short axis can be a splitter.
pub const SPLITTER_MAX_THIN: i32 = 10;

/// A bar at least this long on its long axis can be a splitter; filters out tiny
/// separators.
pub const SPLITTER_MIN_LONG: i32 = 40;

/// Control type numbers of the accessibility interface.
pub const UIA_BUTTON: i32 = 50000;

pub const UIA_CHECK_BOX: i32 = 50002;

pub const UIA_COMBO_BOX: i32 = 50003;

pub const UIA_EDIT: i32 = 50004;

pub const UIA_HYPERLINK: i32 = 50005;

pub const UIA_LIST_ITEM: i32 = 50007;

pub const UIA_MENU_ITEM: i32 = 50011;

pub const UIA_RADIO_BUTTON: i32 = 50013;

pub const UIA_TAB_ITEM: i32 = 50019;

pub const UIA_TREE_ITEM: i32 = 50024;

pub const UIA_DATA_ITEM: i32 = 50029;

pub const UIA_SPLIT_BUTTON: i32 = 50031;

pub const UIA_PANE: i32 = 50033;

pub const UIA_HEADER_ITEM: i32 = 50035;

pub const UIA_SEPARATOR: i32 = 50038;

/// A clickable element discovered during the scan.
pub struct Hint {
    /// Center X in physical screen pixels (click target).
    pub cx: i32,
    /// Center Y in physical screen pixels (click target).
    pub cy: i32,
    /// Top edge Y: where a label above the element sits.
    pub top: i32,
    /// Accessible name (may be empty).
    pub name: String,
    /// Short control-type label, such as "Button".
    pub control: &'static str,
    /// Render the hint label above the element instead of centered on it. Set
    /// for taskbar icons, which are small and would be covered.
    pub above: bool,
}

/// A clickable element as a mathematical value.
#[verifier::ext_equal]
pub struct HintModel {
    pub cx: i32,
    pub cy: i32,
    pub top: i32,
    pub name: Seq<char>,
    pub control: Seq<char>,
    pub above: bool,
}

impl View for Hint {
    type V = HintModel;

    open spec fn view(&self) -> HintModel {
        HintModel {
            cx: self.cx,
            cy: self.cy,
            top: self.top,
            name: self.name@,
            control: self.control@,
            above: self.above,
        }
    }
}

/// A list of clickable elements as mathematical values.
pub open spec fn models(hints: Seq<Hint>) -> Seq<HintModel> {
    Seq::new(hints.len(), |i: int| hints[i]@)
}

/// What was read of an element. Reading can fail, property by property: elements
/// go stale while they are walked.
pub struct Element {
    pub control_type: Option<i32>,
    pub rect: Option<Rect>,
    pub offscreen: Option<bool>,
    pub name: Option<String>,
}

// ---------------------------------------------------------------------------
// Clickable elements
// ---------------------------------------------------------------------------

/// The short label of a clickable control type.
pub open spec fn control_label(ct: i32) -> Option<Seq<char>> {
    if ct == UIA_BUTTON {
        Some("Button"@)
    } else if ct == UIA_EDIT {
        Some("Edit"@)
    } else if ct == UIA_HYPERLINK {
        Some("Hyperlink"@)
    } else if ct == UIA_CHECK_BOX {
        Some("CheckBox"@)
    } else if ct == UIA_COMBO_BOX {
        Some("ComboBox"@)
    } else if ct == UIA_LIST_ITEM {
        Some("ListItem"@)
    } else if ct == UIA_MENU_ITEM {
        Some("MenuItem"@)
    } else if ct == UIA_RADIO_BUTTON {
        Some("RadioButton"@)
    } else if ct == UIA_TAB_ITEM {
        Some("TabItem"@)
    } else if ct == UIA_TREE_ITEM {
        Some("TreeItem"@)
    } else if ct == UIA_DATA_ITEM {
        Some("DataItem"@)
    } else if ct == UIA_HEADER_ITEM {
        Some("HeaderItem"@)
    } else if ct == UIA_SPLIT_BUTTON {
        Some("SplitButton"@)
    } else {
        None
    }
}

/// Does the rectangle have an area?
pub open spec fn has_area(r: Rect) -> bool {
    r.left < r.right && r.top < r.bottom
}

/// Does the rectangle's center lie within the window?
pub open spec fn centered_in(r: Rect, window: Rect) -> bool {
    &&& window.left <= halfway(r.left as int, r.right as int) <= window.right
    &&& window.top <= halfway(r.top as int, r.bottom as int) <= window.bottom
}

/// Do the two hints sit on (nearly) the same pixel?
pub open spec fn same_spot(a: HintModel, b: HintModel) -> bool {
    distance(a.cx as int, b.cx as int) < DEDUP_PX && distance(a.cy as int, b.cy as int) < DEDUP_PX
}

/// Is the spot of `h` taken by a hint of the list?
pub open spec fn spot_taken(hints: Seq<HintModel>, h: HintModel) -> bool {
    exists|k: int| 0 <= k < hints.len() && same_spot(#[trigger] hints[k], h)
}

/// The hint that an element makes, if it is a clickable one that can be seen
/// within the window.
pub open spec fn hint_of(
    control_type: Option<i32>,
    rect: Option<Rect>,
    offscreen: Option<bool>,
    name: Option<Seq<char>>,
    window: Rect,
) -> Option<HintModel> {
    match (control_type, rect) {
        (Some(ct), Some(r)) => if control_label(ct) is Some && has_area(r) && centered_in(r, window)
            && offscreen != Some(true) {
            Some(
                HintModel {
                    cx: halfway(r.left as int, r.right as int) as i32,
                    cy: halfway(r.top as int, r.bottom as int) as i32,
                    top: r.top,
                    name: match name {
                        Some(n) => n,
                        None => Seq::empty(),
                    },
                    control: control_label(ct)->0,
                    above: false,
                },
            )
        } else {
            None
        },
        _ => None,
    }
}

/// The name of an element, if it was read.
pub open spec fn name_of(name: Option<String>) -> Option<Seq<char>> {
    match name {
        Some(n) => Some(n@),
        None => None,
    }
}

/// The list of hints after an element was looked at.
pub open spec fn considered(
    control_type: Option<i32>,
    rect: Option<Rect>,
    offscreen: Option<bool>,
    name: Option<Seq<char>>,
    window: Rect,
    hints: Seq<HintModel>,
) -> Seq<HintModel> {
    match hint_of(control_type, rect, offscreen, name, window) {
        Some(h) => if spot_taken(hints, h) {
            hints
        } else {
            hints.push(h)
        },
        None => hints,
    }
}

/// Map a control type to a short label, or `None` if it is not clickable.
pub fn clickable_label(ct: i32) -> (label: Option<&'static str>)
    ensures
        (match label {
            Some(text) => Some(text@),
            None => None,
        }) == control_label(ct),
{
    match ct {
        UIA_BUTTON => Some("Button"),
        UIA_EDIT => Some("Edit"),
        UIA_HYPERLINK => Some("Hyperlink"),
        UIA_CHECK_BOX => Some("CheckBox"),
        UIA_COMBO_BOX => Some("ComboBox"),
        UIA_LIST_ITEM => Some("ListItem"),
        UIA_MENU_ITEM => Some("MenuItem"),
        UIA_RADIO_BUTTON => Some("RadioButton"),
        UIA_TAB_ITEM => Some("TabItem"),
        UIA_TREE_ITEM => Some("TreeItem"),
        UIA_DATA_ITEM => Some("DataItem"),
        UIA_HEADER_ITEM => Some("HeaderItem"),
        UIA_SPLIT_BUTTON => Some("SplitButton"),
        _ => None,
    }
}

/// Is there a hint within [`DEDUP_PX`] of the point, on each axis?
fn is_taken(hints: &Vec<Hint>, cx: i32, cy: i32) -> (taken: bool)
    ensures
        taken == exists|k: int|
            0 <= k < models(hints@).len() && distance(
                (#[trigger] models(hints@)[k]).cx as int,
                cx as int,
            ) < DEDUP_PX && distance(models(hints@)[k].cy as int, cy as int) < DEDUP_PX,
{
    let mut k: usize = 0;
    while k < hints.len()
        invariant
            k <= hints@.len(),
            forall|j: int|
                0 <= j < k ==> !(distance((#[trigger] models(hints@)[j]).cx as int, cx as int)
                    < DEDUP_PX && distance(models(hints@)[j].cy as int, cy as int) < DEDUP_PX),
        decreases hints@.len() - k,
    {
        if within(hints[k].cx, cx, DEDUP_PX - 1) && within(hints[k].cy, cy, DEDUP_PX - 1) {
            assert(models(hints@)[k as int].cx == hints@[k as int].cx);
            return true;
        }
        k += 1;
    }
    false
}

/// Evaluate a single element and add it to `out` if it is a visible clickable
/// within the window, and not at the spot of one that is already there.
pub fn consider(element: Element, win_rect: &Rect, out: &mut Vec<Hint>)
    ensures
        models(final(out)@) == considered(
            element.control_type,
            element.rect,
            element.offscreen,
            name_of(element.name),
            *win_rect,
            models(old(out)@),
        ),
{
    let ghost before = out@;
    let ct: i32 = match element.control_type {
        Some(ct) => ct,
        None => {
            return;
        },
    };
    let control: &'static str = match clickable_label(ct) {
        Some(label) => label,
        None => {
            return;
        },
    };
    let rect: Rect = match element.rect {
        Some(rect) => rect,
        None => {
            return;
        },
    };
    if rect.right <= rect.left || rect.bottom <= rect.top {
        return;
    }
    let cx: i32 = midpoint(rect.left, rect.right);
    let cy: i32 = midpoint(rect.top, rect.bottom);
    if cx < win_rect.left || cx > win_rect.right || cy < win_rect.top || cy > win_rect.bottom {
        return;
    }
    // Scrolled out of view or covered.
    if element.offscreen == Some(true) {
        return;
    }
    if is_taken(out, cx, cy) {
        return;
    }
    let name: String = match element.name {
        Some(name) => name,
        None => String::new(),
    };
    out.push(Hint { cx, cy, top: rect.top, name, control, above: false });
    assert(models(out@) =~= models(before).push(out@.last()@));
}

/// The hints with those from position `from` on marked to be labeled above.
pub open spec fn raised(hints: Seq<HintModel>, from: int) -> Seq<HintModel> {
    Seq::new(
        hints.len(),
        |i: int|
            if i < from {
                hints[i]
            } else {
                HintModel { above: true, ..hints[i] }
            },
    )
}

/// Mark the hints from position `from` on as labeled above. The taskbar sits at
/// the screen edge and its icons are small, so labels go above them.
pub fn mark_above(hints: &mut Vec<Hint>, from: usize)
    ensures
        models(final(hints)@) == raised(models(old(hints)@), from as int),
{
    let ghost before = models(hints@);
    let mut i: usize = from;
    while i < hints.len()
        invariant
            models(hints@).len() == before.len(),
            from <= i,
            forall|k: int|
                #![trigger models(hints@)[k]]
                0 <= k < before.len() ==> models(hints@)[k] == (if from <= k < i {
                    HintModel { above: true, ..before[k] }
                } else {
                    before[k]
                }),
        decreases hints@.len() - i,
    {
        let ghost prior = hints@;
        hints[i].above = true;
        assert forall|k: int| 0 <= k < before.len() implies #[trigger] models(hints@)[k] == (if from
            <= k < i + 1 {
            HintModel { above: true, ..before[k] }
        } else {
            before[k]
        }) by {
            assert(models(prior)[k] == (if from <= k < i {
                HintModel { above: true, ..before[k] }
            } else {
                before[k]
            }));
            if k == i {
                assert(hints@[k]@ == (HintModel { above: true, ..prior[k]@ }));
            } else {
                assert(hints@[k] == prior[k]);
            }
        }
        i += 1;
    }
    assert(models(hints@) =~= raised(before, from as int));
}

/// Has the scan collected as many elements as it may?
pub fn scan_full(out: &Vec<Hint>) -> (full: bool)
    ensures
        full == (out@.len() >= MAX_ELEMENTS),
{
    out.len() >= MAX_ELEMENTS
}

// ---------------------------------------------------------------------------
// Panes and splitters
// ---------------------------------------------------------------------------

/// The rectangle of an element that is a sizeable pane.
pub open spec fn pane_of(control_type: Option<i32>, rect: Option<Rect>) -> Option<Rect> {
    match (control_type, rect) {
        (Some(ct), Some(r)) => if ct == UIA_PANE && r.spans_at_least(PANE_MIN_SIZE as int) {
            Some(r)
        } else {
            None
        },
        _ => None,
    }
}

/// The rectangle of an element that is a sizeable pane; `None` for any other
/// element, and where a property could not be read.
pub fn pane_rect(control_type: Option<i32>, rect: Option<Rect>) -> (pane: Option<Rect>)
    ensures
        pane == pane_of(control_type, rect),
{
    match (control_type, rect) {
        (Some(ct), Some(r)) => if ct == UIA_PANE && r.at_least(PANE_MIN_SIZE) {
            Some(r)
        } else {
            None
        },
        _ => None,
    }
}

/// Can an element of this type and size be a splitter bar?
pub open spec fn splitter_like(ct: i32, w: i32, h: i32) -> bool {
    &&& w > 0
    &&& h > 0
    &&& ct == UIA_SEPARATOR || ({
        &&& w <= SPLITTER_MAX_THIN || h <= SPLITTER_MAX_THIN
        &&& w >= SPLITTER_MIN_LONG || h >= SPLITTER_MIN_LONG
    })
}

/// The arrow for the way a bar of this size is dragged: a wide one up and down, a
/// tall one left and right.
pub open spec fn drag_arrow(w: i32, h: i32) -> Seq<char> {
    if w >= h {
        "↕"@
    } else {
        "↔"@
    }
}

/// Classify an element as a splitter candidate from its control type and size: a
/// separator or a thin bar. Gives the arrow for the way it is dragged, or `None`
/// if it is not one.
pub fn splitter_orientation(ct: i32, w: i32, h: i32) -> (arrow: Option<&'static str>)
    ensures
        (match arrow {
            Some(text) => Some(text@),
            None => None,
        }) == (if splitter_like(ct, w, h) {
            Some(drag_arrow(w, h))
        } else {
            None
        }),
{
    if w <= 0 || h <= 0 {
        return None;
    }
    let thin: i32 = if w < h {
        w
    } else {
        h
    };
    let long: i32 = if w < h {
        h
    } else {
        w
    };
    let thin_bar: bool = thin <= SPLITTER_MAX_THIN && long >= SPLITTER_MIN_LONG;
    if ct != UIA_SEPARATOR && !thin_bar {
        return None;
    }
    if w >= h {
        Some("↕")
    } else {
        Some("↔")
    }
}

// ---------------------------------------------------------------------------
// The window to scan
// ---------------------------------------------------------------------------

/// Is this the window class of the taskbar, the desktop or our own overlay?
pub open spec fn shell_class(class: Seq<char>) -> bool {
    ||| class == "Shell_TrayWnd"@
    ||| class == "Shell_SecondaryTrayWnd"@
    ||| class == "Progman"@
    ||| class == "WorkerW"@
    ||| class == "WinHintOverlay"@
}

/// Is the window (0 for none) a normal application window?
pub open spec fn app_like(hwnd: isize, class: Seq<char>) -> bool {
    hwnd != 0 && !shell_class(class)
}

/// The window to scan, with `last` remembered: the foreground window if it is a normal
/// application window, else the one remembered.
pub open spec fn window_chosen(last: isize, foreground: isize, class: Seq<char>) -> isize {
    if app_like(foreground, class) {
        foreground
    } else {
        last
    }
}

/// Is the window (0 for none) a normal application window: there is one, and its
/// class is not that of a shell surface or of our own overlay?
pub fn is_app_window(hwnd: isize, class: &str) -> (yes: bool)
    ensures
        yes == (hwnd != 0 && !shell_class(class@)),
        yes == app_like(hwnd, class@),
{
    if hwnd == 0 {
        return false;
    }
    !(same_text(class, "Shell_TrayWnd") || same_text(class, "Shell_SecondaryTrayWnd") || same_text(
        class,
        "Progman",
    ) || same_text(class, "WorkerW") || same_text(class, "WinHintOverlay"))
}

/// Choose the window to scan: the foreground window if it is a normal application
/// window, which is then remembered; else the one remembered last (0 for none).
pub fn app_window(last: &mut isize, foreground: isize, class: &str) -> (hwnd: isize)
    ensures
        foreground != 0 && !shell_class(class@) ==> hwnd == foreground && *final(last)
            == foreground,
        foreground == 0 || shell_class(class@) ==> hwnd == *old(last) && *final(last) == *old(last),
        hwnd == window_chosen(*old(last), foreground, class@),
        *final(last) == window_chosen(*old(last), foreground, class@),
{
    if is_app_window(foreground, class) {
        *last = foreground;
        foreground
    } else {
        *last
    }
}

/// The window that a resize would act on, or `None` when there is no application
/// window.
pub fn target_window(hwnd: isize) -> (target: Option<isize>)
    ensures
        target == (if hwnd == 0 {
            None
        } else {
            Some(hwnd)
        }),
{
    if hwnd == 0 {
        None
    } else {
        Some(hwnd)
    }
}

} // verus!
