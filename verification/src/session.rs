//! The overlay's state and what every intent does to it.
//!
//! The state is owned by the window procedure; nothing here touches a window.
//! [`dispatch`] takes an intent, changes the state, and says what is to be done
//! outside. Where the outside has to be asked first (the scan of a window, the
//! rectangle of the window to resize), it says so, and [`activate`] or
//! [`enter_resize`] take the answer.

use vstd::prelude::*;

use crate::geometry::{fits, Rect};
use crate::handle_labels::{
    handle_from_label, labeled_handle, labeled_splitter, splitter_from_label, MAX_SPLITTERS,
};
use crate::hints::{label_at, label_count, labels};
use crate::hotkey::{set_active, set_resize_active, HookState, VK_BACK};
use crate::matching::{
    bottom_section, entries, entry_at_cursor, exact_hint, exact_index, ints,
    lemma_indices_in_range, mode_after, order_matches, shown_by_code, shown_by_name,
    top_section, visible, wrap_index, EntryModel, HintEntry, Mode,
};
use crate::message::Intent;
use crate::resize::{apply_handle_move, can_move, move_fits, moved, Handle, MIN_HEIGHT, MIN_WIDTH};
use crate::scanner::{models, Hint, HintModel};
use crate::splitter::{
    apply_drag, boundaries_of, drag_component, drag_point, dragged, find_boundaries, grip,
    Boundary, Orientation,
};
use crate::text::{lowered, to_lower};

verus! {

/// What an arrow press moves in resize mode: nothing yet, one of the eight window
/// handles, or a pane splitter (by index).
#[derive(Clone, Copy, PartialEq, Eq, Debug, Structural)]
pub enum ResizeSelection {
    Nothing,
    Window(Handle),
    Splitter(usize),
}

/// An active resize session.
pub struct ResizeState {
    /// The window being resized.
    pub target: isize,
    /// Its rectangle when resize mode was entered: restored on Esc.
    pub orig_rect: Rect,
    /// Its rectangle now.
    pub current_rect: Rect,
    /// Pane splitters found on entry; `coord` follows each drag.
    pub splitters: Vec<Boundary>,
    /// What is grabbed.
    pub selection: ResizeSelection,
}

/// The overlay's top-level mode.
pub enum UiState {
    Idle,
    Hints,
    Resize(ResizeState),
}

/// The overlay's state.
pub struct App {
    /// Which top-level mode the overlay is in.
    pub state: UiState,
    /// The keystroke buffer; interpreted per `mode`.
    pub typed: String,
    /// Current matching mode (kept across activations).
    pub mode: Mode,
    /// Cursor into the ordered visible list (what Enter acts on). Back to 0
    /// whenever the result set changes.
    pub selected: usize,
    pub hints: Vec<HintEntry>,
}

/// A resize session as a mathematical value.
#[verifier::ext_equal]
pub struct ResizeModel {
    pub target: isize,
    pub orig_rect: Rect,
    pub current_rect: Rect,
    pub splitters: Seq<Boundary>,
    pub selection: ResizeSelection,
}

/// The top-level mode as a mathematical value.
#[verifier::ext_equal]
pub enum UiModel {
    Idle,
    Hints,
    Resize(ResizeModel),
}

/// The overlay's state as a mathematical value.
#[verifier::ext_equal]
pub struct AppModel {
    pub state: UiModel,
    pub typed: Seq<char>,
    pub mode: Mode,
    pub selected: int,
    pub hints: Seq<EntryModel>,
}

/// Where to put a window.
#[derive(Clone, Copy, PartialEq, Eq, Debug, Structural)]
pub struct Placement {
    pub target: isize,
    pub x: i32,
    pub y: i32,
    pub width: i32,
    pub height: i32,
}

/// What is to be done outside after an intent.
#[derive(Clone, Copy, PartialEq, Eq, Debug)]
pub enum Action {
    /// Nothing.
    Nothing,
    /// Scan the foreground window and hand the result to [`activate`].
    Scan,
    /// Find the window to resize, its rectangle and its panes, and hand them to
    /// [`enter_resize`].
    FindTarget,
    /// Draw hint mode again.
    RedrawHints,
    /// Hide the overlay, then click the point.
    Click { x: i32, y: i32, right: bool },
    /// Hide the overlay.
    Hide,
    /// Draw resize mode again.
    RedrawResize,
    /// Move and size the window, then draw resize mode again; if that fails, the
    /// window is gone: [`exit_resize`] without restoring.
    MoveWindow(Placement),
    /// Drag the mouse, then draw resize mode again.
    Drag { from: (i32, i32), to: (i32, i32) },
    /// Put the window back where it was, if there is a placement, and hide the
    /// overlay.
    LeaveResize(Option<Placement>),
    /// Quit.
    Quit,
}

impl ResizeState {
    /// The session as a mathematical value.
    pub open spec fn model(&self) -> ResizeModel {
        ResizeModel {
            target: self.target,
            orig_rect: self.orig_rect,
            current_rect: self.current_rect,
            splitters: self.splitters@,
            selection: self.selection,
        }
    }
}

impl View for App {
    type V = AppModel;

    open spec fn view(&self) -> AppModel {
        AppModel {
            state: match self.state {
                UiState::Idle => UiModel::Idle,
                UiState::Hints => UiModel::Hints,
                UiState::Resize(rs) => UiModel::Resize(rs.model()),
            },
            typed: self.typed@,
            mode: self.mode,
            selected: self.selected as int,
            hints: entries(self.hints@),
        }
    }
}

impl ResizeModel {
    /// At most [`MAX_SPLITTERS`] splitters have labels, a grabbed splitter is one
    /// of them, and both rectangles have sizes that fit a coordinate.
    pub open spec fn wf(self) -> bool {
        &&& self.splitters.len() <= MAX_SPLITTERS
        &&& self.selection matches ResizeSelection::Splitter(i) ==> i < self.splitters.len()
        &&& self.orig_rect.measurable()
        &&& self.current_rect.measurable()
    }
}

impl AppModel {
    /// A resize session, where there is one, is well formed.
    pub open spec fn wf(self) -> bool {
        self.state matches UiModel::Resize(rs) ==> rs.wf()
    }

    /// Is the overlay showing anything?
    pub open spec fn active(self) -> bool {
        !(self.state is Idle)
    }

    /// Back to idle with an empty buffer; the rest stays, the mode in particular.
    pub open spec fn put_away(self) -> AppModel {
        AppModel { state: UiModel::Idle, typed: Seq::empty(), ..self }
    }
}

// ---------------------------------------------------------------------------
// Hint mode
// ---------------------------------------------------------------------------

/// The character that a key contributes to a text: a letter in lower case, a
/// digit, or a space.
pub open spec fn char_of_key(vk: u32) -> Option<char> {
    if 0x41 <= vk <= 0x5A {
        Some((vk + 32) as char)
    } else if 0x30 <= vk <= 0x39 {
        Some(vk as char)
    } else if vk == 0x20 {
        Some(' ')
    } else {
        None
    }
}

/// The visible entries of the state, in order.
pub open spec fn shown(m: AppModel) -> Seq<int> {
    visible(m.hints, m.mode, m.typed)
}

/// The entry that Enter acts on.
pub open spec fn enter_entry(m: AppModel) -> Option<int> {
    entry_at_cursor(shown(m), m.selected)
}

/// The cursor one further down or up a list of `n`, around both ends.
pub open spec fn wrapped(cursor: int, n: int, down: bool) -> int {
    if n == 0 {
        0
    } else if down {
        (cursor + 1) % n
    } else {
        (cursor + n - 1) % n
    }
}

/// Click entry `i`: the overlay is put away first.
pub open spec fn clicked(m: AppModel, i: int, right: bool) -> (AppModel, Action) {
    (m.put_away(), Action::Click { x: m.hints[i].x, y: m.hints[i].y, right })
}

/// A text key in hint mode.
pub open spec fn after_key(m: AppModel, vk: u32, shift: bool) -> (AppModel, Action) {
    if vk == VK_BACK {
        let typed = if m.typed.len() > 0 {
            m.typed.drop_last()
        } else {
            m.typed
        };
        (AppModel { typed, selected: 0, ..m }, Action::RedrawHints)
    } else {
        match char_of_key(vk) {
            None => (m, Action::Nothing),
            Some(c) => if m.mode is Hints && !('a' <= c <= 'z') {
                (m, Action::Nothing)
            } else {
                let typed = m.typed.push(c);
                let more = AppModel { typed, ..m };
                match exact_index(m.hints, typed) {
                    Some(i) => if m.mode is Hints {
                        clicked(more, i, shift)
                    } else {
                        (AppModel { selected: 0, ..more }, Action::RedrawHints)
                    },
                    None => (AppModel { selected: 0, ..more }, Action::RedrawHints),
                }
            },
        }
    }
}

/// An arrow key in hint mode.
pub open spec fn after_nav(m: AppModel, down: bool) -> (AppModel, Action) {
    if m.typed.len() == 0 {
        (m, Action::Nothing)
    } else {
        (
            AppModel { selected: wrapped(m.selected, shown(m).len() as int, down), ..m },
            Action::RedrawHints,
        )
    }
}

/// Enter in hint mode.
pub open spec fn after_confirm(m: AppModel, shift: bool) -> (AppModel, Action) {
    if m.typed.len() == 0 {
        (m, Action::Nothing)
    } else {
        match enter_entry(m) {
            Some(i) => clicked(m, i, shift),
            None => (m, Action::Nothing),
        }
    }
}

/// Tab in hint mode.
pub open spec fn after_tab(m: AppModel) -> (AppModel, Action) {
    (AppModel { mode: mode_after(m.mode), selected: 0, ..m }, Action::RedrawHints)
}

// ---------------------------------------------------------------------------
// Resize mode
// ---------------------------------------------------------------------------

/// The step of one arrow press: coarse, or fine with Shift.
pub open spec fn step_size(shift: bool) -> int {
    if shift {
        1
    } else {
        8
    }
}

/// The placement of a rectangle.
pub open spec fn placed(target: isize, r: Rect) -> Placement {
    Placement {
        target,
        x: r.left,
        y: r.top,
        width: r.spec_width() as i32,
        height: r.spec_height() as i32,
    }
}

/// The window's rectangle after a handle moved.
pub open spec fn resized(r: Rect, handle: Handle, dx: int, dy: int) -> Rect {
    moved(r, handle, dx, dy, MIN_WIDTH as int, MIN_HEIGHT as int)
}

/// Can the arrow press be carried out with coordinates that fit?
pub open spec fn nav_fits(rs: ResizeModel, dx: int, dy: int) -> bool {
    match rs.selection {
        ResizeSelection::Nothing => true,
        ResizeSelection::Window(handle) => {
            &&& move_fits(rs.current_rect, handle, dx, dy, MIN_WIDTH as int, MIN_HEIGHT as int)
            &&& resized(rs.current_rect, handle, dx, dy).measurable()
        },
        ResizeSelection::Splitter(i) => {
            let b = rs.splitters[i as int];
            drag_component(b.orientation, dx, dy) != 0 ==> {
                &&& fits(b.coord + drag_component(b.orientation, dx, dy))
                &&& fits(grip(b).0 + dx)
                &&& fits(grip(b).1 + dy)
            }
        },
    }
}

/// A label key in resize mode: it grabs a handle or a splitter, or is ignored.
pub open spec fn after_resize_key(m: AppModel, rs: ResizeModel, vk: u32) -> (AppModel, Action) {
    match char_of_key(vk) {
        None => (m, Action::Nothing),
        Some(c) => match (labeled_handle(c), labeled_splitter(c, rs.splitters.len() as int)) {
            (Some(handle), _) => (
                AppModel {
                    state: UiModel::Resize(
                        ResizeModel { selection: ResizeSelection::Window(handle), ..rs },
                    ),
                    ..m
                },
                Action::RedrawResize,
            ),
            (None, Some(i)) => (
                AppModel {
                    state: UiModel::Resize(
                        ResizeModel { selection: ResizeSelection::Splitter(i as usize), ..rs },
                    ),
                    ..m
                },
                Action::RedrawResize,
            ),
            (None, None) => (m, Action::Nothing),
        },
    }
}

/// An arrow key in resize mode moves what is grabbed by `(dx, dy)`. A splitter
/// only follows the arrows across its bar.
pub open spec fn after_resize_nav(m: AppModel, rs: ResizeModel, dx: int, dy: int) -> (
    AppModel,
    Action,
) {
    match rs.selection {
        ResizeSelection::Nothing => (m, Action::Nothing),
        ResizeSelection::Window(handle) => {
            let rect = resized(rs.current_rect, handle, dx, dy);
            (
                AppModel {
                    state: UiModel::Resize(ResizeModel { current_rect: rect, ..rs }),
                    ..m
                },
                Action::MoveWindow(placed(rs.target, rect)),
            )
        },
        ResizeSelection::Splitter(i) => {
            let b = rs.splitters[i as int];
            if drag_component(b.orientation, dx, dy) == 0 {
                (m, Action::Nothing)
            } else {
                let (x, y) = grip(b);
                (
                    AppModel {
                        state: UiModel::Resize(
                            ResizeModel {
                                splitters: rs.splitters.update(i as int, dragged(b, dx, dy)),
                                ..rs
                            },
                        ),
                        ..m
                    },
                    Action::Drag {
                        from: (x as i32, y as i32),
                        to: ((x + dx) as i32, (y + dy) as i32),
                    },
                )
            }
        },
    }
}

/// Leaving resize mode; `restore` puts the window back.
pub open spec fn after_exit_resize(m: AppModel, rs: ResizeModel, restore: bool) -> (
    AppModel,
    Action,
) {
    (
        m.put_away(),
        Action::LeaveResize(
            if restore {
                Some(placed(rs.target, rs.orig_rect))
            } else {
                None
            },
        ),
    )
}

// ---------------------------------------------------------------------------
// All intents
// ---------------------------------------------------------------------------

/// The horizontal and vertical distance that an arrow intent asks for.
pub open spec fn arrow(intent: Intent) -> (int, int) {
    match intent {
        Intent::Nav { down, shift } => (
            0,
            if down {
                step_size(shift)
            } else {
                -step_size(shift)
            },
        ),
        Intent::NavH { right, shift } => (
            if right {
                step_size(shift)
            } else {
                -step_size(shift)
            },
            0,
        ),
        _ => (0, 0),
    }
}

/// What an intent does in hint mode.
pub open spec fn step_in_hints(m: AppModel, intent: Intent) -> (AppModel, Action) {
    match intent {
        Intent::Show => (m, Action::Nothing),
        Intent::Resize => (m, Action::FindTarget),
        Intent::Key { vk, shift } => after_key(m, vk, shift),
        Intent::Confirm { shift } => after_confirm(m, shift),
        Intent::Tab => after_tab(m),
        Intent::Nav { down, .. } => after_nav(m, down),
        Intent::NavH { .. } => (m, Action::Nothing),
        Intent::Cancel => (m.put_away(), Action::Hide),
        Intent::Quit => (m, Action::Quit),
    }
}

/// What an intent does in resize mode.
pub open spec fn step_in_resize(m: AppModel, rs: ResizeModel, intent: Intent) -> (
    AppModel,
    Action,
) {
    match intent {
        Intent::Key { vk, .. } => after_resize_key(m, rs, vk),
        Intent::Confirm { .. } => after_exit_resize(m, rs, false),
        Intent::Nav { .. } | Intent::NavH { .. } => after_resize_nav(
            m,
            rs,
            arrow(intent).0,
            arrow(intent).1,
        ),
        Intent::Cancel => after_exit_resize(m, rs, true),
        Intent::Quit => (m, Action::Quit),
        Intent::Show | Intent::Resize | Intent::Tab => (m, Action::Nothing),
    }
}

/// What an intent does.
pub open spec fn step(m: AppModel, intent: Intent) -> (AppModel, Action) {
    match m.state {
        UiModel::Idle => match intent {
            Intent::Show => (m, Action::Scan),
            Intent::Cancel => (m.put_away(), Action::Hide),
            Intent::Quit => (m, Action::Quit),
            _ => (m, Action::Nothing),
        },
        UiModel::Hints => step_in_hints(m, intent),
        UiModel::Resize(rs) => step_in_resize(m, rs, intent),
    }
}

/// Can the intent be carried out with coordinates that fit? Only an arrow key in
/// resize mode computes any.
pub open spec fn intent_fits(m: AppModel, intent: Intent) -> bool {
    intent is Nav || intent is NavH ==> {
        m.state matches UiModel::Resize(rs) ==> nav_fits(rs, arrow(intent).0, arrow(intent).1)
    }
}

// ---------------------------------------------------------------------------
// Activation
// ---------------------------------------------------------------------------

/// The hint target that a scanned element becomes.
pub open spec fn labeled(h: HintModel, label: Seq<char>) -> EntryModel {
    EntryModel { label, x: h.cx, y: h.cy, top: h.top, above: h.above, name: lowered(h.name) }
}

/// The hint targets that scanned elements become, as far as there are labels.
pub open spec fn labeled_all(scanned: Seq<HintModel>) -> Seq<EntryModel> {
    Seq::new(
        label_count(scanned.len() as int) as nat,
        |i: int| labeled(scanned[i], label_at(scanned.len() as int, i)),
    )
}

/// The state with new hints on hand, before the overlay is shown.
pub open spec fn loaded(m: AppModel, scanned: Seq<HintModel>) -> AppModel {
    AppModel { typed: Seq::empty(), selected: 0, hints: labeled_all(scanned), ..m }
}

/// The state after a scan, and whether there is something to show: with nothing scanned, or
/// while the overlay is up, nothing changes.
pub open spec fn after_scan(m: AppModel, scanned: Seq<HintModel>) -> (AppModel, bool) {
    if m.active() || scanned.len() == 0 {
        (m, false)
    } else {
        (loaded(m, scanned), true)
    }
}

/// The splitters that get a label: the first ones.
pub open spec fn labeled_splitters(panes: Seq<Rect>) -> Seq<Boundary> {
    let found = boundaries_of(panes);
    if found.len() > MAX_SPLITTERS {
        found.take(MAX_SPLITTERS as int)
    } else {
        found
    }
}

/// The state when a resize session begins.
pub open spec fn resize_begun(m: AppModel, target: isize, rect: Rect, panes: Seq<Rect>) -> AppModel {
    AppModel {
        state: UiModel::Resize(
            ResizeModel {
                target,
                orig_rect: rect,
                current_rect: rect,
                splitters: labeled_splitters(panes),
                selection: ResizeSelection::Nothing,
            },
        ),
        typed: Seq::empty(),
        ..m
    }
}

/// The state after a window to resize was looked for, and whether a session began: only out
/// of hint mode, and only with a window and its rectangle.
pub open spec fn after_search(
    m: AppModel,
    target: Option<isize>,
    rect: Option<Rect>,
    panes: Seq<Rect>,
) -> (AppModel, bool) {
    match (m.state, target, rect) {
        (UiModel::Hints, Some(target), Some(rect)) => (
            resize_begun(m, target, rect, panes),
            true,
        ),
        _ => (m, false),
    }
}

/// What the hook is told of the state.
pub open spec fn hook_told(m: AppModel, hook: HookState) -> HookState {
    HookState { active: m.active(), resize_active: m.state is Resize, ..hook }
}

impl App {
    /// The state at startup.
    pub fn new() -> (app: App)
        ensures
            app@ == (AppModel {
                state: UiModel::Idle,
                typed: Seq::empty(),
                mode: Mode::Both,
                selected: 0,
                hints: Seq::empty(),
            }),
            app@.wf(),
    {
        let app = App {
            state: UiState::Idle,
            typed: String::new(),
            mode: Mode::Both,
            selected: 0,
            hints: Vec::new(),
        };
        assert(app@.hints =~= Seq::empty());
        app
    }

    /// Is the overlay showing anything (hint or resize)?
    pub fn is_active(&self) -> (yes: bool)
        ensures
            yes == self@.active(),
    {
        !matches!(self.state, UiState::Idle)
    }
}

/// Map a virtual-key code to the character it contributes to a text (lower-case
/// letters, digits, space), if any.
pub fn text_char(vk: u32) -> (c: Option<char>)
    ensures
        c == char_of_key(vk),
{
    match vk {
        0x41..=0x5A => Some((97u8 + (vk - 0x41) as u8) as char),
        0x30..=0x39 => Some((48u8 + (vk - 0x30) as u8) as char),
        0x20 => Some(' '),
        _ => None,
    }
}

/// Step size for one arrow press while resizing: a coarse 8 pixels, or a fine one
/// when Shift is held.
pub fn resize_step(shift: bool) -> (step: i32)
    ensures
        step == step_size(shift),
{
    if shift {
        1
    } else {
        8
    }
}

/// The ordered visible list of the state. An empty buffer matches everything.
pub fn ordered_visible(app: &App) -> (ordered: Vec<usize>)
    ensures
        ints(ordered@) == shown(app@),
{
    order_matches(app.hints.as_slice(), app.mode, &app.typed)
}

/// The element that Enter acts on: the currently selected row. `None` if nothing
/// matches.
pub fn enter_target(app: &App) -> (target: Option<usize>)
    ensures
        (match target {
            Some(i) => Some(i as int),
            None => None,
        }) == enter_entry(app@),
{
    let ordered: Vec<usize> = ordered_visible(app);
    if ordered.len() == 0 {
        return None;
    }
    let last: usize = ordered.len() - 1;
    let at: usize = if app.selected < last {
        app.selected
    } else {
        last
    };
    assert(ints(ordered@)[at as int] == ordered@[at as int]);
    Some(ordered[at])
}

/// Leave hint mode. The matching mode is kept; the keystroke buffer is cleared.
pub fn deactivate(app: &mut App)
    ensures
        final(app)@ == old(app)@.put_away(),
{
    app.state = UiState::Idle;
    app.typed.clear();
}

/// Click the element `hints[idx]`: the overlay is put away first, so that it is
/// hidden before the click lands. Shift makes it a right-click.
pub fn do_click(app: &mut App, idx: usize, shift: bool) -> (action: Action)
    requires
        idx < old(app)@.hints.len(),
    ensures
        (final(app)@, action) == clicked(old(app)@, idx as int, shift),
{
    let x: i32 = app.hints[idx].x;
    let y: i32 = app.hints[idx].y;
    deactivate(app);
    Action::Click { x, y, right: shift }
}

/// Handle a text key in hint mode. Only the mode that reads codes alone clicks as
/// soon as a hint label is complete: elsewhere a search word may begin like a
/// hint code, so there it takes Enter.
pub fn handle_key(app: &mut App, vk: u32, shift: bool) -> (action: Action)
    ensures
        (final(app)@, action) == after_key(old(app)@, vk, shift),
{
    let ghost before = app@;
    if vk == VK_BACK {
        let _ = app.typed.pop();
        app.selected = 0;
        assert(app@.hints =~= before.hints);
        return Action::RedrawHints;
    }
    let c: char = match text_char(vk) {
        Some(c) => c,
        None => {
            return Action::Nothing;
        },
    };
    let codes_only: bool = app.mode == Mode::Hints;
    if codes_only && !('a' <= c && c <= 'z') {
        return Action::Nothing;
    }
    app.typed.push(c);
    proof {
        lemma_exact_in_range(app@.hints, app@.typed);
    }
    if codes_only {
        match exact_hint(app.hints.as_slice(), &app.typed) {
            Some(idx) => {
                return do_click(app, idx, shift);
            },
            None => {},
        }
    }
    app.selected = 0;
    Action::RedrawHints
}

/// The index of an exact match lies within the list.
pub proof fn lemma_exact_in_range(hints: Seq<EntryModel>, typed: Seq<char>)
    ensures
        exact_index(hints, typed) matches Some(i) ==> 0 <= i < hints.len() && hints[i].label
            == typed,
    decreases hints.len(),
{
    if hints.len() > 0 {
        lemma_exact_in_range(hints.drop_last(), typed);
    }
}

/// Visible entries lie within the list.
pub proof fn lemma_visible_in_range(hints: Seq<EntryModel>, mode: Mode, typed: Seq<char>)
    ensures
        forall|k: int|
            0 <= k < visible(hints, mode, typed).len() ==> 0 <= #[trigger] visible(
                hints,
                mode,
                typed,
            )[k] < hints.len(),
{
    lemma_indices_in_range(hints, |e: EntryModel| shown_by_code(mode, typed, e));
    lemma_indices_in_range(hints, |e: EntryModel| shown_by_name(mode, typed, e));
    let top = top_section(hints, mode, typed);
    let bottom = bottom_section(hints, mode, typed);
    assert forall|k: int| 0 <= k < visible(hints, mode, typed).len() implies 0
        <= #[trigger] visible(hints, mode, typed)[k] < hints.len() by {
        if k < top.len() {
            assert((top + bottom)[k] == top[k]);
        } else {
            assert((top + bottom)[k] == bottom[k - top.len()]);
        }
    }
}

/// Handle an arrow key (Up or Down) over the visible list, wrapping around both
/// ends. Does nothing while the list is hidden (nothing typed).
pub fn handle_nav(app: &mut App, down: bool) -> (action: Action)
    ensures
        (final(app)@, action) == after_nav(old(app)@, down),
{
    if app.typed.as_str().is_empty() {
        return Action::Nothing;
    }
    let ordered: Vec<usize> = ordered_visible(app);
    assert(ints(ordered@).len() == ordered@.len());
    app.selected = wrap_index(app.selected, ordered.len(), down);
    Action::RedrawHints
}

/// Handle Enter: click the selected match (Shift: right-click). With nothing
/// typed it does nothing, so that a bare Enter never clicks some first element.
pub fn handle_confirm(app: &mut App, shift: bool) -> (action: Action)
    ensures
        (final(app)@, action) == after_confirm(old(app)@, shift),
{
    if app.typed.as_str().is_empty() {
        return Action::Nothing;
    }
    proof {
        lemma_visible_in_range(app@.hints, app@.mode, app@.typed);
    }
    match enter_target(app) {
        Some(idx) => do_click(app, idx, shift),
        None => Action::Nothing,
    }
}

/// Handle Tab: cycle the matching mode. The buffer is kept; the new mode reads it
/// its own way.
pub fn handle_tab(app: &mut App) -> (action: Action)
    ensures
        (final(app)@, action) == after_tab(old(app)@),
{
    app.mode = app.mode.next();
    app.selected = 0;
    Action::RedrawHints
}

/// Handle a text key in resize mode: a window-handle label (`a` to `h`) grabs
/// that handle, a splitter label (`i` to `z`, as far as there are splitters) grabs
/// that splitter; anything else is ignored.
pub fn handle_resize_key(app: &mut App, vk: u32) -> (action: Action)
    ensures
        (final(app)@, action) == (match old(app)@.state {
            UiModel::Resize(rs) => after_resize_key(old(app)@, rs, vk),
            _ => (old(app)@, Action::Nothing),
        }),
{
    let c: char = match text_char(vk) {
        Some(c) => c,
        None => {
            return Action::Nothing;
        },
    };
    match &mut app.state {
        UiState::Resize(rs) => {
            match handle_from_label(c) {
                Some(handle) => {
                    rs.selection = ResizeSelection::Window(handle);
                    Action::RedrawResize
                },
                None => match splitter_from_label(c, rs.splitters.len()) {
                    Some(idx) => {
                        rs.selection = ResizeSelection::Splitter(idx);
                        Action::RedrawResize
                    },
                    None => Action::Nothing,
                },
            }
        },
        _ => Action::Nothing,
    }
}

/// The placement of a rectangle.
fn placement(target: isize, r: &Rect) -> (place: Placement)
    requires
        r.measurable(),
    ensures
        place == placed(target, *r),
{
    Placement { target, x: r.left, y: r.top, width: r.width(), height: r.height() }
}

/// Move whatever is grabbed by `(dx, dy)`: a window handle resizes the window, a
/// splitter is dragged with the mouse. Nothing happens until something is
/// grabbed, nor for an arrow along a splitter's bar.
pub fn handle_resize_nav(app: &mut App, dx: i32, dy: i32) -> (action: Action)
    requires
        old(app)@.wf(),
        old(app)@.state matches UiModel::Resize(rs) ==> nav_fits(rs, dx as int, dy as int),
    ensures
        (final(app)@, action) == (match old(app)@.state {
            UiModel::Resize(rs) => after_resize_nav(old(app)@, rs, dx as int, dy as int),
            _ => (old(app)@, Action::Nothing),
        }),
{
    match &mut app.state {
        UiState::Resize(rs) => {
            match rs.selection {
                ResizeSelection::Nothing => Action::Nothing,
                ResizeSelection::Window(handle) => {
                    let rect: Rect = apply_handle_move(
                        rs.current_rect,
                        handle,
                        dx,
                        dy,
                        MIN_WIDTH,
                        MIN_HEIGHT,
                    );
                    rs.current_rect = rect;
                    Action::MoveWindow(placement(rs.target, &rect))
                },
                ResizeSelection::Splitter(idx) => {
                    let b: Boundary = rs.splitters[idx];
                    let moves: bool = match b.orientation {
                        Orientation::Vertical => dx != 0,
                        Orientation::Horizontal => dy != 0,
                    };
                    if !moves {
                        Action::Nothing
                    } else {
                        let from: (i32, i32) = drag_point(&b);
                        let to: (i32, i32) = (from.0 + dx, from.1 + dy);
                        rs.splitters[idx] = apply_drag(&b, dx, dy);
                        Action::Drag { from, to }
                    }
                },
            }
        },
        _ => Action::Nothing,
    }
}

/// Leave resize mode. `restore` (Esc) asks for the window to be put back to its
/// original rectangle; otherwise (Enter, or the window is gone) it stays. Splitter
/// drags are not undone.
pub fn exit_resize(app: &mut App, restore: bool) -> (action: Action)
    requires
        old(app)@.wf(),
    ensures
        (final(app)@, action) == (match old(app)@.state {
            UiModel::Resize(rs) => after_exit_resize(old(app)@, rs, restore),
            _ => (old(app)@.put_away(), Action::LeaveResize(None)),
        }),
{
    let mut back: Option<Placement> = None;
    if restore {
        match &app.state {
            UiState::Resize(rs) => {
                back = Some(placement(rs.target, &rs.orig_rect));
            },
            _ => {},
        }
    }
    deactivate(app);
    Action::LeaveResize(back)
}

/// The distance that an arrow intent asks for, across and down.
fn arrow_delta(intent: Intent) -> (delta: (i32, i32))
    ensures
        (delta.0 as int, delta.1 as int) == arrow(intent),
{
    match intent {
        Intent::Nav { down, shift } => {
            let step: i32 = resize_step(shift);
            (
                0,
                if down {
                    step
                } else {
                    -step
                },
            )
        },
        Intent::NavH { right, shift } => {
            let step: i32 = resize_step(shift);
            (
                if right {
                    step
                } else {
                    -step
                },
                0,
            )
        },
        _ => (0, 0),
    }
}

/// Does the sum fit a screen coordinate?
fn sum_fits(a: i32, b: i32) -> (yes: bool)
    ensures
        yes == fits(a + b),
{
    let sum: i64 = a as i64 + b as i64;
    i32::MIN as i64 <= sum && sum <= i32::MAX as i64
}

/// Can the intent be carried out with coordinates that fit? It always can as long
/// as windows and splitters stay clear of the ends of the coordinate range.
pub fn accepts(app: &App, intent: Intent) -> (yes: bool)
    requires
        app@.wf(),
    ensures
        yes == intent_fits(app@, intent),
{
    if !matches!(intent, Intent::Nav { .. } | Intent::NavH { .. }) {
        return true;
    }
    let (dx, dy) = arrow_delta(intent);
    match &app.state {
        UiState::Resize(rs) => match rs.selection {
            ResizeSelection::Nothing => true,
            ResizeSelection::Window(handle) => {
                if !can_move(rs.current_rect, handle, dx, dy, MIN_WIDTH, MIN_HEIGHT) {
                    return false;
                }
                let rect: Rect = apply_handle_move(
                    rs.current_rect,
                    handle,
                    dx,
                    dy,
                    MIN_WIDTH,
                    MIN_HEIGHT,
                );
                rect.is_measurable()
            },
            ResizeSelection::Splitter(idx) => {
                let b: Boundary = rs.splitters[idx];
                let along: i32 = match b.orientation {
                    Orientation::Vertical => dx,
                    Orientation::Horizontal => dy,
                };
                let from: (i32, i32) = drag_point(&b);
                along == 0 || (sum_fits(b.coord, along) && sum_fits(from.0, dx) && sum_fits(
                    from.1,
                    dy,
                ))
            },
        },
        _ => true,
    }
}

/// Carry out an intent: change the state, and say what is to be done outside.
pub fn dispatch(app: &mut App, intent: Intent) -> (action: Action)
    requires
        old(app)@.wf(),
        intent_fits(old(app)@, intent),
    ensures
        (final(app)@, action) == step(old(app)@, intent),
        final(app)@.wf(),
{
    let in_resize: bool = matches!(app.state, UiState::Resize(_));
    let in_hints: bool = matches!(app.state, UiState::Hints);
    let (dx, dy) = arrow_delta(intent);
    match intent {
        Intent::Show => if in_resize || in_hints {
            Action::Nothing
        } else {
            Action::Scan
        },
        Intent::Resize => if in_hints {
            Action::FindTarget
        } else {
            Action::Nothing
        },
        Intent::Key { vk, shift } => if in_resize {
            handle_resize_key(app, vk)
        } else if in_hints {
            handle_key(app, vk, shift)
        } else {
            Action::Nothing
        },
        Intent::Confirm { shift } => if in_resize {
            exit_resize(app, false)
        } else if in_hints {
            handle_confirm(app, shift)
        } else {
            Action::Nothing
        },
        Intent::Tab => if in_hints {
            handle_tab(app)
        } else {
            Action::Nothing
        },
        Intent::Nav { down, .. } => if in_resize {
            handle_resize_nav(app, dx, dy)
        } else if in_hints {
            handle_nav(app, down)
        } else {
            Action::Nothing
        },
        Intent::NavH { .. } => if in_resize {
            handle_resize_nav(app, dx, dy)
        } else {
            Action::Nothing
        },
        Intent::Cancel => if in_resize {
            exit_resize(app, true)
        } else {
            deactivate(app);
            Action::Hide
        },
        Intent::Quit => Action::Quit,
    }
}

/// Take in the result of a scan: label the elements and clear the buffer. Returns
/// whether there is something to show; with nothing scanned, or while the overlay
/// is already up, nothing changes. The state stays idle until the overlay is
/// [`shown_to_user`].
pub fn activate(app: &mut App, scanned: Vec<Hint>) -> (ready: bool)
    ensures
        ready == (!old(app)@.active() && scanned@.len() > 0),
        ready ==> final(app)@ == loaded(old(app)@, models(scanned@)),
        !ready ==> *final(app) == *old(app),
        (final(app)@, ready) == after_scan(old(app)@, models(scanned@)),
{
    if app.is_active() || scanned.len() == 0 {
        return false;
    }
    let ghost before = app@;
    let ghost all = models(scanned@);
    let names: Vec<String> = labels(scanned.len());
    let mut hints: Vec<HintEntry> = Vec::new();
    let mut i: usize = 0;
    while i < names.len()
        invariant
            i <= names@.len(),
            names@.len() == label_count(scanned@.len() as int),
            names@.len() <= scanned@.len(),
            forall|k: int|
                0 <= k < names@.len() ==> (#[trigger] names@[k])@ == label_at(
                    scanned@.len() as int,
                    k,
                ),
            all == models(scanned@),
            hints@.len() == i,
            forall|k: int|
                0 <= k < i ==> (#[trigger] hints@[k])@ == labeled(
                    all[k],
                    label_at(scanned@.len() as int, k),
                ),
        decreases names@.len() - i,
    {
        let h: &Hint = &scanned[i];
        hints.push(
            HintEntry {
                label: names[i].clone(),
                x: h.cx,
                y: h.cy,
                top: h.top,
                above: h.above,
                name: to_lower(&h.name),
            },
        );
        i += 1;
    }
    app.hints = hints;
    app.typed.clear();
    app.selected = 0;
    assert(app@.hints =~= labeled_all(all));
    true
}

/// The overlay is up: hint mode begins.
pub fn shown_to_user(app: &mut App)
    ensures
        final(app)@ == (AppModel { state: UiModel::Hints, ..old(app)@ }),
{
    app.state = UiState::Hints;
}

/// Enter resize mode for the window `target` with the rectangle `rect`, whose
/// panes are `panes`. Only out of hint mode, and only if there is a window and its
/// rectangle could be read; otherwise nothing changes.
pub fn enter_resize(app: &mut App, target: Option<isize>, rect: Option<Rect>, panes: &[Rect]) -> (
    entered: bool)
    requires
        old(app)@.state is Hints && target is Some && rect is Some ==> rect->0.measurable(),
    ensures
        entered == (old(app)@.state is Hints && target is Some && rect is Some),
        entered ==> final(app)@ == resize_begun(old(app)@, target->0, rect->0, panes@),
        entered ==> final(app)@.wf(),
        !entered ==> *final(app) == *old(app),
        (final(app)@, entered) == after_search(old(app)@, target, rect, panes@),
{
    if !matches!(app.state, UiState::Hints) {
        return false;
    }
    let target: isize = match target {
        Some(target) => target,
        None => {
            return false;
        },
    };
    let rect: Rect = match rect {
        Some(rect) => rect,
        None => {
            return false;
        },
    };
    let mut splitters: Vec<Boundary> = find_boundaries(panes);
    splitters.truncate(MAX_SPLITTERS);
    assert(splitters@ =~= labeled_splitters(panes@));
    app.typed.clear();
    app.state = UiState::Resize(
        ResizeState {
            target,
            orig_rect: rect,
            current_rect: rect,
            splitters,
            selection: ResizeSelection::Nothing,
        },
    );
    true
}

/// Tell the hook which mode is on.
pub fn sync_hook(app: &App, hook: &mut HookState)
    ensures
        *final(hook) == (HookState {
            active: app@.active(),
            resize_active: app@.state is Resize,
            ..*old(hook)
        }),
        *final(hook) == hook_told(app@, *old(hook)),
{
    set_active(hook, app.is_active());
    set_resize_active(hook, matches!(app.state, UiState::Resize(_)));
}

} // verus!
