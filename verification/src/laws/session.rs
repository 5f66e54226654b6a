//! Laws of a session: what holds whatever is typed.

use vstd::prelude::*;

use crate::frame::highlighted;
use crate::geometry::Rect;
use crate::hints::{label_at, label_count, LETTERS};
use crate::hotkey::VK_BACK;
use crate::laws::hints::{law_labels_are_letters, law_labels_are_prefix_free};
use crate::laws::matching::{
    law_exact_code_is_unique, law_exact_match_has_the_code, law_full_code_leaves_one,
    law_visible_has_no_duplicates, prefix_free,
};
use crate::matching::{exact_index, mode_after, Mode};
use crate::message::Intent;
use crate::resize::{MIN_HEIGHT, MIN_WIDTH};
use crate::scanner::HintModel;
use crate::session::{
    char_of_key, enter_entry, intent_fits, labeled_all, lemma_visible_in_range, loaded,
    placed, resize_begun, shown, step, wrapped, Action, AppModel, ResizeModel,
    ResizeSelection, UiModel,
};
use crate::splitter::grip;

verus! {

// ---------------------------------------------------------------------------
// Coming and going
// ---------------------------------------------------------------------------

/// While nothing is shown, only three intents do anything: showing the hints,
/// cancelling (which leaves everything put away) and quitting.
pub proof fn law_idle_ignores_the_rest(m: AppModel, intent: Intent)
    requires
        m.state is Idle,
        !(intent is Show || intent is Cancel || intent is Quit),
    ensures
        step(m, intent) == (m, Action::Nothing),
{
}

/// Asking for the hints scans the window only while nothing is shown; asking for
/// resize mode looks for a window only out of hint mode.
pub proof fn law_modes_are_entered_in_order(m: AppModel)
    ensures
        step(m, Intent::Show) == (m, if m.state is Idle {
            Action::Scan
        } else {
            Action::Nothing
        }),
        step(m, Intent::Resize) == (m, if m.state is Hints {
            Action::FindTarget
        } else {
            Action::Nothing
        }),
{
}

/// Cancelling ends every session: nothing is shown, nothing is typed, nothing is
/// clicked, and mode and hints stay as they were.
pub proof fn law_cancel_puts_everything_away(m: AppModel)
    ensures
        step(m, Intent::Cancel).0 == m.put_away(),
        !step(m, Intent::Cancel).0.active(),
        step(m, Intent::Cancel).1 is Hide || step(m, Intent::Cancel).1 is LeaveResize,
        step(m, Intent::Cancel).1 is LeaveResize <==> m.state is Resize,
{
}

/// The mode stays on until Tab changes it: across typing, clicks, cancelling, new
/// scans and resize sessions.
pub proof fn law_mode_is_kept(
    m: AppModel,
    intent: Intent,
    scanned: Seq<HintModel>,
    target: isize,
    rect: Rect,
    panes: Seq<Rect>,
)
    ensures
        !(intent is Tab) ==> step(m, intent).0.mode == m.mode,
        m.state is Hints ==> step(m, Intent::Tab).0.mode == mode_after(m.mode),
        !(m.state is Hints) ==> step(m, Intent::Tab).0 == m,
        loaded(m, scanned).mode == m.mode,
        resize_begun(m, target, rect, panes).mode == m.mode,
{
}

/// Three tabs in hint mode change nothing but the cursor.
pub proof fn law_three_tabs_change_nothing(m: AppModel)
    requires
        m.state is Hints,
    ensures
        ({
            let once = step(m, Intent::Tab).0;
            let twice = step(once, Intent::Tab).0;
            step(twice, Intent::Tab).0 == AppModel { selected: 0, ..m }
        }),
{
}

// ---------------------------------------------------------------------------
// Clicking
// ---------------------------------------------------------------------------

/// A click only ever comes out of hint mode with something typed, lands on the
/// center of a listed element, and the overlay has been put away by then.
pub proof fn law_clicks_follow_typing(m: AppModel, intent: Intent)
    requires
        0 <= m.selected,
    ensures
        step(m, intent).1 matches Action::Click { x, y, right } ==> {
            &&& m.state is Hints
            &&& !step(m, intent).0.active()
            &&& step(m, intent).0.typed.len() == 0
            &&& intent is Key || (intent is Confirm && m.typed.len() > 0)
            &&& intent is Key ==> m.mode is Hints
            &&& exists|i: int|
                0 <= i < m.hints.len() && (#[trigger] m.hints[i]).x == x && m.hints[i].y == y
        },
{
    if step(m, intent).1 is Click {
        match intent {
            Intent::Key { vk, shift } => {
                let typed = m.typed.push(char_of_key(vk)->0);
                law_exact_match_has_the_code(m.hints, typed);
                let i = exact_index(m.hints, typed)->0;
                assert(m.hints[i].label == typed);
            },
            _ => {
                lemma_visible_in_range(m.hints, m.mode, m.typed);
                let i = enter_entry(m)->0;
                assert(0 <= i < m.hints.len());
                assert(m.hints[i].x == m.hints[i].x);
            },
        }
    }
}

/// Enter with nothing typed does nothing, whatever is shown.
pub proof fn law_bare_enter_does_nothing(m: AppModel, shift: bool)
    requires
        m.state is Hints,
        m.typed.len() == 0,
    ensures
        step(m, Intent::Confirm { shift }) == (m, Action::Nothing),
{
}

/// Outside the pure hint mode no key clicks: typing can go on, as the text may be
/// part of a name.
pub proof fn law_only_hints_mode_clicks_on_a_key(m: AppModel, vk: u32, shift: bool)
    requires
        !(m.mode is Hints),
    ensures
        !(step(m, Intent::Key { vk, shift }).1 is Click),
{
}

/// Shift makes the click a right-click, and changes nothing else in hint mode.
pub proof fn law_shift_clicks_right(m: AppModel, vk: u32)
    requires
        m.state is Hints,
    ensures
        ({
            let plain = step(m, Intent::Key { vk, shift: false });
            let shifted = step(m, Intent::Key { vk, shift: true });
            &&& shifted.0 == plain.0
            &&& match plain.1 {
                Action::Click { x, y, right } => !right && shifted.1 == Action::Click {
                    x,
                    y,
                    right: true,
                },
                other => shifted.1 == other,
            }
        }),
        ({
            let plain = step(m, Intent::Confirm { shift: false });
            let shifted = step(m, Intent::Confirm { shift: true });
            &&& shifted.0 == plain.0
            &&& match plain.1 {
                Action::Click { x, y, right } => !right && shifted.1 == Action::Click {
                    x,
                    y,
                    right: true,
                },
                other => shifted.1 == other,
            }
        }),
{
}

// ---------------------------------------------------------------------------
// Typing a label
// ---------------------------------------------------------------------------

/// The key of a small letter.
pub open spec fn key_of(c: char) -> u32 {
    (c as int - 32) as u32
}

/// The state and the last action after the keys of `text` were typed one by one.
pub open spec fn typed_out(m: AppModel, text: Seq<char>, shift: bool) -> (AppModel, Action)
    decreases text.len(),
{
    if text.len() == 0 {
        (m, Action::Nothing)
    } else {
        step(
            typed_out(m, text.drop_last(), shift).0,
            Intent::Key { vk: key_of(text.last()), shift },
        )
    }
}

/// Hint mode right after a scan.
pub open spec fn fresh(m: AppModel, scanned: Seq<HintModel>) -> AppModel {
    AppModel { state: UiModel::Hints, ..loaded(m, scanned) }
}

/// The codes given out after a scan are prefix-free.
pub proof fn law_given_codes_are_prefix_free(scanned: Seq<HintModel>)
    ensures
        prefix_free(labeled_all(scanned)),
{
    let hints = labeled_all(scanned);
    let n = scanned.len() as int;
    assert forall|i: int, j: int|
        0 <= i < hints.len() && 0 <= j < hints.len() && i != j implies !(
    #[trigger] hints[i].label).is_prefix_of(#[trigger] hints[j].label) by {
        law_labels_are_prefix_free(n, i, j);
    }
}

/// A letter's key types that letter.
proof fn lemma_key_types_its_letter(c: char)
    requires
        'a' <= c <= 'z',
    ensures
        char_of_key(key_of(c)) == Some(c),
        key_of(c) != VK_BACK,
{
}

/// A single letter of a two-letter code is no code by itself.
proof fn lemma_first_letter_is_no_code(scanned: Seq<HintModel>, i: int)
    requires
        scanned.len() > LETTERS,
        0 <= i < labeled_all(scanned).len(),
    ensures
        exact_index(labeled_all(scanned), seq![labeled_all(scanned)[i].label[0]]) is None,
{
    let hints = labeled_all(scanned);
    let one = seq![hints[i].label[0]];
    law_exact_match_has_the_code(hints, one);
    match exact_index(hints, one) {
        Some(k) => {
            assert(hints[k].label.len() == 2);
            assert(one.len() == 1);
        },
        None => {},
    }
}

/// In pure hint mode, typing an element's label clicks the element's center: the
/// last letter does it, and the overlay is put away.
pub proof fn law_typing_a_label_clicks_it(m: AppModel, scanned: Seq<HintModel>, i: int, shift: bool)
    requires
        m.mode is Hints,
        0 <= i < label_count(scanned.len() as int),
    ensures
        typed_out(fresh(m, scanned), label_at(scanned.len() as int, i), shift) == (
            fresh(m, scanned).put_away(),
            Action::Click { x: scanned[i].cx, y: scanned[i].cy, right: shift },
        ),
{
    let n = scanned.len() as int;
    let start = fresh(m, scanned);
    let hints = labeled_all(scanned);
    let label = label_at(n, i);
    law_given_codes_are_prefix_free(scanned);
    law_exact_code_is_unique(hints, i);
    assert(hints[i].label == label);
    assert forall|k: int| 0 <= k < label.len() implies 'a' <= #[trigger] label[k] <= 'z' by {
        law_labels_are_letters(n, i, k);
    }
    reveal_with_fuel(typed_out, 3);
    let first = label[0];
    lemma_key_types_its_letter(first);
    let head = label.drop_last();
    if n <= LETTERS {
        assert(head.len() == 0);
        assert(start.typed.push(first) =~= label);
    } else {
        let second = label[1];
        lemma_key_types_its_letter(second);
        lemma_first_letter_is_no_code(scanned, i);
        assert(head =~= seq![first]);
        assert(head.drop_last().len() == 0);
        assert(start.typed.push(first) =~= seq![first]);
        let between = typed_out(start, head, shift).0;
        assert(between.typed == seq![first]);
        assert(between.typed.push(second) =~= label);
    }
}

/// In the combined mode, typing an element's label and then Enter clicks the
/// element's center: a full code puts its element first.
pub proof fn law_label_and_enter_click_it(m: AppModel, scanned: Seq<HintModel>, i: int, shift: bool)
    requires
        m.mode is Both,
        0 <= i < label_count(scanned.len() as int),
    ensures
        ({
            let typed = typed_out(fresh(m, scanned), label_at(scanned.len() as int, i), false).0;
            step(typed, Intent::Confirm { shift }) == (
                fresh(m, scanned).put_away(),
                Action::Click { x: scanned[i].cx, y: scanned[i].cy, right: shift },
            )
        }),
{
    let n = scanned.len() as int;
    let start = fresh(m, scanned);
    let hints = labeled_all(scanned);
    let label = label_at(n, i);
    law_given_codes_are_prefix_free(scanned);
    law_full_code_leaves_one(hints, Mode::Both, i);
    assert(hints[i].label == label);
    assert forall|k: int| 0 <= k < label.len() implies 'a' <= #[trigger] label[k] <= 'z' by {
        law_labels_are_letters(n, i, k);
    }
    reveal_with_fuel(typed_out, 3);
    let first = label[0];
    lemma_key_types_its_letter(first);
    let head = label.drop_last();
    if n <= LETTERS {
        assert(head.len() == 0);
        assert(start.typed.push(first) =~= label);
    } else {
        let second = label[1];
        lemma_key_types_its_letter(second);
        assert(head =~= seq![first]);
        assert(head.drop_last().len() == 0);
        assert(start.typed.push(first) =~= seq![first]);
        let between = typed_out(start, head, false).0;
        assert(between.typed == seq![first]);
        assert(between.typed.push(second) =~= label);
    }
    let done = typed_out(start, label, false).0;
    assert(done == AppModel { typed: label, ..start });
    assert(enter_entry(done) == Some(i));
}

/// Backspace takes back a key that added a character.
pub proof fn law_backspace_takes_a_key_back(m: AppModel, vk: u32, shift: bool)
    requires
        m.state is Hints,
        step(m, Intent::Key { vk, shift }).0.typed.len() > m.typed.len(),
    ensures
        ({
            let typed = step(m, Intent::Key { vk, shift }).0;
            step(typed, Intent::Key { vk: VK_BACK, shift }) == (
                AppModel { selected: 0, ..m },
                Action::RedrawHints,
            )
        }),
{
    let c = char_of_key(vk)->0;
    assert(m.typed.push(c).drop_last() =~= m.typed);
}

/// May the character stand in the buffer: a small letter, a digit or a space?
pub open spec fn is_typed_char(c: char) -> bool {
    'a' <= c <= 'z' || '0' <= c <= '9' || c == ' '
}

/// Does the buffer hold only small letters, digits and spaces?
pub open spec fn holds_text(m: AppModel) -> bool {
    forall|k: int| 0 <= k < m.typed.len() ==> is_typed_char(#[trigger] m.typed[k])
}

/// The buffer never holds anything but small letters, digits and spaces.
pub proof fn law_buffer_holds_text(m: AppModel, intent: Intent)
    requires
        holds_text(m),
    ensures
        holds_text(step(m, intent).0),
{
    let after = step(m, intent).0;
    assert forall|k: int| 0 <= k < after.typed.len() implies is_typed_char(
        #[trigger] after.typed[k],
    ) by {
        if k < m.typed.len() {
            assert(is_typed_char(m.typed[k]));
        }
    }
}

// ---------------------------------------------------------------------------
// The cursor
// ---------------------------------------------------------------------------

/// In hint mode the cursor stands on a visible entry, or at 0 if there is none.
pub open spec fn cursor_in_list(m: AppModel) -> bool {
    m.state is Hints ==> 0 <= m.selected && (m.selected < shown(m).len() || m.selected == 0)
}

/// The cursor never leaves the list.
pub proof fn law_cursor_stays_in_list(m: AppModel, intent: Intent, scanned: Seq<HintModel>)
    requires
        cursor_in_list(m),
    ensures
        cursor_in_list(step(m, intent).0),
        cursor_in_list(fresh(m, scanned)),
{
    if m.state is Hints {
        if let Intent::Nav { down, .. } = intent {
            let n = shown(m).len() as int;
            let next = step(m, intent).0;
            if n > 0 && m.typed.len() > 0 {
                assert(0 <= wrapped(m.selected, n, down) < n) by {
                    vstd::arithmetic::div_mod::lemma_mod_bound(m.selected + 1, n);
                    vstd::arithmetic::div_mod::lemma_mod_bound(m.selected + n - 1, n);
                }
            }
            assert(shown(next) == shown(m));
        }
    }
}

/// Up and down undo each other, around both ends of the list too.
pub proof fn law_up_and_down_are_inverse(cursor: int, n: int)
    requires
        0 <= cursor < n,
    ensures
        wrapped(wrapped(cursor, n, true), n, false) == cursor,
        wrapped(wrapped(cursor, n, false), n, true) == cursor,
{
    if cursor + 1 < n {
        vstd::arithmetic::div_mod::lemma_small_mod((cursor + 1) as nat, n as nat);
    } else {
        vstd::arithmetic::div_mod::lemma_mod_self_0(n);
    }
    if cursor > 0 {
        vstd::arithmetic::div_mod::lemma_mod_add_multiples_vanish(cursor - 1, n);
        vstd::arithmetic::div_mod::lemma_small_mod((cursor - 1) as nat, n as nat);
    } else {
        vstd::arithmetic::div_mod::lemma_small_mod((n - 1) as nat, n as nat);
    }
    vstd::arithmetic::div_mod::lemma_mod_add_multiples_vanish(cursor, n);
    vstd::arithmetic::div_mod::lemma_small_mod(cursor as nat, n as nat);
    vstd::arithmetic::div_mod::lemma_small_mod((n - 1) as nat, n as nat);
    vstd::arithmetic::div_mod::lemma_mod_self_0(n);
}

/// What is highlighted is what Enter clicks, and it is highlighted in one place
/// only.
pub proof fn law_highlight_is_what_enter_clicks(m: AppModel, shift: bool)
    requires
        m.state is Hints,
    ensures
        step(m, Intent::Confirm { shift }) == (match highlighted(m) {
            Some(i) => (
                m.put_away(),
                Action::Click { x: m.hints[i].x, y: m.hints[i].y, right: shift },
            ),
            None => (m, Action::Nothing),
        }),
        forall|a: int, b: int|
            #![trigger shown(m)[a], shown(m)[b]]
            0 <= a < shown(m).len() && 0 <= b < shown(m).len() && highlighted(m) == Some(
                shown(m)[a],
            ) && highlighted(m) == Some(shown(m)[b]) ==> a == b,
{
    law_visible_has_no_duplicates(m.hints, m.mode, m.typed);
}

// ---------------------------------------------------------------------------
// Resizing
// ---------------------------------------------------------------------------

/// A resize session keeps its window, the rectangle it began with, and its
/// splitters' number, spans and labels; it stays one until it is confirmed or
/// cancelled.
pub proof fn law_resize_session_keeps_its_origin(m: AppModel, rs: ResizeModel, intent: Intent)
    requires
        m.state == UiModel::Resize(rs),
        m.wf(),
        !(intent is Confirm || intent is Cancel),
    ensures
        step(m, intent).0.state matches UiModel::Resize(after) && {
            &&& after.target == rs.target
            &&& after.orig_rect == rs.orig_rect
            &&& after.splitters.len() == rs.splitters.len()
            &&& forall|i: int|
                0 <= i < rs.splitters.len() ==> {
                    &&& (#[trigger] after.splitters[i]).orientation == rs.splitters[i].orientation
                    &&& after.splitters[i].span_start == rs.splitters[i].span_start
                    &&& after.splitters[i].span_end == rs.splitters[i].span_end
                }
        },
        step(m, intent).0.hints == m.hints,
        step(m, intent).0.typed == m.typed,
{
}

/// Esc asks for the window to be put back to the rectangle it had when the session
/// began; Enter leaves it where it is. Either way the session ends.
pub proof fn law_esc_restores_and_enter_keeps(m: AppModel, rs: ResizeModel, shift: bool)
    requires
        m.state == UiModel::Resize(rs),
    ensures
        step(m, Intent::Cancel) == (
            m.put_away(),
            Action::LeaveResize(Some(placed(rs.target, rs.orig_rect))),
        ),
        step(m, Intent::Confirm { shift }) == (m.put_away(), Action::LeaveResize(None)),
{
}

/// Nothing moves until a handle or splitter is grabbed.
pub proof fn law_nothing_moves_ungrabbed(m: AppModel, rs: ResizeModel, intent: Intent)
    requires
        m.state == UiModel::Resize(rs),
        rs.selection is Nothing,
        intent is Nav || intent is NavH,
    ensures
        step(m, intent) == (m, Action::Nothing),
{
}

/// A window that is at least as large as the minimum stays so.
pub proof fn law_windows_keep_the_minimum(m: AppModel, rs: ResizeModel, intent: Intent)
    requires
        m.state == UiModel::Resize(rs),
        m.wf(),
        intent_fits(m, intent),
        rs.current_rect.spec_width() >= MIN_WIDTH,
        rs.current_rect.spec_height() >= MIN_HEIGHT,
    ensures
        step(m, intent).0.state matches UiModel::Resize(after) ==> {
            &&& after.current_rect.spec_width() >= MIN_WIDTH
            &&& after.current_rect.spec_height() >= MIN_HEIGHT
        },
        step(m, intent).1 matches Action::MoveWindow(p) ==> p.width >= MIN_WIDTH && p.height
            >= MIN_HEIGHT,
{
}

/// The placement that is asked for is the rectangle that the session then has.
pub proof fn law_placement_follows_the_session(m: AppModel, intent: Intent)
    ensures
        step(m, intent).1 matches Action::MoveWindow(p) ==> step(m, intent).0.state matches
            UiModel::Resize(after) && p == placed(after.target, after.current_rect),
{
}

/// A drag starts where the grabbed splitter is, and ends where it is then.
pub proof fn law_drag_follows_the_splitter(m: AppModel, rs: ResizeModel, intent: Intent)
    requires
        m.state == UiModel::Resize(rs),
        m.wf(),
        intent_fits(m, intent),
    ensures
        step(m, intent).1 matches Action::Drag { from, to } ==> rs.selection matches
            ResizeSelection::Splitter(i) && step(m, intent).0.state matches
            UiModel::Resize(after) && {
            &&& (from.0 as int, from.1 as int) == grip(rs.splitters[i as int])
            &&& (to.0 as int, to.1 as int) == grip(after.splitters[i as int])
        },
{
}

} // verus!
