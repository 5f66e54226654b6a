use winhint::geometry::Rect;
use winhint::hotkey::HookState;
use winhint::matching::Mode;
use winhint::message::Intent;
use winhint::resize::Handle;
use winhint::scanner::Hint;
use winhint::session::{
    accepts, activate, dispatch, enter_resize, enter_target, exit_resize, ordered_visible, resize_step,
    shown_to_user, sync_hook, text_char, Action, App, Placement, ResizeSelection, ResizeState, UiState,
};

#[test]
fn resize_step_fine_with_shift() {
    assert_eq!(resize_step(false), 8); // coarse
    assert_eq!(resize_step(true), 1); // Shift → fine
}

fn hint(name: &str, cx: i32, cy: i32) -> Hint {
    Hint { cx, cy, top: cy - 10, name: name.to_string(), control: "Button", above: false }
}

/// Hint mode over three elements.
fn started(mode: Mode) -> App {
    let mut app = App::new();
    app.mode = mode;
    let scanned = vec![hint("Apply", 10, 11), hint("Save", 20, 21), hint("Cancel", 30, 31)];
    assert!(activate(&mut app, scanned));
    shown_to_user(&mut app);
    app
}

/// Hint mode over thirty elements, so that labels have two letters.
fn crowded(mode: Mode) -> App {
    let mut app = App::new();
    app.mode = mode;
    let scanned = (0..30).map(|i| hint("Button", 10 * i, i)).collect();
    assert!(activate(&mut app, scanned));
    shown_to_user(&mut app);
    app
}

fn rect(left: i32, top: i32, right: i32, bottom: i32) -> Rect {
    Rect { left, top, right, bottom }
}

/// Resize mode over a window with two panes.
fn resizing() -> App {
    let mut app = started(Mode::Both);
    let panes = [rect(94, 290, 373, 913), rect(377, 290, 1122, 913)];
    assert!(enter_resize(&mut app, Some(77), Some(rect(50, 60, 650, 460)), &panes));
    app
}

fn session(app: &App) -> &ResizeState {
    match &app.state {
        UiState::Resize(rs) => rs,
        _ => panic!("not in resize mode"),
    }
}

fn key(c: char) -> Intent {
    Intent::Key { vk: c.to_ascii_uppercase() as u32, shift: false }
}

fn type_text(app: &mut App, text: &str) -> Action {
    let mut last = Action::Nothing;
    for c in text.chars() {
        last = dispatch(app, key(c));
    }
    last
}

const ENTER: Intent = Intent::Confirm { shift: false };
const RIGHT: Intent = Intent::NavH { right: true, shift: false };
const LEFT: Intent = Intent::NavH { right: false, shift: false };
const UP: Intent = Intent::Nav { down: false, shift: false };
const DOWN: Intent = Intent::Nav { down: true, shift: false };

#[test]
fn text_keys() {
    assert_eq!(text_char(0x41), Some('a'));
    assert_eq!(text_char(0x5A), Some('z'));
    assert_eq!(text_char(0x30), Some('0'));
    assert_eq!(text_char(0x39), Some('9'));
    assert_eq!(text_char(0x20), Some(' '));
    assert_eq!(text_char(0x08), None);
    assert_eq!(text_char(0x5B), None);
}

#[test]
fn a_new_session_is_idle() {
    let app = App::new();
    assert!(!app.is_active());
    assert_eq!(app.mode, Mode::Both);
    assert!(app.hints.is_empty());
}

#[test]
fn idle_scans_and_ignores_the_rest() {
    let mut app = App::new();
    assert_eq!(dispatch(&mut app, Intent::Show), Action::Scan);
    for intent in [Intent::Resize, key('a'), ENTER, Intent::Tab, UP, RIGHT] {
        assert_eq!(dispatch(&mut app, intent), Action::Nothing);
    }
    assert_eq!(dispatch(&mut app, Intent::Cancel), Action::Hide);
    assert_eq!(dispatch(&mut app, Intent::Quit), Action::Quit);
}

#[test]
fn activation_labels_the_scan() {
    let app = started(Mode::Both);
    let labels: Vec<&str> = app.hints.iter().map(|h| h.label.as_str()).collect();
    assert_eq!(labels, vec!["a", "b", "c"]);
    assert_eq!(app.hints[2].name, "cancel");
    assert_eq!((app.hints[2].x, app.hints[2].y, app.hints[2].top), (30, 31, 21));
    assert!(app.is_active());
}

#[test]
fn names_are_kept_in_lower_case() {
    let mut app = App::new();
    assert!(activate(&mut app, vec![hint("ÄRGER Übung", 0, 0)]));
    assert_eq!(app.hints[0].name, "ärger übung");
}

#[test]
fn nothing_scanned_stays_idle() {
    let mut app = App::new();
    assert!(!activate(&mut app, Vec::new()));
    assert!(!app.is_active());
    let mut app = started(Mode::Both);
    assert!(!activate(&mut app, vec![hint("other", 1, 2)]));
    assert_eq!(app.hints.len(), 3);
}

#[test]
fn a_scan_larger_than_the_labels_is_cut() {
    let mut app = App::new();
    assert!(activate(&mut app, (0..700).map(|i| hint("x", i, 0)).collect()));
    assert_eq!(app.hints.len(), 676);
    assert_eq!(app.hints[675].label, "zz");
}

#[test]
fn typing_a_label_clicks_in_hints_mode() {
    let mut app = started(Mode::Hints);
    assert_eq!(type_text(&mut app, "b"), Action::Click { x: 20, y: 21, right: false });
    assert!(!app.is_active());
    assert_eq!(app.typed, "");

    let mut app = crowded(Mode::Hints);
    assert_eq!(type_text(&mut app, "b"), Action::RedrawHints);
    assert_eq!(type_text(&mut app, "c"), Action::Click { x: 280, y: 28, right: false });
}

#[test]
fn shift_makes_it_a_right_click() {
    let mut app = started(Mode::Hints);
    let shifted = Intent::Key { vk: 0x43, shift: true };
    assert_eq!(dispatch(&mut app, shifted), Action::Click { x: 30, y: 31, right: true });
    let mut app = started(Mode::Both);
    type_text(&mut app, "sav");
    assert_eq!(
        dispatch(&mut app, Intent::Confirm { shift: true }),
        Action::Click { x: 20, y: 21, right: true }
    );
}

#[test]
fn a_full_label_waits_for_enter_in_both_mode() {
    let mut app = crowded(Mode::Both);
    assert_eq!(type_text(&mut app, "bc"), Action::RedrawHints);
    assert_eq!(enter_target(&app), Some(28));
    assert_eq!(dispatch(&mut app, ENTER), Action::Click { x: 280, y: 28, right: false });
}

#[test]
fn bare_enter_does_nothing() {
    let mut app = started(Mode::Both);
    assert_eq!(dispatch(&mut app, ENTER), Action::Nothing);
    assert!(app.is_active());
}

#[test]
fn enter_without_a_match_does_nothing() {
    let mut app = started(Mode::Search);
    type_text(&mut app, "zzz");
    assert_eq!(dispatch(&mut app, ENTER), Action::Nothing);
    assert_eq!(enter_target(&app), None);
    assert_eq!(app.typed, "zzz");
}

#[test]
fn hints_mode_takes_letters_only() {
    let mut app = crowded(Mode::Hints);
    assert_eq!(type_text(&mut app, "1"), Action::Nothing);
    assert_eq!(type_text(&mut app, " "), Action::Nothing);
    assert_eq!(app.typed, "");
    let mut app = crowded(Mode::Search);
    assert_eq!(type_text(&mut app, "a 1"), Action::RedrawHints);
    assert_eq!(app.typed, "a 1");
}

#[test]
fn keys_without_text_do_nothing() {
    let mut app = started(Mode::Both);
    assert_eq!(dispatch(&mut app, Intent::Key { vk: 0x70, shift: false }), Action::Nothing);
}

#[test]
fn backspace_takes_back_one_character() {
    let back = Intent::Key { vk: 0x08, shift: false };
    let mut app = started(Mode::Both);
    type_text(&mut app, "sa");
    assert_eq!(dispatch(&mut app, back), Action::RedrawHints);
    assert_eq!(app.typed, "s");
    dispatch(&mut app, back);
    assert_eq!(dispatch(&mut app, back), Action::RedrawHints);
    assert_eq!(app.typed, "");
}

#[test]
fn arrows_walk_the_visible_list() {
    let mut app = started(Mode::Both);
    assert_eq!(dispatch(&mut app, DOWN), Action::Nothing);
    type_text(&mut app, "a");
    // Code `a` first, then the names that contain an `a`.
    assert_eq!(ordered_visible(&app), vec![0, 1, 2]);
    assert_eq!(dispatch(&mut app, UP), Action::RedrawHints);
    assert_eq!(enter_target(&app), Some(2));
    assert_eq!(dispatch(&mut app, DOWN), Action::RedrawHints);
    assert_eq!(enter_target(&app), Some(0));
    dispatch(&mut app, DOWN);
    assert_eq!(dispatch(&mut app, ENTER), Action::Click { x: 20, y: 21, right: false });
}

#[test]
fn typing_puts_the_cursor_back() {
    let mut app = started(Mode::Both);
    type_text(&mut app, "a");
    dispatch(&mut app, DOWN);
    assert_eq!(app.selected, 1);
    type_text(&mut app, "p");
    assert_eq!(app.selected, 0);
}

#[test]
fn tab_reads_the_same_text_another_way() {
    let mut app = started(Mode::Both);
    type_text(&mut app, "c");
    assert_eq!(ordered_visible(&app), vec![2]);
    assert_eq!(dispatch(&mut app, Intent::Tab), Action::RedrawHints);
    assert_eq!(app.mode, Mode::Search);
    assert_eq!(app.typed, "c");
    dispatch(&mut app, Intent::Tab);
    assert_eq!(app.mode, Mode::Hints);
    dispatch(&mut app, Intent::Tab);
    assert_eq!(app.mode, Mode::Both);
}

#[test]
fn the_mode_outlives_the_session() {
    let mut app = started(Mode::Both);
    dispatch(&mut app, Intent::Tab);
    type_text(&mut app, "x");
    assert_eq!(dispatch(&mut app, Intent::Cancel), Action::Hide);
    assert_eq!((app.mode, app.typed.as_str(), app.is_active()), (Mode::Search, "", false));
    assert!(activate(&mut app, vec![hint("next", 1, 1)]));
    assert_eq!(app.mode, Mode::Search);
}

#[test]
fn hint_mode_has_no_sideways_arrows_and_is_entered_once() {
    let mut app = started(Mode::Both);
    assert_eq!(dispatch(&mut app, RIGHT), Action::Nothing);
    assert_eq!(dispatch(&mut app, Intent::Show), Action::Nothing);
    assert_eq!(dispatch(&mut app, Intent::Resize), Action::FindTarget);
}

#[test]
fn resize_mode_needs_hint_mode_a_window_and_a_rectangle() {
    let r = rect(0, 0, 300, 300);
    let mut app = App::new();
    assert!(!enter_resize(&mut app, Some(1), Some(r), &[]));
    let mut app = started(Mode::Both);
    assert!(!enter_resize(&mut app, None, Some(r), &[]));
    assert!(!enter_resize(&mut app, Some(1), None, &[]));
    assert!(matches!(app.state, UiState::Hints));
    type_text(&mut app, "s");
    assert!(enter_resize(&mut app, Some(1), Some(r), &[]));
    assert_eq!(app.typed, "");
    assert_eq!(session(&app).selection, ResizeSelection::Nothing);
}

#[test]
fn extra_splitters_get_no_label() {
    let mut app = started(Mode::Both);
    // Twenty panes side by side have nineteen boundaries.
    let panes: Vec<Rect> = (0..20).map(|i| rect(100 * i, 0, 100 * i + 98, 200)).collect();
    assert!(enter_resize(&mut app, Some(1), Some(rect(0, 0, 2000, 200)), &panes));
    assert_eq!(session(&app).splitters.len(), 18);
}

#[test]
fn arrows_do_nothing_until_something_is_grabbed() {
    let mut app = resizing();
    for intent in [UP, DOWN, LEFT, RIGHT] {
        assert_eq!(dispatch(&mut app, intent), Action::Nothing);
    }
    assert_eq!(dispatch(&mut app, Intent::Tab), Action::Nothing);
    assert_eq!(dispatch(&mut app, Intent::Show), Action::Nothing);
    assert_eq!(dispatch(&mut app, Intent::Resize), Action::Nothing);
}

#[test]
fn a_grabbed_handle_moves_the_window() {
    let mut app = resizing();
    assert_eq!(type_text(&mut app, "e"), Action::RedrawResize);
    let grabbed = match session(&app).selection {
        ResizeSelection::Window(h) => h,
        _ => panic!("no handle grabbed"),
    };
    assert_eq!(grabbed, Handle::all()[4]);
    type_text(&mut app, "a");
    assert_eq!(session(&app).selection, ResizeSelection::Window(Handle::TopLeft));
    assert_eq!(
        dispatch(&mut app, LEFT),
        Action::MoveWindow(Placement { target: 77, x: 42, y: 60, width: 608, height: 400 })
    );
    assert_eq!(
        dispatch(&mut app, Intent::Nav { down: true, shift: true }),
        Action::MoveWindow(Placement { target: 77, x: 42, y: 61, width: 608, height: 399 })
    );
    assert_eq!(session(&app).current_rect, rect(42, 61, 650, 460));
}

#[test]
fn windows_stop_at_the_minimum() {
    let mut app = resizing();
    type_text(&mut app, "a");
    for _ in 0..100 {
        dispatch(&mut app, RIGHT);
        dispatch(&mut app, DOWN);
    }
    assert_eq!(session(&app).current_rect, rect(450, 340, 650, 460));
}

#[test]
fn a_grabbed_splitter_is_dragged_across_its_bar() {
    let mut app = resizing();
    assert_eq!(type_text(&mut app, "i"), Action::RedrawResize);
    assert_eq!(session(&app).selection, ResizeSelection::Splitter(0));
    assert_eq!(dispatch(&mut app, UP), Action::Nothing);
    assert_eq!(
        dispatch(&mut app, RIGHT),
        Action::Drag { from: (375, 601), to: (383, 601) }
    );
    assert_eq!(session(&app).splitters[0].coord, 383);
    assert_eq!(
        dispatch(&mut app, LEFT),
        Action::Drag { from: (383, 601), to: (375, 601) }
    );
}

#[test]
fn unbound_labels_keep_the_grip() {
    let mut app = resizing();
    type_text(&mut app, "b");
    assert_eq!(type_text(&mut app, "j"), Action::Nothing);
    assert_eq!(type_text(&mut app, "1"), Action::Nothing);
    assert_eq!(
        dispatch(&mut app, Intent::Key { vk: 0x08, shift: false }),
        Action::Nothing
    );
    assert_eq!(session(&app).selection, ResizeSelection::Window(Handle::Top));
}

#[test]
fn esc_restores_and_enter_keeps() {
    let back = Placement { target: 77, x: 50, y: 60, width: 600, height: 400 };
    let mut app = resizing();
    type_text(&mut app, "h");
    dispatch(&mut app, LEFT);
    assert_eq!(dispatch(&mut app, Intent::Cancel), Action::LeaveResize(Some(back)));
    assert!(!app.is_active());

    let mut app = resizing();
    type_text(&mut app, "h");
    dispatch(&mut app, LEFT);
    assert_eq!(dispatch(&mut app, ENTER), Action::LeaveResize(None));
    assert!(!app.is_active());

    let mut app = resizing();
    assert_eq!(exit_resize(&mut app, false), Action::LeaveResize(None));
}

#[test]
fn moves_that_do_not_fit_are_not_accepted() {
    let mut app = started(Mode::Both);
    let edge = rect(i32::MAX - 300, 0, i32::MAX - 4, 300);
    assert!(enter_resize(&mut app, Some(1), Some(edge), &[]));
    assert!(accepts(&app, RIGHT));
    for h in ['c', 'd', 'e', 'f', 'g', 'h'] {
        type_text(&mut app, &h.to_string());
        let right_side = match session(&app).selection {
            ResizeSelection::Window(handle) => handle.edges().2,
            _ => panic!("no handle grabbed"),
        };
        assert_eq!(accepts(&app, RIGHT), !right_side);
        assert!(accepts(&app, Intent::NavH { right: true, shift: true }));
        assert!(accepts(&app, Intent::Cancel));
    }
}

#[test]
fn the_hook_follows_the_session() {
    let mut hook = HookState::new();
    sync_hook(&started(Mode::Both), &mut hook);
    assert_eq!((hook.active, hook.resize_active), (true, false));
    sync_hook(&resizing(), &mut hook);
    assert_eq!((hook.active, hook.resize_active), (true, true));
    sync_hook(&App::new(), &mut hook);
    assert_eq!((hook.active, hook.resize_active), (false, false));
}
