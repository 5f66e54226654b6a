use winhint::frame::{render_resize_state, render_state};
use winhint::geometry::Rect;
use winhint::matching::Mode;
use winhint::message::Intent;
use winhint::scanner::Hint;
use winhint::session::{activate, dispatch, enter_resize, shown_to_user, App};

fn hint(name: &str, cx: i32, cy: i32, above: bool) -> Hint {
    Hint { cx, cy, top: cy - 10, name: name.to_string(), control: "Button", above }
}

fn started() -> App {
    let mut app = App::new();
    let scanned = vec![
        hint("Save", 10, 110, false),
        hint("Cancel", 20, 120, false),
        hint("Clock", 30, 130, true),
    ];
    assert!(activate(&mut app, scanned));
    shown_to_user(&mut app);
    app
}

fn type_text(app: &mut App, text: &str) {
    for c in text.chars() {
        dispatch(app, Intent::Key { vk: c.to_ascii_uppercase() as u32, shift: false });
    }
}

#[test]
fn nothing_typed_floats_every_label() {
    let view = render_state(&started());
    let labels: Vec<&str> = view.floating.iter().map(|i| i.label.as_str()).collect();
    assert_eq!(labels, vec!["a", "b", "c"]);
    assert!(view.floating.iter().all(|i| !i.selected && i.typed == 0));
    assert!(view.top.is_empty() && view.bottom.is_empty());
    assert_eq!((view.query.as_str(), view.badge), ("", "BOTH"));
}

#[test]
fn labels_above_hang_on_the_top_edge() {
    let view = render_state(&started());
    assert_eq!((view.floating[1].x, view.floating[1].y, view.floating[1].above), (20, 120, false));
    assert_eq!((view.floating[2].x, view.floating[2].y, view.floating[2].above), (30, 120, true));
}

#[test]
fn codes_stand_above_names() {
    let mut app = started();
    type_text(&mut app, "c");
    let view = render_state(&app);
    let top: Vec<(&str, &str, bool)> =
        view.top.iter().map(|r| (r.label.as_str(), r.name.as_str(), r.selected)).collect();
    let bottom: Vec<(&str, &str, bool)> =
        view.bottom.iter().map(|r| (r.label.as_str(), r.name.as_str(), r.selected)).collect();
    assert_eq!(top, vec![("c", "clock", true)]);
    assert_eq!(bottom, vec![("b", "cancel", false)]);
    let floating: Vec<(&str, usize, bool)> =
        view.floating.iter().map(|i| (i.label.as_str(), i.typed, i.selected)).collect();
    assert_eq!(floating, vec![("c", 1, true), ("b", 0, false)]);
}

#[test]
fn the_cursor_is_highlighted_in_both_places() {
    let mut app = started();
    app.mode = Mode::Search;
    type_text(&mut app, "c");
    dispatch(&mut app, Intent::Nav { down: true, shift: false });
    let view = render_state(&app);
    assert!(view.top.is_empty());
    let rows: Vec<bool> = view.bottom.iter().map(|r| r.selected).collect();
    let labels: Vec<bool> = view.floating.iter().map(|i| i.selected).collect();
    assert_eq!(rows, vec![false, true]);
    assert_eq!(labels, vec![false, true]);
    assert_eq!((view.query.as_str(), view.badge), ("c", "SEARCH"));
}

#[test]
fn no_match_shows_nothing() {
    let mut app = started();
    type_text(&mut app, "qq");
    let view = render_state(&app);
    assert!(view.floating.is_empty() && view.top.is_empty() && view.bottom.is_empty());
    assert_eq!(view.query, "qq");
}

#[test]
fn only_resize_mode_has_a_resize_picture() {
    assert!(render_resize_state(&App::new()).is_none());
    assert!(render_resize_state(&started()).is_none());
}

#[test]
fn resize_mode_shows_handles_splitters_and_size() {
    let mut app = started();
    let window = Rect { left: 50, top: 60, right: 650, bottom: 460 };
    let panes = [
        Rect { left: 94, top: 290, right: 373, bottom: 913 },
        Rect { left: 377, top: 290, right: 1122, bottom: 913 },
    ];
    assert!(enter_resize(&mut app, Some(7), Some(window), &panes));
    let view = render_resize_state(&app).unwrap();
    let labels: Vec<&str> = view.handles.iter().map(|h| h.label.as_str()).collect();
    assert_eq!(labels, vec!["a", "b", "c", "d", "e", "f", "g", "h", "i↔"]);
    assert_eq!((view.handles[0].x, view.handles[0].y), (50, 60));
    assert_eq!((view.handles[8].x, view.handles[8].y), (375, 601));
    assert!(view.handles[8].splitter && !view.handles[7].splitter);
    assert!(view.handles.iter().all(|h| !h.selected));
    assert_eq!((view.hud.width, view.hud.height), (600, 400));
    assert_eq!(view.hud.selected_label, None);
}

#[test]
fn what_is_grabbed_is_named() {
    let mut app = started();
    let window = Rect { left: 0, top: 0, right: 600, bottom: 604 };
    let panes = [
        Rect { left: 0, top: 0, right: 600, bottom: 300 },
        Rect { left: 0, top: 304, right: 600, bottom: 604 },
    ];
    assert!(enter_resize(&mut app, Some(7), Some(window), &panes));
    type_text(&mut app, "d");
    let view = render_resize_state(&app).unwrap();
    assert_eq!(view.hud.selected_label.as_deref(), Some("D"));
    assert!(view.handles[3].selected);
    assert_eq!(view.handles.iter().filter(|h| h.selected).count(), 1);
    type_text(&mut app, "i");
    let view = render_resize_state(&app).unwrap();
    assert_eq!(view.hud.selected_label.as_deref(), Some("I↕"));
    assert!(view.handles[8].selected);
}
