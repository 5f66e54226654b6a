use winhint::geometry::Rect;
use winhint::scanner::{
    app_window, clickable_label, consider, is_app_window, mark_above, pane_rect, scan_full,
    splitter_orientation, target_window, Element, Hint, MAX_ELEMENTS, UIA_BUTTON, UIA_EDIT,
    UIA_PANE, UIA_SEPARATOR, UIA_SPLIT_BUTTON,
};

const WINDOW: Rect = Rect { left: 0, top: 0, right: 1000, bottom: 800 };

fn rect(left: i32, top: i32, right: i32, bottom: i32) -> Rect {
    Rect { left, top, right, bottom }
}

fn button(r: Rect, name: &str) -> Element {
    Element {
        control_type: Some(UIA_BUTTON),
        rect: Some(r),
        offscreen: Some(false),
        name: Some(name.to_string()),
    }
}

fn scan(elements: Vec<Element>) -> Vec<Hint> {
    let mut out: Vec<Hint> = Vec::new();
    for e in elements {
        consider(e, &WINDOW, &mut out);
    }
    out
}

#[test]
fn a_visible_button_becomes_a_hint() {
    let out = scan(vec![button(rect(10, 20, 110, 61), "Save")]);
    assert_eq!(out.len(), 1);
    let h = &out[0];
    assert_eq!((h.cx, h.cy, h.top), (60, 40, 20));
    assert_eq!((h.name.as_str(), h.control, h.above), ("Save", "Button", false));
}

#[test]
fn what_cannot_be_clicked_is_skipped() {
    let plain = Element { control_type: Some(UIA_PANE), ..button(rect(10, 20, 110, 60), "x") };
    let stale = Element { control_type: None, ..button(rect(10, 20, 110, 60), "x") };
    let nowhere = Element { rect: None, ..button(rect(10, 20, 110, 60), "x") };
    assert!(scan(vec![plain, stale, nowhere]).is_empty());
}

#[test]
fn what_cannot_be_seen_is_skipped() {
    let flat = button(rect(10, 20, 110, 20), "flat");
    let turned = button(rect(110, 20, 10, 60), "turned");
    let outside = button(rect(1001, 20, 1101, 60), "outside");
    let hidden = Element { offscreen: Some(true), ..button(rect(10, 20, 110, 60), "hidden") };
    assert!(scan(vec![flat, turned, outside, hidden]).is_empty());
}

#[test]
fn unknown_visibility_and_name_are_fine() {
    let e = Element { offscreen: None, name: None, ..button(rect(10, 20, 110, 60), "x") };
    let out = scan(vec![e]);
    assert_eq!(out.len(), 1);
    assert_eq!(out[0].name, "");
}

#[test]
fn the_window_edge_counts_as_inside() {
    assert_eq!(scan(vec![button(rect(990, 790, 1010, 810), "corner")]).len(), 1);
    assert_eq!(scan(vec![button(rect(992, 790, 1010, 810), "beyond")]).len(), 0);
}

#[test]
fn near_duplicates_are_dropped() {
    let out = scan(vec![
        button(rect(0, 0, 100, 100), "first"),
        button(rect(3, 3, 103, 103), "same spot"),
        button(rect(4, 0, 104, 100), "next to it"),
    ]);
    let names: Vec<&str> = out.iter().map(|h| h.name.as_str()).collect();
    assert_eq!(names, vec!["first", "next to it"]);
}

#[test]
fn taskbar_hints_are_labeled_above() {
    let mut out = scan(vec![
        button(rect(0, 0, 10, 10), "app"),
        button(rect(100, 700, 120, 720), "tray"),
    ]);
    mark_above(&mut out, 1);
    assert_eq!((out[0].above, out[1].above), (false, true));
    mark_above(&mut out, 9);
    assert_eq!((out[0].above, out[1].above), (false, true));
}

#[test]
fn a_scan_is_full_at_the_cap() {
    let mut out: Vec<Hint> = Vec::new();
    for i in 0..MAX_ELEMENTS as i32 {
        assert!(!scan_full(&out));
        let (x, y) = (10 * (i % 90), 10 * (i / 90));
        consider(button(rect(x, y, x + 8, y + 8), "b"), &WINDOW, &mut out);
    }
    assert_eq!(out.len(), MAX_ELEMENTS);
    assert!(scan_full(&out));
}

#[test]
fn control_labels() {
    assert_eq!(clickable_label(UIA_BUTTON), Some("Button"));
    assert_eq!(clickable_label(UIA_EDIT), Some("Edit"));
    assert_eq!(clickable_label(UIA_SPLIT_BUTTON), Some("SplitButton"));
    assert_eq!(clickable_label(50005), Some("Hyperlink"));
    assert_eq!(clickable_label(50035), Some("HeaderItem"));
    assert_eq!(clickable_label(UIA_PANE), None);
    assert_eq!(clickable_label(0), None);
}

#[test]
fn only_sizeable_panes_are_collected() {
    let r = rect(0, 0, 80, 80);
    assert_eq!(pane_rect(Some(UIA_PANE), Some(r)), Some(r));
    assert_eq!(pane_rect(Some(UIA_PANE), Some(rect(0, 0, 79, 200))), None);
    assert_eq!(pane_rect(Some(UIA_BUTTON), Some(r)), None);
    assert_eq!(pane_rect(None, Some(r)), None);
    assert_eq!(pane_rect(Some(UIA_PANE), None), None);
}

#[test]
fn thin_bars_and_separators_are_splitters() {
    assert_eq!(splitter_orientation(0, 4, 300), Some("↔"));
    assert_eq!(splitter_orientation(0, 300, 10), Some("↕"));
    assert_eq!(splitter_orientation(0, 11, 300), None);
    assert_eq!(splitter_orientation(0, 4, 39), None);
    assert_eq!(splitter_orientation(UIA_SEPARATOR, 20, 20), Some("↕"));
    assert_eq!(splitter_orientation(UIA_SEPARATOR, 0, 300), None);
}

#[test]
fn shell_windows_are_no_applications() {
    for class in ["Shell_TrayWnd", "Shell_SecondaryTrayWnd", "Progman", "WorkerW", "WinHintOverlay"] {
        assert!(!is_app_window(7, class));
    }
    assert!(is_app_window(7, "Notepad"));
    assert!(is_app_window(7, ""));
    assert!(!is_app_window(0, "Notepad"));
}

#[test]
fn the_last_application_is_remembered() {
    let mut last: isize = 0;
    assert_eq!(app_window(&mut last, 5, "Progman"), 0);
    assert_eq!(app_window(&mut last, 7, "Notepad"), 7);
    assert_eq!(app_window(&mut last, 5, "Shell_TrayWnd"), 7);
    assert_eq!(app_window(&mut last, 0, ""), 7);
    assert_eq!(app_window(&mut last, 9, "Explorer"), 9);
    assert_eq!(last, 9);
}

#[test]
fn no_window_is_no_target() {
    assert_eq!(target_window(0), None);
    assert_eq!(target_window(-3), Some(-3));
}
