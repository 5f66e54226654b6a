use winhint::geometry::Rect;
use winhint::resize::{apply_handle_move, can_move, handle_positions, Handle, MIN_HEIGHT, MIN_WIDTH};

fn rect(l: i32, t: i32, r: i32, b: i32) -> Rect {
    Rect {
        left: l,
        top: t,
        right: r,
        bottom: b,
    }
}
/// Compare a rect to expected (left, top, right, bottom) without relying on
/// Rect's own equality.
fn assert_rect(a: Rect, l: i32, t: i32, r: i32, b: i32) {
    assert_eq!((a.left, a.top, a.right, a.bottom), (l, t, r, b));
}

#[test]
fn right_edge_grows() {
    let out = apply_handle_move(rect(0, 0, 400, 300), Handle::Right, 50, 0, MIN_WIDTH, MIN_HEIGHT);
    assert_rect(out, 0, 0, 450, 300);
}

#[test]
fn bottom_right_corner_moves_two_edges() {
    let out = apply_handle_move(
        rect(0, 0, 400, 300),
        Handle::BottomRight,
        20,
        30,
        MIN_WIDTH,
        MIN_HEIGHT,
    );
    assert_rect(out, 0, 0, 420, 330);
}

#[test]
fn top_left_corner_moves_origin() {
    let out = apply_handle_move(
        rect(100, 100, 500, 400),
        Handle::TopLeft,
        -10,
        -20,
        MIN_WIDTH,
        MIN_HEIGHT,
    );
    assert_rect(out, 90, 80, 500, 400);
}

#[test]
fn left_edge_clamps_to_min_width() {
    // Drag left edge right by 300 → width would be 100 < 200 → clamp.
    let out = apply_handle_move(rect(0, 0, 400, 300), Handle::Left, 300, 0, MIN_WIDTH, MIN_HEIGHT);
    assert_eq!(out.right, 400, "fixed edge stays");
    assert_eq!(out.right - out.left, MIN_WIDTH, "clamped to min width");
}

#[test]
fn top_edge_clamps_to_min_height() {
    // Drag top edge down by 250 → height would be 50 < 120 → clamp.
    let out = apply_handle_move(rect(0, 0, 400, 300), Handle::Top, 0, 250, MIN_WIDTH, MIN_HEIGHT);
    assert_eq!(out.bottom, 300, "fixed edge stays");
    assert_eq!(out.bottom - out.top, MIN_HEIGHT, "clamped to min height");
}

#[test]
fn positions_lie_on_rect() {
    let p = handle_positions(rect(10, 20, 110, 220));
    assert!(p.contains(&(Handle::TopLeft, 10, 20)));
    assert!(p.contains(&(Handle::BottomRight, 110, 220)));
    assert!(p.contains(&(Handle::Top, 60, 20))); // midpoint of top edge
    assert!(p.contains(&(Handle::Left, 10, 120))); // midpoint of left edge
}

#[test]
fn all_returns_eight_distinct_handles() {
    let a = Handle::all();
    assert_eq!(a.len(), 8);
    for (i, h) in a.iter().enumerate() {
        assert!(!a[..i].contains(h), "duplicate handle in all()");
    }
}

#[test]
fn edges_follow_the_handle() {
    assert_eq!(Handle::TopLeft.edges(), (true, true, false, false));
    assert_eq!(Handle::Right.edges(), (false, false, true, false));
    assert_eq!(Handle::Bottom.edges(), (false, false, false, true));
    assert_eq!(Handle::TopRight.edges(), (false, true, true, false));
}

#[test]
fn a_side_handle_ignores_the_other_axis() {
    let out = apply_handle_move(rect(0, 0, 400, 300), Handle::Left, -10, 50, MIN_WIDTH, MIN_HEIGHT);
    assert_rect(out, -10, 0, 400, 300);
}

#[test]
fn right_edge_clamps_to_min_width() {
    let out = apply_handle_move(rect(0, 0, 400, 300), Handle::Right, -350, 0, MIN_WIDTH, MIN_HEIGHT);
    assert_rect(out, 0, 0, 200, 300);
}

#[test]
fn bottom_edge_clamps_to_min_height() {
    let out =
        apply_handle_move(rect(0, 0, 400, 300), Handle::BottomLeft, 0, -500, MIN_WIDTH, MIN_HEIGHT);
    assert_rect(out, 0, 0, 400, 120);
}

#[test]
fn moving_back_restores_the_rectangle() {
    let start = rect(100, 100, 600, 500);
    for handle in Handle::all() {
        let there = apply_handle_move(start, handle, 8, -8, MIN_WIDTH, MIN_HEIGHT);
        let back = apply_handle_move(there, handle, -8, 8, MIN_WIDTH, MIN_HEIGHT);
        assert_eq!(back, start);
    }
}

#[test]
fn moves_past_the_coordinate_range_are_refused() {
    let far = rect(0, 0, i32::MAX - 3, 300);
    assert!(can_move(far, Handle::Right, 3, 0, MIN_WIDTH, MIN_HEIGHT));
    assert!(!can_move(far, Handle::Right, 4, 0, MIN_WIDTH, MIN_HEIGHT));
    assert!(can_move(far, Handle::Left, 4, 0, MIN_WIDTH, MIN_HEIGHT));
}

#[test]
fn handles_come_in_label_order() {
    let p = handle_positions(rect(0, 0, 100, 60));
    assert_eq!(p[0], (Handle::TopLeft, 0, 0));
    assert_eq!(p[1], (Handle::Top, 50, 0));
    for (i, (h, _, _)) in p.iter().enumerate() {
        assert_eq!(*h, Handle::all()[i]);
    }
}
