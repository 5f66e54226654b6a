use winhint::geometry::{max_of, midpoint, min_of, within, Rect};

fn rect(left: i32, top: i32, right: i32, bottom: i32) -> Rect {
    Rect { left, top, right, bottom }
}

#[test]
fn sizes_are_differences() {
    let r = rect(-10, 20, 110, 220);
    assert_eq!(r.width(), 120);
    assert_eq!(r.height(), 200);
    assert!(r.at_least(120));
    assert!(!r.at_least(121));
}

#[test]
fn sizes_that_overflow_are_noticed() {
    assert!(rect(0, 0, i32::MAX, 1).is_measurable());
    assert!(!rect(-1, 0, i32::MAX, 1).is_measurable());
    assert!(!rect(0, i32::MIN, 1, 1).is_measurable());
}

#[test]
fn a_rectangle_of_any_size_can_be_compared() {
    assert!(rect(i32::MIN, i32::MIN, i32::MAX, i32::MAX).at_least(i32::MAX));
    assert!(!rect(i32::MAX, 0, i32::MIN, 10).at_least(0));
}

#[test]
fn midpoints_round_toward_zero() {
    assert_eq!(midpoint(290, 913), 601);
    assert_eq!(midpoint(-3, 0), -1);
    assert_eq!(midpoint(-300, -296), -298);
    assert_eq!(midpoint(i32::MAX, i32::MAX), i32::MAX);
    assert_eq!(midpoint(i32::MIN, i32::MAX), 0);
}

#[test]
fn within_counts_the_tolerance_in() {
    assert!(within(10, 18, 8));
    assert!(within(18, 10, 8));
    assert!(!within(10, 19, 8));
    assert!(!within(i32::MIN, i32::MAX, i32::MAX));
}

#[test]
fn lesser_and_greater() {
    assert_eq!(min_of(-5, 3), -5);
    assert_eq!(max_of(-5, 3), 3);
    assert_eq!(min_of(4, 4), 4);
    assert_eq!(max_of(4, 4), 4);
}
