use winhint::click::{
    click, drag, input_at, normalize, right_click, MouseEvent, MouseInput, VirtualScreen,
};

const SCREEN: VirtualScreen = VirtualScreen { x: 0, y: 0, width: 1920, height: 1080 };
const LEFT_OF_PRIMARY: VirtualScreen = VirtualScreen { x: -1280, y: -200, width: 3200, height: 1280 };

/// A desktop on which absolute units are 257 to the pixel.
const SMALL: VirtualScreen = VirtualScreen { x: 0, y: 0, width: 256, height: 256 };

fn at(x: i32, y: i32, event: MouseEvent) -> MouseInput {
    MouseInput { dx: 257 * x, dy: 257 * y, event }
}

#[test]
fn corners_map_to_the_ends_of_the_range() {
    assert_eq!(normalize(0, 0, &SCREEN), (0, 0));
    assert_eq!(normalize(1919, 1079, &SCREEN), (65535, 65535));
    assert_eq!(normalize(-1280, -200, &LEFT_OF_PRIMARY), (0, 0));
    assert_eq!(normalize(1919, 1079, &LEFT_OF_PRIMARY), (65535, 65535));
}

#[test]
fn points_are_scaled_and_cut() {
    assert_eq!(normalize(960, 540, &SCREEN), (32784, 32797));
    assert_eq!(normalize(-1, -1, &SCREEN), (-34, -60));
}

#[test]
fn a_screen_without_size_does_not_divide_by_zero() {
    let none = VirtualScreen { x: 0, y: 0, width: 0, height: 1 };
    assert_eq!(normalize(1, 2, &none), (65535, 131070));
}

#[test]
fn a_click_moves_presses_and_releases() {
    assert_eq!(
        click(10, 20, &SMALL),
        vec![
            at(10, 20, MouseEvent::Move),
            at(10, 20, MouseEvent::LeftDown),
            at(10, 20, MouseEvent::LeftUp),
        ]
    );
    assert_eq!(
        right_click(10, 20, &SMALL),
        vec![
            at(10, 20, MouseEvent::Move),
            at(10, 20, MouseEvent::RightDown),
            at(10, 20, MouseEvent::RightUp),
        ]
    );
    assert_eq!(input_at(1, 2, MouseEvent::Move, &SMALL), at(1, 2, MouseEvent::Move));
}

#[test]
fn a_coarse_step_has_one_move_in_between() {
    assert_eq!(
        drag((100, 50), (108, 50), &SMALL),
        vec![
            at(100, 50, MouseEvent::Move),
            at(100, 50, MouseEvent::LeftDown),
            at(104, 50, MouseEvent::Move),
            at(108, 50, MouseEvent::Move),
            at(108, 50, MouseEvent::LeftUp),
        ]
    );
}

#[test]
fn a_fine_step_goes_straight_to_its_goal() {
    assert_eq!(
        drag((100, 50), (100, 49), &SMALL),
        vec![
            at(100, 50, MouseEvent::Move),
            at(100, 50, MouseEvent::LeftDown),
            at(100, 49, MouseEvent::Move),
            at(100, 49, MouseEvent::LeftUp),
        ]
    );
}

#[test]
fn a_long_drag_has_eight_moves() {
    let inputs = drag((0, 200), (200, 0), &SMALL);
    assert_eq!(inputs.len(), 11);
    assert_eq!(inputs[2], at(25, 175, MouseEvent::Move));
    assert_eq!(inputs[8], at(175, 25, MouseEvent::Move));
    assert_eq!(inputs[9], at(200, 0, MouseEvent::Move));
    let pressed = inputs.iter().filter(|i| i.event == MouseEvent::LeftDown).count();
    let released = inputs.iter().filter(|i| i.event == MouseEvent::LeftUp).count();
    assert_eq!((pressed, released), (1, 1));
    assert_eq!(inputs[10].event, MouseEvent::LeftUp);
}

#[test]
fn a_backward_drag_rounds_toward_its_start() {
    let inputs = drag((10, 0), (0, 0), &SMALL);
    assert_eq!(inputs[2], at(5, 0, MouseEvent::Move));
    let inputs = drag((0, 13), (0, 0), &SMALL);
    assert_eq!(inputs[2], at(0, 9, MouseEvent::Move));
    assert_eq!(inputs[3], at(0, 5, MouseEvent::Move));
}
