use winhint::hotkey::{is_paused, HookState};
use winhint::message::WM_RBUTTONUP;
use winhint::session::{activate, shown_to_user, Action, App};
use winhint::scanner::Hint;
use winhint::tray::{
    menu_command, opens_menu, toggle_label, toggle_pause, write_tip, TrayCommand, IDM_PAUSE_RESUME,
    IDM_QUIT,
};

fn hint() -> Hint {
    Hint { cx: 1, cy: 2, top: 0, name: String::new(), control: "Button", above: false }
}

#[test]
fn a_tip_ends_in_zero() {
    let mut buf = [7u16; 8];
    write_tip(&mut buf, "Hint");
    assert_eq!(buf, [72, 105, 110, 116, 0, 7, 7, 7]);
}

#[test]
fn a_long_tip_is_cut() {
    let mut buf = [7u16; 4];
    write_tip(&mut buf, "WinHint");
    assert_eq!(buf, [87, 105, 110, 0]);
    let mut one = [7u16; 1];
    write_tip(&mut one, "WinHint");
    assert_eq!(one, [0]);
}

#[test]
fn tips_are_utf16() {
    let text = "Wïn—😀é\u{FFFF}\u{10000}\u{10FFFF}";
    let mut buf = [7u16; 32];
    write_tip(&mut buf, text);
    let units: Vec<u16> = text.encode_utf16().collect();
    assert_eq!(buf[..units.len()], units[..]);
    assert_eq!(buf[units.len()], 0);
    assert_eq!(buf[units.len() + 1], 7);
}

#[test]
fn menu_commands_are_in_the_low_half() {
    assert_eq!(menu_command(IDM_PAUSE_RESUME as usize), Some(TrayCommand::PauseResume));
    assert_eq!(menu_command(IDM_QUIT as usize), Some(TrayCommand::Quit));
    assert_eq!(menu_command(0x5_0001), Some(TrayCommand::PauseResume));
    assert_eq!(menu_command(0), None);
    assert_eq!(menu_command(3), None);
    assert_eq!(menu_command(0x2_0000), None);
}

#[test]
fn the_right_button_opens_the_menu() {
    assert!(opens_menu(WM_RBUTTONUP as isize));
    assert!(!opens_menu(0x0202));
    assert!(!opens_menu(0));
}

#[test]
fn the_menu_offers_the_other_state() {
    assert_eq!(toggle_label(false), "Pause");
    assert_eq!(toggle_label(true), "Resume");
}

#[test]
fn pausing_toggles() {
    let mut app = App::new();
    let mut hook = HookState::new();
    assert_eq!(toggle_pause(&mut app, &mut hook), Action::Nothing);
    assert!(is_paused(&hook));
    assert_eq!(toggle_pause(&mut app, &mut hook), Action::Nothing);
    assert!(!is_paused(&hook));
}

#[test]
fn pausing_puts_the_overlay_away() {
    let mut app = App::new();
    let mut hook = HookState::new();
    assert!(activate(&mut app, vec![hint()]));
    shown_to_user(&mut app);
    assert_eq!(toggle_pause(&mut app, &mut hook), Action::Hide);
    assert!(!app.is_active());
}
