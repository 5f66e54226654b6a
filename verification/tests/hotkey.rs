use winhint::hotkey::{
    is_modifier, is_paused, is_text_key, keyboard_proc, set_active, set_debug, set_paused,
    set_resize_active, set_target, HookState, KeyDecision, KeyEvent, DOUBLE_TAP_MS, VK_BACK,
    VK_CAPITAL, VK_CONTROL, VK_DOWN, VK_ESCAPE, VK_LEFT, VK_LWIN, VK_Q, VK_RETURN, VK_RIGHT,
    VK_SHIFT, VK_SPACE, VK_TAB, VK_UP, WM_KEYDOWN, WM_KEYUP, WM_SYSKEYDOWN,
};
use winhint::message::Intent;

fn down(vk: u32) -> KeyEvent {
    KeyEvent { vk, msg: WM_KEYDOWN, time: 10_000, ctrl_alt: false, shift: false }
}

fn up(vk: u32) -> KeyEvent {
    KeyEvent { msg: WM_KEYUP, ..down(vk) }
}

fn idle() -> HookState {
    let mut hook = HookState::new();
    set_target(&mut hook, 0x1234);
    hook
}

fn active() -> HookState {
    let mut hook = idle();
    set_active(&mut hook, true);
    hook
}

fn resizing() -> HookState {
    let mut hook = active();
    set_resize_active(&mut hook, true);
    hook
}

fn ask(hook: HookState, key: KeyEvent) -> KeyDecision {
    let mut hook = hook;
    keyboard_proc(&mut hook, &key)
}

fn posts(intent: Intent) -> KeyDecision {
    KeyDecision { post: Some(intent), suppress: true }
}

const PASS: KeyDecision = KeyDecision { post: None, suppress: false };
const SWALLOW: KeyDecision = KeyDecision { post: None, suppress: true };

#[test]
fn caps_lock_shows_the_hints() {
    let mut hook = idle();
    assert_eq!(keyboard_proc(&mut hook, &down(VK_CAPITAL)), posts(Intent::Show));
    assert_eq!(hook.last_caps_time, 10_000);
    assert_eq!(ask(hook, up(VK_CAPITAL)), SWALLOW);
}

#[test]
fn a_quick_second_tap_asks_for_resize() {
    let mut hook = active();
    hook.last_caps_time = 10_000 - DOUBLE_TAP_MS;
    assert_eq!(ask(hook, down(VK_CAPITAL)), posts(Intent::Resize));
    hook.last_caps_time = 10_000 - DOUBLE_TAP_MS - 1;
    assert_eq!(ask(hook, down(VK_CAPITAL)), posts(Intent::Cancel));
}

#[test]
fn a_quick_second_tap_counts_before_the_scan_is_done() {
    let mut hook = idle();
    keyboard_proc(&mut hook, &down(VK_CAPITAL));
    let second = KeyEvent { time: 10_300, ..down(VK_CAPITAL) };
    assert_eq!(keyboard_proc(&mut hook, &second), posts(Intent::Resize));
    assert_eq!(hook.last_caps_time, 10_000);
}

#[test]
fn the_tap_clock_wraps_around() {
    let mut hook = active();
    hook.last_caps_time = u32::MAX - 99;
    assert_eq!(
        ask(hook, KeyEvent { time: 300, ..down(VK_CAPITAL) }),
        posts(Intent::Resize)
    );
    assert_eq!(
        ask(hook, KeyEvent { time: 301, ..down(VK_CAPITAL) }),
        posts(Intent::Cancel)
    );
}

#[test]
fn caps_lock_leaves_resize_mode() {
    let mut hook = resizing();
    hook.last_caps_time = 10_000;
    assert_eq!(ask(hook, down(VK_CAPITAL)), posts(Intent::Cancel));
}

#[test]
fn the_quit_chord_works_while_idle_only() {
    let chord = KeyEvent { msg: WM_SYSKEYDOWN, ctrl_alt: true, ..down(VK_Q) };
    assert_eq!(ask(idle(), chord), posts(Intent::Quit));
    assert_eq!(ask(active(), chord), posts(Intent::Key { vk: VK_Q, shift: false }));
    assert_eq!(ask(idle(), down(VK_Q)), PASS);
}

#[test]
fn idle_keys_pass() {
    assert_eq!(ask(idle(), down(0x41)), PASS);
    assert_eq!(ask(idle(), up(0x41)), PASS);
    assert_eq!(ask(idle(), down(VK_ESCAPE)), PASS);
}

#[test]
fn active_keys_are_routed() {
    let shifted = |vk: u32| KeyEvent { shift: true, ..down(vk) };
    assert_eq!(ask(active(), down(VK_ESCAPE)), posts(Intent::Cancel));
    assert_eq!(ask(active(), shifted(VK_RETURN)), posts(Intent::Confirm { shift: true }));
    assert_eq!(ask(active(), down(VK_TAB)), posts(Intent::Tab));
    assert_eq!(ask(active(), down(VK_UP)), posts(Intent::Nav { down: false, shift: false }));
    assert_eq!(ask(active(), shifted(VK_DOWN)), posts(Intent::Nav { down: true, shift: true }));
    assert_eq!(
        ask(active(), down(VK_SPACE)),
        posts(Intent::Key { vk: VK_SPACE, shift: false })
    );
    assert_eq!(ask(active(), down(VK_LEFT)), SWALLOW);
}

#[test]
fn resize_mode_routes_all_arrows_and_no_tab() {
    assert_eq!(
        ask(resizing(), down(VK_LEFT)),
        posts(Intent::NavH { right: false, shift: false })
    );
    assert_eq!(
        ask(resizing(), down(VK_RIGHT)),
        posts(Intent::NavH { right: true, shift: false })
    );
    assert_eq!(ask(resizing(), down(VK_TAB)), SWALLOW);
}

#[test]
fn nothing_but_modifiers_leaks_while_active() {
    for vk in 0..=0xFFu32 {
        let swallowed = !is_modifier(vk);
        assert_eq!(ask(active(), down(vk)).suppress, swallowed);
        assert_eq!(ask(active(), up(vk)), KeyDecision { post: None, suppress: swallowed });
    }
}

#[test]
fn paused_passes_all_but_the_quit_chord() {
    for base in [idle(), active(), resizing()] {
        let mut hook = base;
        set_paused(&mut hook, true);
        assert!(is_paused(&hook));
        assert_eq!(ask(hook, down(VK_CAPITAL)), PASS);
        assert_eq!(ask(hook, up(VK_CAPITAL)), PASS);
        assert_eq!(ask(hook, down(0x41)), PASS);
        assert_eq!(ask(hook, KeyEvent { ctrl_alt: true, ..down(VK_Q) }), posts(Intent::Quit));
    }
}

#[test]
fn without_a_window_everything_passes() {
    assert_eq!(ask(HookState::new(), down(VK_CAPITAL)), PASS);
    assert!(!is_paused(&HookState::new()));
}

#[test]
fn other_messages_pass() {
    let odd = KeyEvent { msg: 0x0102, ..down(VK_CAPITAL) };
    assert_eq!(ask(idle(), odd), PASS);
    assert_eq!(ask(active(), odd), PASS);
}

#[test]
fn setters_change_one_thing() {
    let mut hook = HookState::new();
    set_debug(&mut hook, true);
    assert_eq!(hook, HookState { debug: true, ..HookState::new() });
}

#[test]
fn key_classes() {
    for vk in [VK_CONTROL, VK_SHIFT, VK_LWIN, 0xA0, 0xA5] {
        assert!(is_modifier(vk));
    }
    for vk in [0x9F, 0xA6, VK_CAPITAL, 0x41] {
        assert!(!is_modifier(vk));
    }
    for vk in [0x41, 0x5A, 0x30, 0x39, VK_SPACE, VK_BACK] {
        assert!(is_text_key(vk));
    }
    for vk in [0x40, 0x5B, 0x2F, 0x3A, VK_RETURN] {
        assert!(!is_text_key(vk));
    }
}
