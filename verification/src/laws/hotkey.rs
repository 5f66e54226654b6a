//! Laws of the keyboard hook.

use vstd::prelude::*;

use crate::hotkey::{
    double_tap, elapsed, hook_after, intent_for, modifier, suppressed, HookState, KeyEvent,
    DOUBLE_TAP_MS, VK_CAPITAL,
};
use crate::message::Intent;

verus! {

/// A modifier is never swallowed, in any state, so none can get stuck.
pub proof fn law_modifiers_pass(hook: HookState, key: KeyEvent)
    requires
        modifier(key.vk),
    ensures
        !suppressed(hook, key),
        intent_for(hook, key) is None,
{
}

/// Once the hook has a target and is not paused, neither a press nor a release of
/// CapsLock gets through: it never toggles Caps.
pub proof fn law_caps_lock_never_toggles(hook: HookState, key: KeyEvent)
    requires
        hook.target != 0,
        !hook.paused,
        key.vk == VK_CAPITAL,
        key.is_down() || key.is_up(),
    ensures
        suppressed(hook, key),
{
}

/// While a mode is on, no key but a modifier reaches the focused application.
pub proof fn law_nothing_leaks_while_active(hook: HookState, key: KeyEvent)
    requires
        hook.target != 0,
        hook.active,
        !hook.paused,
        key.is_down() || key.is_up(),
    ensures
        suppressed(hook, key) <==> !modifier(key.vk),
{
}

/// A key that posts an intent is swallowed, and only key presses post one.
pub proof fn law_posting_keys_are_swallowed(hook: HookState, key: KeyEvent)
    requires
        intent_for(hook, key) is Some,
    ensures
        suppressed(hook, key),
        key.is_down(),
{
}

/// While paused, every key passes through and nothing is posted, except for the
/// quit chord, which quits.
pub proof fn law_paused_passes_all_but_quit(hook: HookState, key: KeyEvent)
    requires
        hook.paused,
        hook.target != 0,
    ensures
        suppressed(hook, key) <==> key.is_quit_chord(),
        intent_for(hook, key) == (if key.is_quit_chord() {
            Some(Intent::Quit)
        } else {
            None
        }),
        hook_after(hook, key) == hook,
{
}

/// While a mode is on the quit chord does nothing: quitting is for the idle (or
/// paused) hook alone.
pub proof fn law_no_quit_while_active(hook: HookState, key: KeyEvent)
    requires
        hook.active,
        !hook.paused,
    ensures
        intent_for(hook, key) != Some(Intent::Quit),
{
}

/// Before there is a window to post to, every key passes through.
pub proof fn law_no_target_no_effect(hook: HookState, key: KeyEvent)
    requires
        hook.target == 0,
    ensures
        !suppressed(hook, key),
        intent_for(hook, key) is None,
        hook_after(hook, key) == hook,
{
}

/// Two CapsLock presses within the double-tap time ask first for hint mode, then
/// for resize mode, whether or not hint mode came on in between.
pub proof fn law_double_tap_asks_for_resize(hook: HookState, first: KeyEvent, second: KeyEvent, on: bool)
    requires
        hook.target != 0,
        !hook.paused,
        !hook.active,
        !hook.resize_active,
        first.is_caps_down(),
        second.is_caps_down(),
        !double_tap(hook, first.time),
        elapsed(second.time, first.time) <= DOUBLE_TAP_MS,
    ensures
        intent_for(hook, first) == Some(Intent::Show),
        intent_for(HookState { active: on, ..hook_after(hook, first) }, second) == Some(
            Intent::Resize,
        ),
{
}

/// A second CapsLock press later than that leaves hint mode instead.
pub proof fn law_slow_second_tap_cancels(hook: HookState, first: KeyEvent, second: KeyEvent)
    requires
        hook.target != 0,
        !hook.paused,
        !hook.active,
        first.is_caps_down(),
        second.is_caps_down(),
        !double_tap(hook, first.time),
        elapsed(second.time, first.time) > DOUBLE_TAP_MS,
    ensures
        intent_for(HookState { active: true, ..hook_after(hook, first) }, second) == Some(
            Intent::Cancel,
        ),
{
}

// ---------------------------------------------------------------------------
// Key by key
// ---------------------------------------------------------------------------

/// The time from an earlier stamp to a later one, on a millisecond counter that
/// begins again at zero after 0xFFFF_FFFF.
pub open spec fn millis_between(then: u32, now: u32) -> int {
    if then <= now {
        now - then
    } else {
        0x1_0000_0000 - then + now
    }
}

/// While a mode is on, be it hints or resizing, a press of a letter, a digit, Space or
/// Backspace hands over that very key, with Shift as it is held.
pub proof fn law_text_keys_are_handed_over(hook: HookState, key: KeyEvent)
    requires
        hook.target != 0,
        hook.active,
        !hook.paused,
        key.msg == 0x100 || key.msg == 0x104,
        0x41 <= key.vk <= 0x5A || 0x30 <= key.vk <= 0x39 || key.vk == 0x20 || key.vk == 0x08,
    ensures
        intent_for(hook, key) == Some(Intent::Key { vk: key.vk, shift: key.shift }),
        suppressed(hook, key),
        hook_after(hook, key) == hook,
{
}

/// While a mode is on, Esc leaves it, Enter confirms and Up and Down navigate, with Shift
/// as it is held; Tab counts among the hints only, Left and Right in resize mode only.
pub proof fn law_control_keys_are_handed_over(hook: HookState, key: KeyEvent)
    requires
        hook.target != 0,
        hook.active,
        !hook.paused,
        key.msg == 0x100 || key.msg == 0x104,
    ensures
        key.vk == 0x1B ==> intent_for(hook, key) == Some(Intent::Cancel),
        key.vk == 0x0D ==> intent_for(hook, key) == Some(Intent::Confirm { shift: key.shift }),
        key.vk == 0x26 ==> intent_for(hook, key) == Some(
            Intent::Nav { down: false, shift: key.shift },
        ),
        key.vk == 0x28 ==> intent_for(hook, key) == Some(
            Intent::Nav { down: true, shift: key.shift },
        ),
        key.vk == 0x09 && !hook.resize_active ==> intent_for(hook, key) == Some(Intent::Tab),
        key.vk == 0x09 && hook.resize_active ==> intent_for(hook, key) is None,
        key.vk == 0x25 && hook.resize_active ==> intent_for(hook, key) == Some(
            Intent::NavH { right: false, shift: key.shift },
        ),
        key.vk == 0x27 && hook.resize_active ==> intent_for(hook, key) == Some(
            Intent::NavH { right: true, shift: key.shift },
        ),
        (key.vk == 0x25 || key.vk == 0x27) && !hook.resize_active ==> intent_for(hook, key) is None,
{
}

/// While a mode is on, CapsLock leaves it; only a press among the hints at most 400
/// milliseconds after the one that brought them up asks for resize mode.
pub proof fn law_caps_lock_leaves_or_resizes(hook: HookState, key: KeyEvent)
    requires
        hook.target != 0,
        hook.active,
        !hook.paused,
        key.msg == 0x100 || key.msg == 0x104,
        key.vk == 0x14,
    ensures
        intent_for(hook, key) == Some(
            if !hook.resize_active && millis_between(hook.last_caps_time, key.time) <= 400 {
                Intent::Resize
            } else {
                Intent::Cancel
            },
        ),
        hook_after(hook, key) == hook,
{
}

/// While a mode is on, a press of any other key hands nothing over.
pub proof fn law_other_keys_hand_nothing_over(hook: HookState, key: KeyEvent)
    requires
        hook.active,
        !hook.paused,
        !(0x41 <= key.vk <= 0x5A || 0x30 <= key.vk <= 0x39 || 0x25 <= key.vk <= 0x28),
        key.vk != 0x20 && key.vk != 0x08 && key.vk != 0x1B && key.vk != 0x0D && key.vk != 0x09,
        key.vk != 0x14,
    ensures
        intent_for(hook, key) is None,
        hook_after(hook, key) == hook,
{
}

/// While no mode is on, a press of CapsLock brings up the hints and is remembered; one
/// at most 400 milliseconds after the remembered one asks for resize mode instead.
pub proof fn law_idle_caps_lock_shows_or_resizes(hook: HookState, key: KeyEvent)
    requires
        hook.target != 0,
        !hook.active,
        !hook.paused,
        key.msg == 0x100 || key.msg == 0x104,
        key.vk == 0x14,
    ensures
        millis_between(hook.last_caps_time, key.time) <= 400 ==> intent_for(hook, key) == Some(
            Intent::Resize,
        ) && hook_after(hook, key) == hook,
        millis_between(hook.last_caps_time, key.time) > 400 ==> intent_for(hook, key) == Some(
            Intent::Show,
        ) && hook_after(hook, key) == (HookState { last_caps_time: key.time, ..hook }),
        suppressed(hook, key),
{
}

/// A press of Q with Ctrl and Alt held quits while paused or with no mode on, and is
/// swallowed. Nothing else ever quits.
pub proof fn law_quit_chord_quits(hook: HookState, key: KeyEvent)
    ensures
        intent_for(hook, key) == Some(Intent::Quit) <==> hook.target != 0 && (key.msg == 0x100
            || key.msg == 0x104) && key.vk == 0x51 && key.ctrl_alt && (hook.paused
            || !hook.active),
        intent_for(hook, key) == Some(Intent::Quit) ==> suppressed(hook, key),
{
}

/// Short of the quit chord, every key passes and hands nothing over while paused, and
/// every key but CapsLock while no mode is on.
pub proof fn law_idle_keys_pass(hook: HookState, key: KeyEvent)
    requires
        hook.paused || (!hook.active && key.vk != 0x14),
        key.vk != 0x51 || !key.ctrl_alt,
    ensures
        intent_for(hook, key) is None,
        !suppressed(hook, key),
        hook_after(hook, key) == hook,
{
}

/// A release hands nothing over. It is swallowed like the press: while a mode is on,
/// for every key but Shift, Ctrl, Alt and the Windows keys; with no mode on, for CapsLock
/// alone.
pub proof fn law_releases_hand_nothing_over(hook: HookState, key: KeyEvent)
    requires
        key.msg == 0x101 || key.msg == 0x105,
    ensures
        intent_for(hook, key) is None,
        hook_after(hook, key) == hook,
        suppressed(hook, key) <==> hook.target != 0 && !hook.paused && if hook.active {
            !(0x10 <= key.vk <= 0x12 || key.vk == 0x5B || key.vk == 0x5C || 0xA0 <= key.vk <= 0xA5)
        } else {
            key.vk == 0x14
        },
{
}

/// While a mode is on, a press is swallowed for every key but Shift, Ctrl, Alt (on either
/// side) and the Windows keys, and those hand nothing over.
pub proof fn law_presses_are_swallowed_but_modifiers(hook: HookState, key: KeyEvent)
    requires
        hook.target != 0,
        hook.active,
        !hook.paused,
        key.msg == 0x100 || key.msg == 0x104,
    ensures
        suppressed(hook, key) <==> !(0x10 <= key.vk <= 0x12 || key.vk == 0x5B || key.vk == 0x5C
            || 0xA0 <= key.vk <= 0xA5),
        !suppressed(hook, key) ==> intent_for(hook, key) is None,
{
}

/// A message that is neither a press nor a release passes and does nothing.
pub proof fn law_other_messages_pass(hook: HookState, key: KeyEvent)
    requires
        key.msg != 0x100 && key.msg != 0x101 && key.msg != 0x104 && key.msg != 0x105,
    ensures
        intent_for(hook, key) is None,
        !suppressed(hook, key),
        hook_after(hook, key) == hook,
{
}

/// Only a press of CapsLock that brings up the hints is remembered: with no mode on, not
/// paused, and more than 400 milliseconds after the one before. No other event changes what
/// the hook knows.
pub proof fn law_only_the_tap_that_shows_is_remembered(hook: HookState, key: KeyEvent)
    ensures
        ({
            let shows = hook.target != 0 && !hook.active && !hook.paused && (key.msg == 0x100
                || key.msg == 0x104) && key.vk == 0x14 && millis_between(
                hook.last_caps_time,
                key.time,
            ) > 400;
            &&& shows ==> hook_after(hook, key) == (HookState { last_caps_time: key.time, ..hook })
            &&& !shows ==> hook_after(hook, key) == hook
            &&& intent_for(hook, key) == Some(Intent::Show) <==> shows
        }),
{
}

} // verus!
