//! What the global keyboard hook does with each key.
//!
//! The hook callback must stay fast, so it only decides: which intent to post to
//! the overlay window, if any, and whether to swallow the key so that it does not
//! reach the focused application.
//!
//! Trigger: tap CapsLock to enter hint mode; tap it again (or Esc) to leave. Two
//! taps in quick succession enter resize mode. Quit chord: Ctrl+Alt+Q, while
//! idle. While paused every key passes through, except for the quit chord.

use vstd::prelude::*;

use crate::message::Intent;

verus! {

/// Backspace.
pub const VK_BACK: u32 = 0x08;

/// Tab.
pub const VK_TAB: u32 = 0x09;

/// Enter.
pub const VK_RETURN: u32 = 0x0D;

/// Shift, either side.
pub const VK_SHIFT: u32 = 0x10;

/// Ctrl, either side.
pub const VK_CONTROL: u32 = 0x11;

/// Alt, either side.
pub const VK_MENU: u32 = 0x12;

/// CapsLock.
pub const VK_CAPITAL: u32 = 0x14;

/// Esc.
pub const VK_ESCAPE: u32 = 0x1B;

/// Space bar.
pub const VK_SPACE: u32 = 0x20;

/// Arrow left.
pub const VK_LEFT: u32 = 0x25;

/// Arrow up.
pub const VK_UP: u32 = 0x26;

/// Arrow right.
pub const VK_RIGHT: u32 = 0x27;

/// Arrow down.
pub const VK_DOWN: u32 = 0x28;

/// The `Q` key.
pub const VK_Q: u32 = 0x51;

/// Left Windows key.
pub const VK_LWIN: u32 = 0x5B;

/// Right Windows key.
pub const VK_RWIN: u32 = 0x5C;

/// Key pressed.
pub const WM_KEYDOWN: u32 = 0x0100;

/// Key released.
pub const WM_KEYUP: u32 = 0x0101;

/// Key pressed while Alt is held.
pub const WM_SYSKEYDOWN: u32 = 0x0104;

/// Key released while Alt is held.
pub const WM_SYSKEYUP: u32 = 0x0105;

/// Longest gap (milliseconds) between two CapsLock taps that makes them a
/// double-tap.
pub const DOUBLE_TAP_MS: u32 = 400;

/// What the hook knows between two keys.
#[derive(Clone, Copy, PartialEq, Eq, Debug, Structural)]
pub struct HookState {
    /// The window to post intents to, as a number; 0 before there is one.
    pub target: usize,
    /// Is hint or resize mode on?
    pub active: bool,
    /// Is resize mode on? (A sub-state of `active`.)
    pub resize_active: bool,
    /// Is every key to be logged?
    pub debug: bool,
    /// Are all keys to pass through?
    pub paused: bool,
    /// Time stamp (milliseconds) of the CapsLock press that asked for hint mode.
    pub last_caps_time: u32,
}

/// One key event, as the hook sees it.
#[derive(Clone, Copy, PartialEq, Eq, Debug, Structural)]
pub struct KeyEvent {
    /// Virtual-key code.
    pub vk: u32,
    /// Window message that reports the event ([`WM_KEYDOWN`] and so on).
    pub msg: u32,
    /// Time stamp, a millisecond count that wraps around.
    pub time: u32,
    /// Are both Ctrl and Alt held?
    pub ctrl_alt: bool,
    /// Is Shift held?
    pub shift: bool,
}

/// What to do with a key.
#[derive(Clone, Copy, PartialEq, Eq, Debug, Structural)]
pub struct KeyDecision {
    /// The intent to post to the overlay window.
    pub post: Option<Intent>,
    /// Swallow the key?
    pub suppress: bool,
}

// ---------------------------------------------------------------------------
// Keys
// ---------------------------------------------------------------------------

/// Is the key a modifier? Modifiers are never swallowed, to avoid a stuck one.
pub open spec fn modifier(vk: u32) -> bool {
    ||| vk == VK_CONTROL
    ||| vk == VK_MENU
    ||| vk == VK_SHIFT
    ||| vk == VK_LWIN
    ||| vk == VK_RWIN
    ||| 0xA0 <= vk <= 0xA5
}

/// Is the key one that the search text or a hint code takes: a letter, a digit,
/// Space or Backspace?
pub open spec fn text_key(vk: u32) -> bool {
    ||| 0x41 <= vk <= 0x5A
    ||| 0x30 <= vk <= 0x39
    ||| vk == VK_SPACE
    ||| vk == VK_BACK
}

impl KeyEvent {
    /// Is this a key press?
    pub open spec fn is_down(self) -> bool {
        self.msg == WM_KEYDOWN || self.msg == WM_SYSKEYDOWN
    }

    /// Is this a key release?
    pub open spec fn is_up(self) -> bool {
        self.msg == WM_KEYUP || self.msg == WM_SYSKEYUP
    }

    /// Is this the press that completes Ctrl+Alt+Q?
    pub open spec fn is_quit_chord(self) -> bool {
        self.is_down() && self.vk == VK_Q && self.ctrl_alt
    }

    /// Is this a press of CapsLock?
    pub open spec fn is_caps_down(self) -> bool {
        self.is_down() && self.vk == VK_CAPITAL
    }
}

// ---------------------------------------------------------------------------
// The decision
// ---------------------------------------------------------------------------

/// Milliseconds from `then` to `now` on a counter that wraps around.
pub open spec fn elapsed(now: u32, then: u32) -> int {
    (now - then) % 0x1_0000_0000
}

/// Does a CapsLock press at `time` follow the recorded one closely enough?
pub open spec fn double_tap(hook: HookState, time: u32) -> bool {
    elapsed(time, hook.last_caps_time) <= DOUBLE_TAP_MS
}

/// The intent of a key press while a mode is on.
pub open spec fn active_intent(hook: HookState, key: KeyEvent) -> Option<Intent> {
    if key.vk == VK_ESCAPE {
        Some(Intent::Cancel)
    } else if key.vk == VK_CAPITAL {
        if !hook.resize_active && double_tap(hook, key.time) {
            Some(Intent::Resize)
        } else {
            Some(Intent::Cancel)
        }
    } else if key.vk == VK_RETURN {
        Some(Intent::Confirm { shift: key.shift })
    } else if key.vk == VK_TAB && !hook.resize_active {
        Some(Intent::Tab)
    } else if key.vk == VK_UP || key.vk == VK_DOWN {
        Some(Intent::Nav { down: key.vk == VK_DOWN, shift: key.shift })
    } else if hook.resize_active && (key.vk == VK_LEFT || key.vk == VK_RIGHT) {
        Some(Intent::NavH { right: key.vk == VK_RIGHT, shift: key.shift })
    } else if text_key(key.vk) {
        Some(Intent::Key { vk: key.vk, shift: key.shift })
    } else {
        None
    }
}

/// The intent to post for a key event.
pub open spec fn intent_for(hook: HookState, key: KeyEvent) -> Option<Intent> {
    if hook.target == 0 || !key.is_down() {
        None
    } else if (hook.paused || !hook.active) && key.is_quit_chord() {
        Some(Intent::Quit)
    } else if hook.paused {
        None
    } else if hook.active {
        active_intent(hook, key)
    } else if key.vk == VK_CAPITAL {
        if double_tap(hook, key.time) {
            Some(Intent::Resize)
        } else {
            Some(Intent::Show)
        }
    } else {
        None
    }
}

/// Is the key event to be swallowed? While a mode is on, everything but
/// modifiers; while idle, CapsLock and the quit chord; while paused, the quit
/// chord alone.
pub open spec fn suppressed(hook: HookState, key: KeyEvent) -> bool {
    &&& hook.target != 0
    &&& key.is_down() || key.is_up()
    &&& if hook.paused {
        key.is_quit_chord()
    } else if hook.active {
        !modifier(key.vk)
    } else {
        key.vk == VK_CAPITAL || key.is_quit_chord()
    }
}

/// What the hook knows after a key event: the CapsLock press that asks for hint
/// mode is remembered, nothing else changes.
pub open spec fn hook_after(hook: HookState, key: KeyEvent) -> HookState {
    if intent_for(hook, key) == Some(Intent::Show) {
        HookState { last_caps_time: key.time, ..hook }
    } else {
        hook
    }
}

impl HookState {
    /// The hook before it is installed: no target, nothing on.
    pub fn new() -> (hook: HookState)
        ensures
            hook == (HookState {
                target: 0,
                active: false,
                resize_active: false,
                debug: false,
                paused: false,
                last_caps_time: 0,
            }),
    {
        HookState {
            target: 0,
            active: false,
            resize_active: false,
            debug: false,
            paused: false,
            last_caps_time: 0,
        }
    }
}

/// Tell the hook which window to post intents to.
pub fn set_target(hook: &mut HookState, target: usize)
    ensures
        *final(hook) == (HookState { target: target, ..*old(hook) }),
{
    hook.target = target;
}

/// Tell the hook whether hint mode is active (changes which keys it captures).
pub fn set_active(hook: &mut HookState, active: bool)
    ensures
        *final(hook) == (HookState { active: active, ..*old(hook) }),
{
    hook.active = active;
}

/// Tell the hook whether resize mode is active (a sub-state of active).
pub fn set_resize_active(hook: &mut HookState, resize: bool)
    ensures
        *final(hook) == (HookState { resize_active: resize, ..*old(hook) }),
{
    hook.resize_active = resize;
}

/// Enable logging of every key (for diagnosing the hook).
pub fn set_debug(hook: &mut HookState, debug: bool)
    ensures
        *final(hook) == (HookState { debug: debug, ..*old(hook) }),
{
    hook.debug = debug;
}

/// Pause or resume the hook.
pub fn set_paused(hook: &mut HookState, paused: bool)
    ensures
        *final(hook) == (HookState { paused: paused, ..*old(hook) }),
{
    hook.paused = paused;
}

/// Is the hook paused?
pub fn is_paused(hook: &HookState) -> (paused: bool)
    ensures
        paused == hook.paused,
{
    hook.paused
}

/// True for modifier keys.
pub fn is_modifier(vk: u32) -> (yes: bool)
    ensures
        yes == modifier(vk),
{
    vk == VK_CONTROL || vk == VK_MENU || vk == VK_SHIFT || vk == VK_LWIN || vk == VK_RWIN || (0xA0
        <= vk && vk <= 0xA5)
}

/// Is this a text key (`a`-`z`, `0`-`9`, Space or Backspace)? These are forwarded
/// as [`Intent::Key`].
pub fn is_text_key(vk: u32) -> (yes: bool)
    ensures
        yes == text_key(vk),
{
    (0x41 <= vk && vk <= 0x5A) || (0x30 <= vk && vk <= 0x39) || vk == VK_SPACE || vk == VK_BACK
}

/// Has the recorded CapsLock press been followed by one at `time` quickly enough?
fn is_double_tap(hook: &HookState, time: u32) -> (yes: bool)
    ensures
        yes == double_tap(*hook, time),
{
    time.wrapping_sub(hook.last_caps_time) <= DOUBLE_TAP_MS
}

/// The intent of a key press while a mode is on.
fn route_active(hook: &HookState, key: &KeyEvent) -> (intent: Option<Intent>)
    ensures
        intent == active_intent(*hook, *key),
{
    let vk: u32 = key.vk;
    // Esc always exits; in resize mode the window is restored.
    if vk == VK_ESCAPE {
        return Some(Intent::Cancel);
    }
    // CapsLock exits, unless it follows the activating tap quickly: that turns
    // hint mode into resize mode.
    if vk == VK_CAPITAL {
        return if !hook.resize_active && is_double_tap(hook, key.time) {
            Some(Intent::Resize)
        } else {
            Some(Intent::Cancel)
        };
    }
    if vk == VK_RETURN {
        return Some(Intent::Confirm { shift: key.shift });
    }
    if vk == VK_TAB {
        return if !hook.resize_active {
            Some(Intent::Tab)
        } else {
            None
        };
    }
    if vk == VK_UP {
        return Some(Intent::Nav { down: false, shift: key.shift });
    }
    if vk == VK_DOWN {
        return Some(Intent::Nav { down: true, shift: key.shift });
    }
    if hook.resize_active && vk == VK_LEFT {
        return Some(Intent::NavH { right: false, shift: key.shift });
    }
    if hook.resize_active && vk == VK_RIGHT {
        return Some(Intent::NavH { right: true, shift: key.shift });
    }
    if is_text_key(vk) {
        return Some(Intent::Key { vk: vk, shift: key.shift });
    }
    None
}

/// Decide what becomes of a key event: the intent to post, and whether to swallow
/// the key.
pub fn keyboard_proc(hook: &mut HookState, key: &KeyEvent) -> (decision: KeyDecision)
    ensures
        decision.post == intent_for(*old(hook), *key),
        decision.suppress == suppressed(*old(hook), *key),
        *final(hook) == hook_after(*old(hook), *key),
{
    let vk: u32 = key.vk;
    let is_down: bool = key.msg == WM_KEYDOWN || key.msg == WM_SYSKEYDOWN;
    let is_up: bool = key.msg == WM_KEYUP || key.msg == WM_SYSKEYUP;
    let pass: KeyDecision = KeyDecision { post: None, suppress: false };
    let swallow: KeyDecision = KeyDecision { post: None, suppress: true };
    if hook.target == 0 {
        return pass;
    }
    let quit_chord: bool = is_down && vk == VK_Q && key.ctrl_alt;
    if (hook.paused || !hook.active) && quit_chord {
        return KeyDecision { post: Some(Intent::Quit), suppress: true };
    }
    if hook.paused {
        return pass;
    }
    if !hook.active {
        if is_down && vk == VK_CAPITAL {
            // A slow scan can hold off activation past a quick second tap, which
            // then still arrives here: it is a double-tap all the same.
            if is_double_tap(hook, key.time) {
                return KeyDecision { post: Some(Intent::Resize), suppress: true };
            }
            hook.last_caps_time = key.time;
            return KeyDecision { post: Some(Intent::Show), suppress: true };
        }
        if is_up && vk == VK_CAPITAL {
            return swallow;
        }
        return pass;
    }
    if is_down {
        let intent: Option<Intent> = route_active(hook, key);
        return KeyDecision { post: intent, suppress: !is_modifier(vk) };
    }
    if is_up && !is_modifier(vk) {
        return swallow;
    }
    pass
}

} // verus!
