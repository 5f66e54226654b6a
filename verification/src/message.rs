//! The private window messages between the keyboard hook and the overlay window.
//!
//! The hook runs on a thread of its own and hands every intent over as a posted
//! window message: a number and two machine words.

use vstd::prelude::*;

verus! {

/// First message number that is free for an application's own use.
pub const WM_APP: u32 = 0x8000;

/// The window is going away.
pub const WM_DESTROY: u32 = 0x0002;

/// A menu command was chosen (low word of `wparam`: the command).
pub const WM_COMMAND: u32 = 0x0111;

/// The right mouse button was released (reported by the tray icon).
pub const WM_RBUTTONUP: u32 = 0x0205;

/// Hotkey pressed: enter hint mode.
pub const WM_APP_SHOW: u32 = WM_APP + 1;

/// A text key was typed (`wparam`: virtual-key code; `lparam` bit 0: Shift).
pub const WM_APP_KEY: u32 = WM_APP + 2;

/// Escape or CapsLock pressed: leave the current mode.
pub const WM_APP_CANCEL: u32 = WM_APP + 3;

/// Quit chord pressed: exit.
pub const WM_APP_QUIT: u32 = WM_APP + 4;

/// Enter pressed: act on the selected match (`lparam` bit 0: Shift, which makes
/// it a right-click).
pub const WM_APP_CONFIRM: u32 = WM_APP + 5;

/// Tab pressed: cycle the matching mode.
pub const WM_APP_TAB: u32 = WM_APP + 6;

/// Arrow Up or Down (`wparam`: 0 up, 1 down; `lparam` bit 0: Shift).
pub const WM_APP_NAV: u32 = WM_APP + 7;

/// CapsLock tapped twice in quick succession: enter resize mode.
pub const WM_APP_RESIZE: u32 = WM_APP + 8;

/// Arrow Left or Right (`wparam`: 0 left, 1 right; `lparam` bit 0: Shift).
pub const WM_APP_NAV_H: u32 = WM_APP + 9;

/// A mouse event on the tray icon (`lparam`: the event).
pub const WM_APP_TRAY: u32 = WM_APP + 10;

/// What the hook asks of the overlay window.
#[derive(Clone, Copy, PartialEq, Eq, Debug, Structural)]
pub enum Intent {
    Show,
    Key { vk: u32, shift: bool },
    Cancel,
    Quit,
    Confirm { shift: bool },
    Tab,
    Nav { down: bool, shift: bool },
    Resize,
    NavH { right: bool, shift: bool },
}

/// A window message: its number and its two words.
#[derive(Clone, Copy, PartialEq, Eq, Debug, Structural)]
pub struct Posted {
    pub msg: u32,
    pub wparam: usize,
    pub lparam: isize,
}

/// A flag as a message word.
pub open spec fn flag(set: bool) -> int {
    if set {
        1
    } else {
        0
    }
}

/// The message number that carries the intent.
pub open spec fn message_number(intent: Intent) -> u32 {
    match intent {
        Intent::Show => WM_APP_SHOW,
        Intent::Key { .. } => WM_APP_KEY,
        Intent::Cancel => WM_APP_CANCEL,
        Intent::Quit => WM_APP_QUIT,
        Intent::Confirm { .. } => WM_APP_CONFIRM,
        Intent::Tab => WM_APP_TAB,
        Intent::Nav { .. } => WM_APP_NAV,
        Intent::Resize => WM_APP_RESIZE,
        Intent::NavH { .. } => WM_APP_NAV_H,
    }
}

/// The first message word of the intent.
pub open spec fn first_word(intent: Intent) -> int {
    match intent {
        Intent::Key { vk, .. } => vk as int,
        Intent::Nav { down, .. } => flag(down),
        Intent::NavH { right, .. } => flag(right),
        _ => 0,
    }
}

/// The second message word of the intent.
pub open spec fn second_word(intent: Intent) -> int {
    match intent {
        Intent::Key { shift, .. } => flag(shift),
        Intent::Confirm { shift } => flag(shift),
        Intent::Nav { shift, .. } => flag(shift),
        Intent::NavH { shift, .. } => flag(shift),
        _ => 0,
    }
}

/// The intent that a window message carries, if it carries one. Shift is bit 0 of
/// the second word.
pub open spec fn intent_of(msg: u32, wparam: usize, lparam: isize) -> Option<Intent> {
    let shift = lparam % 2 != 0;
    if msg == WM_APP_SHOW {
        Some(Intent::Show)
    } else if msg == WM_APP_KEY {
        Some(Intent::Key { vk: wparam as u32, shift })
    } else if msg == WM_APP_CANCEL {
        Some(Intent::Cancel)
    } else if msg == WM_APP_QUIT || msg == WM_DESTROY {
        Some(Intent::Quit)
    } else if msg == WM_APP_CONFIRM {
        Some(Intent::Confirm { shift })
    } else if msg == WM_APP_TAB {
        Some(Intent::Tab)
    } else if msg == WM_APP_NAV {
        Some(Intent::Nav { down: wparam == 1, shift })
    } else if msg == WM_APP_RESIZE {
        Some(Intent::Resize)
    } else if msg == WM_APP_NAV_H {
        Some(Intent::NavH { right: wparam == 1, shift })
    } else {
        None
    }
}

/// The window message that carries the intent.
pub fn encode(intent: Intent) -> (posted: Posted)
    ensures
        posted.msg == message_number(intent),
        posted.wparam == first_word(intent),
        posted.lparam == second_word(intent),
{
    match intent {
        Intent::Show => Posted { msg: WM_APP_SHOW, wparam: 0, lparam: 0 },
        Intent::Key { vk, shift } => Posted {
            msg: WM_APP_KEY,
            wparam: vk as usize,
            lparam: shift as isize,
        },
        Intent::Cancel => Posted { msg: WM_APP_CANCEL, wparam: 0, lparam: 0 },
        Intent::Quit => Posted { msg: WM_APP_QUIT, wparam: 0, lparam: 0 },
        Intent::Confirm { shift } => Posted {
            msg: WM_APP_CONFIRM,
            wparam: 0,
            lparam: shift as isize,
        },
        Intent::Tab => Posted { msg: WM_APP_TAB, wparam: 0, lparam: 0 },
        Intent::Nav { down, shift } => Posted {
            msg: WM_APP_NAV,
            wparam: down as usize,
            lparam: shift as isize,
        },
        Intent::Resize => Posted { msg: WM_APP_RESIZE, wparam: 0, lparam: 0 },
        Intent::NavH { right, shift } => Posted {
            msg: WM_APP_NAV_H,
            wparam: right as usize,
            lparam: shift as isize,
        },
    }
}

/// The intent that a window message carries; `None` for a message that is not
/// ours.
pub fn decode(msg: u32, wparam: usize, lparam: isize) -> (intent: Option<Intent>)
    ensures
        intent == intent_of(msg, wparam, lparam),
{
    let shift: bool = lparam % 2 != 0;
    match msg {
        WM_APP_SHOW => Some(Intent::Show),
        WM_APP_KEY => Some(Intent::Key { vk: wparam as u32, shift }),
        WM_APP_CANCEL => Some(Intent::Cancel),
        WM_APP_QUIT => Some(Intent::Quit),
        WM_DESTROY => Some(Intent::Quit),
        WM_APP_CONFIRM => Some(Intent::Confirm { shift }),
        WM_APP_TAB => Some(Intent::Tab),
        WM_APP_NAV => Some(Intent::Nav { down: wparam == 1, shift }),
        WM_APP_RESIZE => Some(Intent::Resize),
        WM_APP_NAV_H => Some(Intent::NavH { right: wparam == 1, shift }),
        _ => None,
    }
}

} // verus!
