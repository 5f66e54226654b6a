//! The icon in the notification area and its menu.

use vstd::prelude::*;

use crate::hotkey::{is_paused, set_paused, HookState};
use crate::message::{Intent, WM_RBUTTONUP};
use crate::session::{dispatch, step, Action, App, AppModel};
use crate::text::chars_of;

verus! {

/// Menu command that pauses or resumes the hook.
pub const IDM_PAUSE_RESUME: u32 = 1;

/// Menu command that quits.
pub const IDM_QUIT: u32 = 2;

/// Number of our one icon.
pub const TRAY_ICON_ID: u32 = 1;

/// What the menu offers.
#[derive(Clone, Copy, PartialEq, Eq, Debug, Structural)]
pub enum TrayCommand {
    PauseResume,
    Quit,
}

/// The command that a menu message carries: its number is the low half of the
/// first message word.
pub open spec fn command_of(wparam: usize) -> Option<TrayCommand> {
    let number = wparam % 0x1_0000;
    if number == IDM_PAUSE_RESUME {
        Some(TrayCommand::PauseResume)
    } else if number == IDM_QUIT {
        Some(TrayCommand::Quit)
    } else {
        None
    }
}

/// The command that a menu message carries, if it is one of ours.
pub fn menu_command(wparam: usize) -> (command: Option<TrayCommand>)
    ensures
        command == command_of(wparam),
{
    let number: usize = wparam % 0x1_0000;
    if number == IDM_PAUSE_RESUME as usize {
        Some(TrayCommand::PauseResume)
    } else if number == IDM_QUIT as usize {
        Some(TrayCommand::Quit)
    } else {
        None
    }
}

/// Does the mouse event on the icon open the menu? The right button does.
pub fn opens_menu(lparam: isize) -> (yes: bool)
    ensures
        yes == (lparam == WM_RBUTTONUP),
{
    lparam == WM_RBUTTONUP as isize
}

/// The menu text of the pause command: what choosing it would do.
pub fn toggle_label(paused: bool) -> (label: &'static str)
    ensures
        label@ == (if paused {
            "Resume"@
        } else {
            "Pause"@
        }),
{
    if paused {
        "Resume"
    } else {
        "Pause"
    }
}

/// State, hook and action after pausing or resuming: pausing puts an open overlay away.
pub open spec fn after_toggle(m: AppModel, hook: HookState) -> (AppModel, HookState, Action) {
    let told = HookState { paused: !hook.paused, ..hook };
    if !hook.paused && m.active() {
        let (after, action) = step(m, Intent::Cancel);
        (after, told, action)
    } else {
        (m, told, Action::Nothing)
    }
}

/// Pause or resume. Pausing puts an open overlay away, as Esc would.
pub fn toggle_pause(app: &mut App, hook: &mut HookState) -> (action: Action)
    requires
        old(app)@.wf(),
    ensures
        *final(hook) == (HookState { paused: !old(hook).paused, ..*old(hook) }),
        !old(hook).paused && old(app)@.active() ==> (final(app)@, action) == step(
            old(app)@,
            Intent::Cancel,
        ),
        old(hook).paused || !old(app)@.active() ==> final(app)@ == old(app)@ && action
            == Action::Nothing,
        (final(app)@, *final(hook), action) == after_toggle(old(app)@, *old(hook)),
        final(app)@.wf(),
{
    let pause: bool = !is_paused(hook);
    set_paused(hook, pause);
    if pause && app.is_active() {
        dispatch(app, Intent::Cancel)
    } else {
        Action::Nothing
    }
}

// ---------------------------------------------------------------------------
// The tooltip
// ---------------------------------------------------------------------------

/// A character in UTF-16: one unit, or a surrogate pair.
pub open spec fn utf16_char(c: char) -> Seq<u16> {
    let n = c as int;
    if n < 0x1_0000 {
        seq![n as u16]
    } else {
        seq![
            (0xD800 + (n - 0x1_0000) / 0x400) as u16,
            (0xDC00 + (n - 0x1_0000) % 0x400) as u16,
        ]
    }
}

/// Text in UTF-16.
pub open spec fn utf16(text: Seq<char>) -> Seq<u16>
    decreases text.len(),
{
    if text.len() == 0 {
        Seq::empty()
    } else {
        utf16(text.drop_last()) + utf16_char(text.last())
    }
}

/// As much of `units` as leaves room for one more in a buffer of `size`.
pub open spec fn fitted(units: Seq<u16>, size: int) -> Seq<u16> {
    if units.len() <= size - 1 {
        units
    } else {
        units.take(size - 1)
    }
}

/// Every character is a Unicode scalar value.
proof fn lemma_scalar_value(c: char)
    ensures
        0 <= c as int <= 0x10_FFFF,
{
}

/// Text in UTF-16.
fn encode_utf16(text: &str) -> (units: Vec<u16>)
    ensures
        units@ == utf16(text@),
{
    let chars: Vec<char> = chars_of(text);
    let mut units: Vec<u16> = Vec::new();
    let mut i: usize = 0;
    assert(chars@.take(0) =~= Seq::<char>::empty());
    while i < chars.len()
        invariant
            i <= chars@.len(),
            chars@ == text@,
            units@ == utf16(chars@.take(i as int)),
        decreases chars@.len() - i,
    {
        let ghost before = units@;
        proof {
            lemma_scalar_value(chars@[i as int]);
        }
        let n: u32 = chars[i] as u32;
        if n < 0x1_0000 {
            units.push(n as u16);
        } else {
            let rest: u32 = n - 0x1_0000;
            units.push((0xD800 + rest / 0x400) as u16);
            units.push((0xDC00 + rest % 0x400) as u16);
        }
        proof {
            assert(chars@.take(i + 1).drop_last() =~= chars@.take(i as int));
            assert(units@ =~= before + utf16_char(chars@[i as int]));
        }
        i += 1;
    }
    assert(chars@.take(i as int) =~= chars@);
    units
}

/// Copy `s` into a fixed UTF-16 buffer, ended by a zero and truncated to fit.
pub fn write_tip(buf: &mut [u16], s: &str)
    requires
        old(buf)@.len() > 0,
    ensures
        ({
            let tip = fitted(utf16(s@), old(buf)@.len() as int);
            final(buf)@ == tip + seq![0u16] + old(buf)@.skip(tip.len() as int + 1)
        }),
{
    let ghost before = buf@;
    let ghost tip = fitted(utf16(s@), buf@.len() as int);
    let units: Vec<u16> = encode_utf16(s);
    let room: usize = buf.len() - 1;
    let count: usize = if units.len() <= room {
        units.len()
    } else {
        room
    };
    let mut i: usize = 0;
    while i < count
        invariant
            i <= count < buf@.len(),
            count <= units@.len(),
            count == tip.len(),
            units@ == utf16(s@),
            tip == fitted(utf16(s@), before.len() as int),
            buf@.len() == before.len(),
            forall|k: int| 0 <= k < i ==> buf@[k] == tip[k],
            forall|k: int| i <= k < buf@.len() ==> buf@[k] == before[k],
        decreases count - i,
    {
        buf[i] = units[i];
        i += 1;
    }
    buf[count] = 0;
    assert(buf@ =~= tip + seq![0u16] + before.skip(tip.len() as int + 1));
}

} // verus!
