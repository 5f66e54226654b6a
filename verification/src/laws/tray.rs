//! Laws of the tray icon.

use vstd::prelude::*;

use crate::tray::{command_of, fitted, utf16, utf16_char, TrayCommand};

verus! {

/// A tip always leaves room for the zero that ends it, and is the beginning of
/// the whole text: all of it where it fits.
pub proof fn law_tip_fits(text: Seq<char>, size: int)
    requires
        size > 0,
    ensures
        fitted(utf16(text), size).len() < size,
        fitted(utf16(text), size).is_prefix_of(utf16(text)),
        utf16(text).len() < size ==> fitted(utf16(text), size) == utf16(text),
{
    let units = utf16(text);
    assert(units =~= units.subrange(0, units.len() as int));
}

/// A character below U+10000 is one unit, its number. Any other is a pair, the first from
/// 0xD800 on and the second from 0xDC00 on, that hold the upper and the lower ten bits of
/// what its number is above 0x10000.
pub proof fn law_utf16_pairs_read_back(c: char)
    ensures
        ({
            let units = utf16_char(c);
            &&& (c as int) < 0x1_0000 ==> units.len() == 1 && units[0] == c as int
            &&& (c as int) >= 0x1_0000 ==> {
                &&& units.len() == 2
                &&& 0xD800 <= units[0] < 0xDC00
                &&& 0xDC00 <= units[1] < 0xE000
                &&& 0x1_0000 + (units[0] - 0xD800) * 0x400 + (units[1] - 0xDC00) == c as int
            }
        }),
{
    lemma_scalar_value(c);
}

/// Every character is a Unicode scalar value.
proof fn lemma_scalar_value(c: char)
    ensures
        0 <= c as int <= 0x10_FFFF,
{
}

/// Text is written character by character.
pub proof fn law_utf16_goes_by_characters(text: Seq<char>, c: char)
    ensures
        utf16(Seq::empty()) == Seq::<u16>::empty(),
        utf16(text.push(c)) == utf16(text) + utf16_char(c),
{
    assert(text.push(c).drop_last() =~= text);
}

/// The menu's first command pauses or resumes, its second quits; it is told by the lower 16
/// bits of the word, and no other number is a command.
pub proof fn law_menu_commands_are_numbered(high: int, low: int, wparam: usize)
    requires
        0 <= low < 0x1_0000,
        wparam == high * 0x1_0000 + low,
    ensures
        low == 1 <==> command_of(wparam) == Some(TrayCommand::PauseResume),
        low == 2 <==> command_of(wparam) == Some(TrayCommand::Quit),
        low != 1 && low != 2 <==> command_of(wparam) is None,
{
}

} // verus!
