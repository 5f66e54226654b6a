//! Laws of the window messages.

use vstd::prelude::*;

use crate::message::{first_word, intent_of, message_number, second_word, Intent};

verus! {

/// The overlay window reads back exactly the intent that the hook posted.
pub proof fn law_messages_round_trip(intent: Intent, wparam: usize, lparam: isize)
    requires
        wparam == first_word(intent),
        lparam == second_word(intent),
    ensures
        intent_of(message_number(intent), wparam, lparam) == Some(intent),
{
}

/// Every intent has a message number of its own, from 0x8001 on.
pub proof fn law_intents_have_their_numbers(intent: Intent)
    ensures
        message_number(intent) == (match intent {
            Intent::Show => 0x8001u32,
            Intent::Key { .. } => 0x8002u32,
            Intent::Cancel => 0x8003u32,
            Intent::Quit => 0x8004u32,
            Intent::Confirm { .. } => 0x8005u32,
            Intent::Tab => 0x8006u32,
            Intent::Nav { .. } => 0x8007u32,
            Intent::Resize => 0x8008u32,
            Intent::NavH { .. } => 0x8009u32,
        }),
{
}

/// Whatever words come with a message, it is read by its number: an odd second word means
/// Shift, a first word of 1 means down or right, and a window that goes away means to quit.
pub proof fn law_messages_are_read_by_number(msg: u32, wparam: usize, lparam: isize)
    ensures
        ({
            let shift = lparam % 2 == 1;
            let intent = intent_of(msg, wparam, lparam);
            &&& msg == 0x8001 <==> intent == Some(Intent::Show)
            &&& msg == 0x8002 ==> intent == Some(Intent::Key { vk: wparam as u32, shift })
            &&& msg == 0x8003 <==> intent == Some(Intent::Cancel)
            &&& msg == 0x8004 || msg == 2 <==> intent == Some(Intent::Quit)
            &&& msg == 0x8005 ==> intent == Some(Intent::Confirm { shift })
            &&& msg == 0x8006 <==> intent == Some(Intent::Tab)
            &&& msg == 0x8007 ==> intent == Some(Intent::Nav { down: wparam == 1, shift })
            &&& msg == 0x8008 <==> intent == Some(Intent::Resize)
            &&& msg == 0x8009 ==> intent == Some(Intent::NavH { right: wparam == 1, shift })
            &&& intent is Some <==> 0x8001 <= msg <= 0x8009 || msg == 2
        }),
{
}

/// The words of a message hold the key and the flags as numbers: 1 for yes, 0 for no.
pub proof fn law_words_hold_the_flags(vk: u32, flag: bool, shift: bool)
    ensures
        ({
            let yes = if flag {
                1int
            } else {
                0int
            };
            let held = if shift {
                1int
            } else {
                0int
            };
            &&& first_word(Intent::Key { vk, shift }) == vk
            &&& second_word(Intent::Key { vk, shift }) == held
            &&& second_word(Intent::Confirm { shift }) == held
            &&& first_word(Intent::Nav { down: flag, shift }) == yes
            &&& second_word(Intent::Nav { down: flag, shift }) == held
            &&& first_word(Intent::NavH { right: flag, shift }) == yes
            &&& second_word(Intent::NavH { right: flag, shift }) == held
        }),
{
}

} // verus!
