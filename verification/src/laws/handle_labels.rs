//! Laws of the labels of resize mode.

use vstd::prelude::*;

use crate::handle_labels::{
    glyph_of, handle_at, handle_letter, labeled_handle, labeled_splitter, splitter_letter,
    MAX_SPLITTERS,
};
use crate::resize::Handle;
use crate::splitter::Orientation;

verus! {

/// The label of a handle grabs that handle.
pub proof fn law_handle_labels_invert(handle: Handle)
    ensures
        labeled_handle(handle_letter(handle)) == Some(handle),
{
}

/// A label that grabs a handle is that handle's label.
pub proof fn law_labels_name_their_handle(c: char)
    ensures
        labeled_handle(c) matches Some(handle) ==> handle_letter(handle) == c,
        labeled_handle(c) is Some <==> 'a' <= c <= 'h',
{
}

/// The label of a splitter grabs that splitter, and the other way round.
pub proof fn law_splitter_labels_invert(idx: int, count: int, c: char)
    requires
        0 <= idx < count <= MAX_SPLITTERS,
    ensures
        labeled_splitter(splitter_letter(idx), count) == Some(idx),
        labeled_splitter(c, count) matches Some(i) ==> 0 <= i < count && splitter_letter(i) == c,
{
}

/// No label grabs both a handle and a splitter, and with all splitters labeled
/// every letter grabs something.
pub proof fn law_labels_are_disjoint(c: char, count: int)
    ensures
        labeled_handle(c) is None || labeled_splitter(c, count) is None,
        'a' <= c <= 'z' ==> labeled_handle(c) is Some || labeled_splitter(
            c,
            MAX_SPLITTERS as int,
        ) is Some,
{
}

/// The letters `a` to `h` grab the handles clockwise from the top left corner, `i` to `z`
/// the splitters in their order, as far as there are any; no other character grabs
/// anything.
pub proof fn law_letters_grab_in_order(c: char, count: int)
    ensures
        labeled_handle(c) == (if c == 'a' {
            Some(Handle::TopLeft)
        } else if c == 'b' {
            Some(Handle::Top)
        } else if c == 'c' {
            Some(Handle::TopRight)
        } else if c == 'd' {
            Some(Handle::Right)
        } else if c == 'e' {
            Some(Handle::BottomRight)
        } else if c == 'f' {
            Some(Handle::Bottom)
        } else if c == 'g' {
            Some(Handle::BottomLeft)
        } else if c == 'h' {
            Some(Handle::Left)
        } else {
            None
        }),
        labeled_splitter(c, count) is Some <==> 105 <= c as int <= 122 && c as int - 105 < count,
        labeled_splitter(c, count) matches Some(i) ==> i + 105 == c as int,
{
}

/// The labels that are drawn are the letters that grab: the eight handles have `a` to `h`
/// clockwise from the top left corner, the splitters the letters behind these.
pub proof fn law_drawn_labels_are_the_letters(i: int)
    requires
        0 <= i,
    ensures
        i < 8 ==> handle_letter(handle_at(i)) as int == 97 + i,
        i < 18 ==> splitter_letter(i) as int == 105 + i,
        handle_at(0) is TopLeft && handle_at(1) is Top && handle_at(2) is TopRight,
        handle_at(3) is Right && handle_at(4) is BottomRight && handle_at(5) is Bottom,
        handle_at(6) is BottomLeft && handle_at(7) is Left,
{
}

/// The glyph of a splitter shows the way it is dragged, across its bar: sideways for a
/// vertical one (U+2194), up and down for a horizontal one (U+2195).
pub proof fn law_glyphs_show_the_way(o: Orientation)
    ensures
        glyph_of(o).len() == 1,
        o is Vertical ==> glyph_of(o)[0] as int == 0x2194,
        o is Horizontal ==> glyph_of(o)[0] as int == 0x2195,
{
}

} // verus!
