//! The one-letter labels of resize mode: `a` to `h` grab the eight window
//! handles, `i` to `z` the pane splitters.

use vstd::prelude::*;

use crate::hints::letter;
use crate::resize::Handle;
use crate::splitter::Orientation;

verus! {

/// Most splitter handles that get a label: `i` to `z` are 18 letters. Splitters
/// past that are dropped.
pub const MAX_SPLITTERS: usize = 18;

/// The handle that comes at a place of the stable order.
pub open spec fn handle_at(i: int) -> Handle {
    if i == 0 {
        Handle::TopLeft
    } else if i == 1 {
        Handle::Top
    } else if i == 2 {
        Handle::TopRight
    } else if i == 3 {
        Handle::Right
    } else if i == 4 {
        Handle::BottomRight
    } else if i == 5 {
        Handle::Bottom
    } else if i == 6 {
        Handle::BottomLeft
    } else {
        Handle::Left
    }
}

/// The window handle that a label grabs.
pub open spec fn labeled_handle(c: char) -> Option<Handle> {
    if 'a' <= c <= 'h' {
        Some(handle_at(c as int - 'a' as int))
    } else {
        None
    }
}

/// The splitter that a label grabs, out of `count`.
pub open spec fn labeled_splitter(c: char, count: int) -> Option<int> {
    if 'i' <= c <= 'z' && (c as int) - ('i' as int) < count {
        Some(c as int - 'i' as int)
    } else {
        None
    }
}

/// The label of a window handle.
pub open spec fn handle_letter(handle: Handle) -> char {
    letter(handle.index())
}

/// The label of a splitter.
pub open spec fn splitter_letter(idx: int) -> char {
    letter(8 + idx)
}

/// The glyph for the way a splitter is dragged: a vertical bar goes left and
/// right, a horizontal one up and down.
pub open spec fn glyph_of(o: Orientation) -> Seq<char> {
    match o {
        Orientation::Vertical => seq!['↔'],
        Orientation::Horizontal => seq!['↕'],
    }
}

/// The splitter index that label `c` (`i` to `z`) grabs, or `None` if `c` is out
/// of range or beyond the `count` of detected splitters.
pub fn splitter_from_label(c: char, count: usize) -> (idx: Option<usize>)
    ensures
        (match idx {
            Some(i) => Some(i as int),
            None => None,
        }) == labeled_splitter(c, count as int),
{
    if c < 'i' || c > 'z' {
        return None;
    }
    let idx: usize = (c as u8 - 105) as usize;
    if idx < count {
        Some(idx)
    } else {
        None
    }
}

/// The label of splitter `idx` (0 is `i`, 1 is `j`, and so on); the inverse of
/// [`splitter_from_label`]. Only the low byte of the index counts.
pub fn splitter_label(idx: usize) -> (c: char)
    requires
        (idx as u8) <= 150,
    ensures
        c == splitter_letter(idx as u8 as int),
{
    (105u8 + idx as u8) as char
}

/// The orientation glyph shown on a splitter handle.
pub fn orientation_glyph(o: Orientation) -> (glyph: &'static str)
    ensures
        glyph@ == glyph_of(o),
{
    proof {
        reveal_strlit("↔");
        reveal_strlit("↕");
    }
    match o {
        Orientation::Vertical => {
            assert("↔"@ =~= seq!['↔']);
            "↔"
        },
        Orientation::Horizontal => {
            assert("↕"@ =~= seq!['↕']);
            "↕"
        },
    }
}

/// The handle that label `c` (`a` to `h`) grabs, by its index in
/// [`Handle::all`]. `None` for any other character.
pub fn handle_from_label(c: char) -> (handle: Option<Handle>)
    ensures
        handle == labeled_handle(c),
{
    if c < 'a' || c > 'h' {
        return None;
    }
    let i: usize = (c as u8 - 97) as usize;
    let all: [Handle; 8] = Handle::all();
    assert(all@[i as int].index() == i);
    Some(all[i])
}

/// The label of `handle`; the inverse of [`handle_from_label`].
pub fn label_for_handle(handle: Handle) -> (c: char)
    ensures
        c == handle_letter(handle),
{
    let all: [Handle; 8] = Handle::all();
    assert(all@[handle.index()] == handle);
    let mut i: usize = 0;
    while all[i] != handle
        invariant
            i <= handle.index() < 8,
            all@.len() == 8,
            all@[handle.index()] == handle,
        decreases 8 - i,
    {
        i += 1;
    }
    assert(all@[i as int].index() == i);
    (97u8 + i as u8) as char
}

} // verus!
