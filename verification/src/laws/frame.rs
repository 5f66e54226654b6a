//! Laws of what the overlay shows.

use vstd::prelude::*;

use crate::frame::{
    floats, grabbed_label, highlighted, lists, lists_all, pins_handle, pins_splitter,
};
use crate::matching::visible;
use crate::overlay::{page_background, ListRow, RenderItem, ResizeHandleItem};
use crate::resize::Handle;
use crate::session::{AppModel, ResizeModel, ResizeSelection};
use crate::splitter::Orientation;

verus! {

/// With nothing typed nothing is highlighted. Else it is the listed element under the
/// cursor, the last one if the cursor stands behind the end, and none of an empty list.
pub proof fn law_highlight_is_under_the_cursor(m: AppModel)
    requires
        0 <= m.selected,
    ensures
        ({
            let list = visible(m.hints, m.mode, m.typed);
            &&& m.typed.len() == 0 || list.len() == 0 ==> highlighted(m) is None
            &&& m.typed.len() > 0 && m.selected < list.len() ==> highlighted(m) == Some(
                list[m.selected],
            )
            &&& m.typed.len() > 0 && 0 < list.len() <= m.selected ==> highlighted(m) == Some(
                list[list.len() - 1],
            )
        }),
{
}

/// A floating label has its element's code. It stands on the element's center, or with its
/// mark set on the top edge above the center. In the top section as many characters are
/// colored as are typed, else none; and it is marked exactly if its element is highlighted.
pub proof fn law_floating_labels_show_their_element(
    item: RenderItem,
    m: AppModel,
    i: int,
    in_top: bool,
)
    requires
        floats(item, m, i, in_top),
    ensures
        item.label@ == m.hints[i].label,
        item.x == m.hints[i].x,
        m.hints[i].above ==> item.above && item.y == m.hints[i].top,
        !m.hints[i].above ==> !item.above && item.y == m.hints[i].y,
        in_top ==> item.typed == m.typed.len(),
        !in_top ==> item.typed == 0,
        item.selected <==> highlighted(m) == Some(i),
{
}

/// A results row has its element's code and name, and is marked exactly if its element is
/// highlighted; a section has one row for each of its elements, in order.
pub proof fn law_rows_show_their_element(
    rows: Seq<ListRow>,
    m: AppModel,
    indices: Seq<int>,
    k: int,
)
    requires
        lists_all(rows, m, indices),
        0 <= k < indices.len(),
    ensures
        rows.len() == indices.len(),
        rows[k].label@ == m.hints[indices[k]].label,
        rows[k].name@ == m.hints[indices[k]].name,
        rows[k].selected <==> highlighted(m) == Some(indices[k]),
{
    assert(lists(rows[k], m, indices[k]));
}

/// The pins of the window handles have the letters `a` to `h`, clockwise from the top left
/// corner, and stand on the window's outline as it is now: in the corners, and in the
/// middle of the edges. The grabbed one is marked; none is a splitter's.
pub proof fn law_handle_pins_stand_on_the_outline(item: ResizeHandleItem, rs: ResizeModel, i: int)
    requires
        0 <= i < 8,
        pins_handle(item, rs, i),
    ensures
        ({
            let r = rs.current_rect;
            let middle_x = -1 <= 2 * item.x - (r.left + r.right) <= 1;
            let middle_y = -1 <= 2 * item.y - (r.top + r.bottom) <= 1;
            &&& item.label@.len() == 1 && item.label@[0] as int == 97 + i
            &&& !item.splitter
            &&& i == 0 || i == 1 || i == 2 ==> item.y == r.top
            &&& i == 4 || i == 5 || i == 6 ==> item.y == r.bottom
            &&& i == 3 || i == 7 ==> middle_y
            &&& i == 0 || i == 6 || i == 7 ==> item.x == r.left
            &&& i == 2 || i == 3 || i == 4 ==> item.x == r.right
            &&& i == 1 || i == 5 ==> middle_x
            &&& item.selected <==> rs.selection == ResizeSelection::Window(
                if i == 0 {
                    Handle::TopLeft
                } else if i == 1 {
                    Handle::Top
                } else if i == 2 {
                    Handle::TopRight
                } else if i == 3 {
                    Handle::Right
                } else if i == 4 {
                    Handle::BottomRight
                } else if i == 5 {
                    Handle::Bottom
                } else if i == 6 {
                    Handle::BottomLeft
                } else {
                    Handle::Left
                },
            )
        }),
{
}

/// The pins of the splitters have the letters from `i` on and an arrow for the way they are
/// dragged, and stand on the splitter's line in the middle of its span. The grabbed one is
/// marked; all are splitters'.
pub proof fn law_splitter_pins_stand_on_the_bar(item: ResizeHandleItem, rs: ResizeModel, i: int)
    requires
        0 <= i < rs.splitters.len() <= 18,
        pins_splitter(item, rs, i),
    ensures
        ({
            let b = rs.splitters[i];
            let sum = b.span_start + b.span_end;
            &&& item.label@.len() == 2 && item.label@[0] as int == 105 + i
            &&& b.orientation is Vertical ==> item.label@[1] as int == 0x2194 && item.x == b.coord
                && -1 <= 2 * item.y - sum <= 1
            &&& b.orientation is Horizontal ==> item.label@[1] as int == 0x2195 && item.y == b.coord
                && -1 <= 2 * item.x - sum <= 1
            &&& item.splitter
            &&& item.selected <==> rs.selection == ResizeSelection::Splitter(i as usize)
        }),
{
}

/// The size display names what is grabbed by its letter in capitals: a handle by `A` to `H`,
/// a splitter by the letters from `I` on, with its arrow; and nothing if nothing is.
pub proof fn law_display_names_what_is_grabbed(rs: ResizeModel)
    requires
        rs.splitters.len() <= 18,
        rs.selection matches ResizeSelection::Splitter(i) ==> i < rs.splitters.len(),
    ensures
        rs.selection is Nothing <==> grabbed_label(rs) is None,
        rs.selection matches ResizeSelection::Window(handle) ==> ({
            let label = grabbed_label(rs)->0;
            label.len() == 1 && label[0] == (match handle {
                Handle::TopLeft => 'A',
                Handle::Top => 'B',
                Handle::TopRight => 'C',
                Handle::Right => 'D',
                Handle::BottomRight => 'E',
                Handle::Bottom => 'F',
                Handle::BottomLeft => 'G',
                Handle::Left => 'H',
            })
        }),
        rs.selection matches ResizeSelection::Splitter(i) ==> ({
            let label = grabbed_label(rs)->0;
            &&& label.len() == 2 && label[0] as int == 73 + i
            &&& rs.splitters[i as int].orientation == Orientation::Vertical ==> label[1] as int
                == 0x2194
            &&& rs.splitters[i as int].orientation == Orientation::Horizontal ==> label[1] as int
                == 0x2195
        }),
{
}

/// The page is see-through, and tinted red for debugging only.
pub proof fn law_page_is_tinted_for_debugging(debug: bool)
    ensures
        debug ==> page_background(debug) == "rgba(255,0,0,0.25)"@,
        !debug ==> page_background(debug) == "transparent"@,
{
}

} // verus!
