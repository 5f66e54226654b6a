//! Laws of what the diagnostic modes print.

use vstd::prelude::*;

use crate::geometry::{halfway, Rect};
use crate::report::{counted, margin, name_shown, scan_text, tree_text, Node, Tally};
use crate::scanner::HintModel;
use crate::text::{decimal, left_aligned, right_aligned, spaces};

verus! {

/// As much of the name as a line has room for is its beginning, all of it where it fits; a
/// name that was not read is empty.
pub proof fn law_names_are_cut(name: Option<String>, count: int)
    requires
        count >= 0,
    ensures
        name is None ==> name_shown(name, count).len() == 0,
        name matches Some(text) ==> {
            &&& name_shown(name, count).is_prefix_of(text@)
            &&& text@.len() <= count ==> name_shown(name, count) == text@
            &&& text@.len() > count ==> name_shown(name, count).len() == count
        },
{
    if let Some(text) = name {
        assert(text@ =~= text@.subrange(0, text@.len() as int));
        if text@.len() > count {
            assert(name_shown(name, count) =~= text@.subrange(0, count));
        }
    }
}

/// The indentation is as many spaces as the element lies deep, up to a limit, behind the
/// depth itself at the right edge of three columns.
pub open spec fn indented(depth: int, limit: int) -> Seq<char> {
    right_aligned(decimal(depth), 3) + spaces(
        1 + if depth < limit {
            depth
        } else {
            limit
        },
    )
}

/// One space and then some are so many and one.
proof fn lemma_spaces(n: int)
    requires
        n >= 0,
    ensures
        " "@ + spaces(n) == spaces(1 + n),
{
    reveal_strlit(" ");
    assert(" "@ + spaces(n) =~= spaces(1 + n));
}

/// A line of the tree listing has the depth, at most 24 levels of indentation, the control
/// type (0 if it was not read) and at most 70 characters of the name.
pub proof fn law_tree_lines_have_their_columns(
    depth: int,
    control_type: Option<i32>,
    name: Option<String>,
)
    requires
        depth >= 0,
    ensures
        tree_text(depth, control_type, name) == indented(depth, 24) + "ct="@ + decimal(
            match control_type {
                Some(ct) => ct as int,
                None => 0,
            },
        ) + " "@ + name_shown(name, 70),
{
    lemma_spaces(
        if depth < 24 {
            depth
        } else {
            24
        },
    );
    assert(tree_text(depth, control_type, name) =~= indented(depth, 24) + "ct="@ + decimal(
        match control_type {
            Some(ct) => ct as int,
            None => 0,
        },
    ) + " "@ + name_shown(name, 70));
}

/// Is the element said to resize or move?
pub open spec fn resizes_or_moves(node: Node) -> bool {
    node.transform is Some && (node.transform->0.can_resize || node.transform->0.can_move)
}

/// Is the element a pane of at least 80 by 80 pixels?
pub open spec fn large_pane(node: Node) -> bool {
    node.control_type == Some(50033i32) && (node.rect matches Some(r) && r.right - r.left >= 80
        && r.bottom - r.top >= 80)
}

/// Is the element a separator with an area, or a bar at most 10 pixels thin and at least 40
/// long?
pub open spec fn bar_like(node: Node) -> bool {
    node.rect matches Some(r) && {
        let w = r.right - r.left;
        let h = r.bottom - r.top;
        w > 0 && h > 0 && (node.control_type == Some(50038i32) || ((w <= 10 || h <= 10) && (w >= 40
            || h >= 40)))
    }
}

/// 1 for yes, 0 for no.
pub open spec fn one_if(yes: bool) -> int {
    if yes {
        1
    } else {
        0
    }
}

/// An element of the resizables listing has one line for each of these that it is: said to
/// resize or move, a large pane, like a splitter bar; in this order. It counts as one
/// visit, and is counted for the first and the last of these.
pub proof fn law_resizables_are_listed_and_counted(node: Node, depth: int, tally: Tally)
    requires
        node.rect matches Some(r) ==> -0x8000_0000 <= r.right - r.left <= 0x7FFF_FFFF && -0x8000_0000
            <= r.bottom - r.top <= 0x7FFF_FFFF,
        tally.visited <= 5000 && tally.transforms <= 5000 && tally.splitters <= 5000,
    ensures
        ({
            let lines = node.listing(depth);
            let t = one_if(resizes_or_moves(node));
            let p = one_if(large_pane(node));
            let s = one_if(bar_like(node));
            &&& lines.len() == t + p + s
            &&& resizes_or_moves(node) ==> lines[0] == node.transform_text(depth)
            &&& large_pane(node) ==> lines[t] == node.pane_text(depth)
            &&& bar_like(node) ==> lines[t + p] == node.splitter_text(depth)
            &&& counted(tally, node).visited == tally.visited + 1
            &&& counted(tally, node).transforms == tally.transforms + t
            &&& counted(tally, node).splitters == tally.splitters + s
        }),
{
}

/// The lines of the resizables listing have the depth, at most 20 levels of indentation, a
/// mark and the control type (0 if it was not read), and end in at most 50 characters of
/// the name. Between them stand what the element can do and its size; a pane's four edges
/// and size; or the arrow, the size and the center of a bar.
pub proof fn law_resizable_lines_have_their_columns(node: Node, depth: int, r: Rect, ct: int)
    requires
        depth >= 0,
        node.rect is None ==> r == (Rect { left: 0, top: 0, right: 0, bottom: 0 }),
        node.rect matches Some(rect) ==> r == rect,
        node.control_type is None ==> ct == 0,
        node.control_type matches Some(number) ==> ct == number,
        -0x8000_0000 <= r.right - r.left <= 0x7FFF_FFFF,
        -0x8000_0000 <= r.bottom - r.top <= 0x7FFF_FFFF,
    ensures
        ({
            let start = indented(depth, 20);
            let size = decimal(r.right - r.left) + "x"@ + decimal(r.bottom - r.top);
            let end = "  "@ + name_shown(node.name, 50);
            &&& node.transform_text(depth) == start + "[T] ct="@ + decimal(ct) + " resize="@
                + decimal(one_if(node.transform->0.can_resize)) + " move="@ + decimal(
                one_if(node.transform->0.can_move),
            ) + " "@ + size + end
            &&& node.pane_text(depth) == start + "[P] ct="@ + decimal(ct) + " l="@ + decimal(
                r.left as int,
            ) + " t="@ + decimal(r.top as int) + " r="@ + decimal(r.right as int) + " b="@
                + decimal(r.bottom as int) + " ("@ + size + ")"@ + end
            &&& node.splitter_text(depth) == start + "[S] ct="@ + decimal(ct) + " "@ + (
            if r.right - r.left >= r.bottom - r.top {
                "↕"@
            } else {
                "↔"@
            }) + " "@ + size + " @("@ + decimal(
                halfway(r.left as int, r.right as int),
            ) + ","@ + decimal(halfway(r.top as int, r.bottom as int)) + ")"@ + end
        }),
{
    lemma_spaces(
        if depth < 20 {
            depth
        } else {
            20
        },
    );
    let start = indented(depth, 20);
    assert(margin(depth, 20) =~= start);
}

/// A line of the scan listing has the number in three columns, the center in brackets, five
/// columns each, what the control is in twelve, and the name.
pub proof fn law_scan_lines_have_their_columns(number: int, h: HintModel)
    ensures
        scan_text(number, h) == right_aligned(decimal(number), 3) + "  ("@ + right_aligned(
            decimal(h.cx as int),
            5,
        ) + ","@ + right_aligned(decimal(h.cy as int), 5) + ")  "@ + left_aligned(h.control, 12)
            + "  "@ + h.name,
{
}

} // verus!
