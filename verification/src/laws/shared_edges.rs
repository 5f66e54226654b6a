//! Laws of boundary detection over the edges of the panes, in pixels.

use vstd::prelude::*;

use crate::geometry::Rect;
use crate::laws::splitter::{
    between, found_in, from_panes, grounded, in_progress, law_boundaries_are_ordered,
    law_distinct_bars_are_kept, law_every_boundary_is_a_shared_edge,
    law_every_shared_edge_is_found, law_no_two_boundaries_are_one_splitter,
    law_no_two_bars_are_one_splitter, lemma_candidates_from_panes, lemma_gathered,
    lemma_large_panes, lemma_prepared, lemma_sorted_same, lemma_united_at, line_at_most,
    line_follows, prepared, reached, represented, spans_over, stands_for,
};
use crate::laws::sweep::{law_one_sweep_is_enough, swept, swept_onto, taken};
use crate::splitter::{
    boundaries_of, deduplicated, dragged, grip, horizontal_between, inserted, is_pane, large_panes,
    lemma_twins, meets_below, meets_right, pair_candidates, precedes, same_splitter, settled,
    stably_sorted, twins_from, united_at, vertical_between, Boundary, Orientation,
};

verus! {

// ---------------------------------------------------------------------------
// Two panes
// ---------------------------------------------------------------------------

/// Is `mid` the pixel in the middle of the two, of two such pixels the one nearer to zero?
pub open spec fn halfway_pixel(a: int, b: int, mid: int) -> bool {
    ||| 2 * mid == a + b
    ||| a + b > 0 && 2 * mid + 1 == a + b
    ||| a + b < 0 && 2 * mid - 1 == a + b
}

/// Do the panes lie side by side, `a` on the left: their edges at most 8 pixels apart, and
/// at least 40 pixels of height in common?
pub open spec fn side_by_side(a: Rect, b: Rect) -> bool {
    &&& -8 <= b.left - a.right <= 8
    &&& a.bottom - a.top >= 40 && a.bottom - b.top >= 40
    &&& b.bottom - b.top >= 40 && b.bottom - a.top >= 40
}

/// Do the panes lie one above the other, `a` on top: their edges at most 8 pixels apart, and
/// at least 40 pixels of width in common?
pub open spec fn one_above_the_other(a: Rect, b: Rect) -> bool {
    &&& -8 <= b.top - a.bottom <= 8
    &&& a.right - a.left >= 40 && a.right - b.left >= 40
    &&& b.right - b.left >= 40 && b.right - a.left >= 40
}

/// Two panes have a vertical candidate exactly if they lie side by side, and a horizontal
/// one exactly if they lie one above the other; at most one of each, the vertical one
/// first.
pub proof fn law_panes_meet_at_their_edges(a: Rect, b: Rect)
    ensures
        ({
            let pair = pair_candidates(a, b);
            let v = side_by_side(a, b);
            let h = one_above_the_other(a, b);
            &&& v && h ==> pair.len() == 2
            &&& v != h ==> pair.len() == 1
            &&& !v && !h ==> pair.len() == 0
            &&& v ==> pair[0].orientation is Vertical
            &&& h ==> pair[pair.len() - 1].orientation is Horizontal
        }),
{
}

/// A vertical candidate runs where both panes are: a `y` belongs to its span exactly if it
/// lies within `a` and within `b`. Its line is halfway between the two edges.
pub proof fn law_vertical_spans_lie_in_both_panes(a: Rect, b: Rect, k: int, y: int)
    requires
        0 <= k < pair_candidates(a, b).len(),
        pair_candidates(a, b)[k].orientation is Vertical,
    ensures
        ({
            let c = pair_candidates(a, b)[k];
            &&& c.span_start >= a.top && c.span_start >= b.top
            &&& c.span_end <= a.bottom && c.span_end <= b.bottom
            &&& c.span_start <= y <= c.span_end <==> a.top <= y <= a.bottom && b.top <= y
                <= b.bottom
            &&& c.span_end - c.span_start >= 40
            &&& halfway_pixel(a.right as int, b.left as int, c.coord as int)
        }),
{
}

/// A horizontal candidate runs where both panes are: an `x` belongs to its span exactly if
/// it lies within `a` and within `b`. Its line is halfway between the two edges.
pub proof fn law_horizontal_spans_lie_in_both_panes(a: Rect, b: Rect, k: int, x: int)
    requires
        0 <= k < pair_candidates(a, b).len(),
        pair_candidates(a, b)[k].orientation is Horizontal,
    ensures
        ({
            let c = pair_candidates(a, b)[k];
            &&& c.span_start >= a.left && c.span_start >= b.left
            &&& c.span_end <= a.right && c.span_end <= b.right
            &&& c.span_start <= x <= c.span_end <==> a.left <= x <= a.right && b.left <= x
                <= b.right
            &&& c.span_end - c.span_start >= 40
            &&& halfway_pixel(a.bottom as int, b.top as int, c.coord as int)
        }),
{
}

// ---------------------------------------------------------------------------
// All panes
// ---------------------------------------------------------------------------

/// Is the rectangle at least 80 pixels wide and high?
pub open spec fn large(r: Rect) -> bool {
    r.right - r.left >= 80 && r.bottom - r.top >= 80
}

/// Do panes `i` and `j` of the list share an edge of this orientation at the point `p` of
/// it: both are large, they lie side by side or one above the other, and `p` lies within
/// both?
pub open spec fn shared_at(panes: Seq<Rect>, i: int, j: int, o: Orientation, p: int) -> bool {
    &&& 0 <= i < panes.len()
    &&& 0 <= j < panes.len()
    &&& large(panes[i])
    &&& large(panes[j])
    &&& match o {
        Orientation::Vertical => {
            &&& side_by_side(panes[i], panes[j])
            &&& panes[i].top <= p <= panes[i].bottom
            &&& panes[j].top <= p <= panes[j].bottom
        },
        Orientation::Horizontal => {
            &&& one_above_the_other(panes[i], panes[j])
            &&& panes[i].left <= p <= panes[i].right
            &&& panes[j].left <= p <= panes[j].right
        },
    }
}

/// Does the edge that panes `i` and `j` share lie on the line at `coord`, or behind it?
pub open spec fn edge_from(panes: Seq<Rect>, i: int, j: int, o: Orientation, coord: int) -> bool {
    match o {
        Orientation::Vertical => 2 * coord <= panes[i].right + panes[j].left + 1,
        Orientation::Horizontal => 2 * coord <= panes[i].bottom + panes[j].top + 1,
    }
}

/// Is the point in the span of a candidate that was united into the bar: one of the same
/// kind, on a line that is reached from the bar's?
spec fn point_grounded(bs: Seq<Boundary>, b: Boundary, p: int) -> bool {
    exists|i: int|
        0 <= i < bs.len() && (#[trigger] bs[i]).orientation == b.orientation && bs[i].span_start
            <= p <= bs[i].span_end && reached(bs, b.coord as int, bs[i])
}

/// Is every point of every bar in the span of a candidate?
spec fn all_grounded(bs: Seq<Boundary>, out: Seq<Boundary>) -> bool {
    forall|k: int, p: int|
        #![trigger point_grounded(bs, out[k], p)]
        0 <= k < out.len() && out[k].span_start <= p <= out[k].span_end ==> point_grounded(
            bs,
            out[k],
            p,
        )
}

/// Points stay grounded when two bars that are one splitter are united.
proof fn lemma_united_grounds_points(bs: Seq<Boundary>, out: Seq<Boundary>, a: int, b: int)
    requires
        in_progress(bs, out),
        all_grounded(bs, out),
        0 <= a < b < out.len(),
        same_splitter(out[a], out[b]),
    ensures
        all_grounded(bs, united_at(out, a, b)),
{
    let after = united_at(out, a, b);
    assert forall|k: int, p: int|
        #![trigger point_grounded(bs, after[k], p)]
        0 <= k < after.len() && after[k].span_start <= p
            <= after[k].span_end implies point_grounded(bs, after[k], p) by {
        if k == a {
            if out[a].span_start <= p <= out[a].span_end {
                assert(point_grounded(bs, out[a], p));
                let i = choose|i: int|
                    0 <= i < bs.len() && (#[trigger] bs[i]).orientation == out[a].orientation
                        && bs[i].span_start <= p <= bs[i].span_end && reached(
                        bs,
                        out[a].coord as int,
                        bs[i],
                    );
                assert(bs[i].orientation == after[a].orientation);
            } else {
                assert(out[b].span_start <= p <= out[b].span_end);
                assert(point_grounded(bs, out[b], p));
                let i = choose|i: int|
                    0 <= i < bs.len() && (#[trigger] bs[i]).orientation == out[b].orientation
                        && bs[i].span_start <= p <= bs[i].span_end && reached(
                        bs,
                        out[b].coord as int,
                        bs[i],
                    );
                lemma_reached_from_the_first(bs, out, a, b, bs[i]);
                assert(bs[i].orientation == after[a].orientation);
            }
        } else if k < b {
            assert(after[k] == out[k]);
            assert(point_grounded(bs, out[k], p));
        } else {
            assert(after[k] == out[k + 1]);
            assert(point_grounded(bs, out[k + 1], p));
        }
    }
}

/// What is reached from the line of a bar is reached from that of one it is united into.
proof fn lemma_reached_from_the_first(
    bs: Seq<Boundary>,
    out: Seq<Boundary>,
    a: int,
    b: int,
    c: Boundary,
)
    requires
        in_progress(bs, out),
        0 <= a < b < out.len(),
        same_splitter(out[a], out[b]),
        c.orientation == out[b].orientation,
        reached(bs, out[b].coord as int, c),
    ensures
        reached(bs, out[a].coord as int, c),
{
    assert(line_at_most(out[a], out[b]));
    assert(grounded(bs, out[b]));
    let g = choose|g: int|
        0 <= g < bs.len() && spans_over(out[b], #[trigger] bs[g]) && bs[g].coord == out[b].coord;
    assert forall|x: int| out[a].coord <= x < c.coord implies #[trigger] line_follows(bs, c, x) by {
        if x < out[b].coord {
            assert(bs[g].orientation == c.orientation);
        }
    }
}

/// Points are grounded in the end if they are in the beginning.
proof fn lemma_settled_grounds_points(bs: Seq<Boundary>, out: Seq<Boundary>)
    requires
        in_progress(bs, out),
        all_grounded(bs, out),
    ensures
        all_grounded(bs, settled(out)),
    decreases out.len(),
{
    lemma_twins(out, 0);
    if let Some((a, b)) = twins_from(out, 0) {
        lemma_united_grounds_points(bs, out, a, b);
        lemma_united_at(bs, out, a, b);
        lemma_settled_grounds_points(bs, united_at(out, a, b));
    }
}

/// Deduplication invents nothing: each point of a bar lies in the span of a candidate of the
/// same kind, on the bar's line or behind it, that is reached over lines of candidates at
/// most 8 pixels apart.
pub proof fn law_every_point_comes_from_a_candidate(bs: Seq<Boundary>, k: int, p: int)
    requires
        0 <= k < deduplicated(bs).len(),
        deduplicated(bs)[k].span_start <= p <= deduplicated(bs)[k].span_end,
    ensures
        exists|i: int|
            0 <= i < bs.len() && (#[trigger] bs[i]).orientation == deduplicated(bs)[k].orientation
                && bs[i].span_start <= p <= bs[i].span_end && deduplicated(bs)[k].coord
                <= bs[i].coord && reached(bs, deduplicated(bs)[k].coord as int, bs[i]),
{
    let start = prepared(bs);
    let sorted = stably_sorted(bs);
    lemma_prepared(bs);
    lemma_sorted_same(bs);
    lemma_gathered(sorted);
    assert forall|j: int, q: int|
        #![trigger point_grounded(bs, start[j], q)]
        0 <= j < start.len() && start[j].span_start <= q
            <= start[j].span_end implies point_grounded(bs, start[j], q) by {
        assert(sorted.contains(start[j]));
        assert(bs.contains(start[j]));
        let i = choose|i: int| 0 <= i < bs.len() && bs[i] == start[j];
        assert(reached(bs, start[j].coord as int, bs[i]));
    }
    lemma_settled_grounds_points(bs, start);
    assert(point_grounded(bs, deduplicated(bs)[k], p));
}

/// Each point of a boundary lies within two large panes that share an edge of that
/// orientation there, on the boundary's line or behind it. So a boundary never runs on
/// over a stretch where no two panes meet.
pub proof fn law_every_point_lies_in_two_panes(panes: Seq<Rect>, k: int, p: int)
    requires
        0 <= k < boundaries_of(panes).len(),
        boundaries_of(panes)[k].span_start <= p <= boundaries_of(panes)[k].span_end,
    ensures
        exists|i: int, j: int|
            #[trigger] shared_at(panes, i, j, boundaries_of(panes)[k].orientation, p) && edge_from(
                panes,
                i,
                j,
                boundaries_of(panes)[k].orientation,
                boundaries_of(panes)[k].coord as int,
            ),
{
    let lp = large_panes(panes);
    let found = found_in(panes);
    let b = boundaries_of(panes)[k];
    law_every_point_comes_from_a_candidate(found, k, p);
    let c = choose|c: int|
        0 <= c < found.len() && (#[trigger] found[c]).orientation == b.orientation
            && found[c].span_start <= p <= found[c].span_end && b.coord <= found[c].coord && reached(
            found,
            b.coord as int,
            found[c],
        );
    lemma_candidates_from_panes(lp, lp.len() as int);
    lemma_large_panes(panes);
    assert(from_panes(lp, found[c]));
    let (x, y) = choose|x: int, y: int| #[trigger] between(lp, x, y, found[c]);
    assert(panes.contains(lp[x]) && panes.contains(lp[y]));
    let i = choose|i: int| 0 <= i < panes.len() && panes[i] == lp[x];
    let j = choose|j: int| 0 <= j < panes.len() && panes[j] == lp[y];
    assert(is_pane(lp[x]) && is_pane(lp[y]));
    assert(shared_at(panes, i, j, b.orientation, p));
}

/// Is the boundary one of this orientation that runs all along the edge that the two panes
/// share, on its line or before it?
pub open spec fn runs_along(bar: Boundary, o: Orientation, a: Rect, b: Rect) -> bool {
    &&& bar.orientation == o
    &&& match o {
        Orientation::Vertical => {
            &&& bar.span_start <= a.top || bar.span_start <= b.top
            &&& bar.span_end >= a.bottom || bar.span_end >= b.bottom
            &&& 2 * bar.coord <= a.right + b.left + 1
        },
        Orientation::Horizontal => {
            &&& bar.span_start <= a.left || bar.span_start <= b.left
            &&& bar.span_end >= a.right || bar.span_end >= b.right
            &&& 2 * bar.coord <= a.bottom + b.top + 1
        },
    }
}

/// Wherever two large panes lie side by side or one above the other, some boundary of that
/// orientation runs all along the edge that they share.
pub proof fn law_shared_edges_have_a_boundary(panes: Seq<Rect>, i: int, j: int)
    requires
        0 <= i < panes.len(),
        0 <= j < panes.len(),
        large(panes[i]),
        large(panes[j]),
    ensures
        side_by_side(panes[i], panes[j]) ==> exists|k: int|
            0 <= k < boundaries_of(panes).len() && runs_along(
                #[trigger] boundaries_of(panes)[k],
                Orientation::Vertical,
                panes[i],
                panes[j],
            ),
        one_above_the_other(panes[i], panes[j]) ==> exists|k: int|
            0 <= k < boundaries_of(panes).len() && runs_along(
                #[trigger] boundaries_of(panes)[k],
                Orientation::Horizontal,
                panes[i],
                panes[j],
            ),
{
    let found = found_in(panes);
    let out = boundaries_of(panes);
    let a = panes[i];
    let b = panes[j];
    law_every_shared_edge_is_found(panes, i, j);
    if side_by_side(a, b) {
        assert(meets_right(a, b));
        let c = vertical_between(a, b);
        assert(represented(found, out, c));
        let k = choose|k: int| 0 <= k < out.len() && stands_for(found, #[trigger] out[k], c);
        assert(runs_along(out[k], Orientation::Vertical, a, b));
    }
    if one_above_the_other(a, b) {
        assert(meets_below(a, b));
        let c = horizontal_between(a, b);
        assert(represented(found, out, c));
        let k = choose|k: int| 0 <= k < out.len() && stands_for(found, #[trigger] out[k], c);
        assert(runs_along(out[k], Orientation::Horizontal, a, b));
    }
}

/// The boundaries of a window stand in order, vertical before horizontal and each kind by
/// its coordinate; of two of one kind with lines at most 8 pixels apart, less than 40
/// pixels run side by side; and each is at least 40 pixels long.
pub proof fn law_boundaries_stand_apart_and_in_order(panes: Seq<Rect>, i: int, j: int)
    requires
        0 <= i < j < boundaries_of(panes).len(),
    ensures
        ({
            let a = boundaries_of(panes)[i];
            let b = boundaries_of(panes)[j];
            &&& a.orientation is Horizontal ==> b.orientation is Horizontal
            &&& a.orientation == b.orientation ==> a.coord <= b.coord
            &&& a.orientation == b.orientation && b.coord - a.coord <= 8 ==> a.span_end
                - b.span_start < 40 || b.span_end - a.span_start < 40
            &&& a.span_end - a.span_start >= 40 && b.span_end - b.span_start >= 40
        }),
{
    law_boundaries_are_ordered(panes);
    law_no_two_boundaries_are_one_splitter(panes);
    law_every_boundary_is_a_shared_edge(panes, i);
    law_every_boundary_is_a_shared_edge(panes, j);
    assert(line_at_most(boundaries_of(panes)[i], boundaries_of(panes)[j]));
    assert(!same_splitter(boundaries_of(panes)[i], boundaries_of(panes)[j]));
}

// ---------------------------------------------------------------------------
// Bars
// ---------------------------------------------------------------------------

/// Are the two bars one splitter: of one kind, at most 8 pixels apart, and side by side for
/// at least 40 pixels?
pub open spec fn near_and_alongside(a: Boundary, b: Boundary) -> bool {
    &&& a.orientation == b.orientation
    &&& -8 <= a.coord - b.coord <= 8
    &&& a.span_end - a.span_start >= 40 && a.span_end - b.span_start >= 40
    &&& b.span_end - b.span_start >= 40 && b.span_end - a.span_start >= 40
}

/// No two bars of the result are near and alongside each other.
pub proof fn law_results_are_not_near(bs: Seq<Boundary>, i: int, j: int)
    requires
        0 <= i < j < deduplicated(bs).len(),
    ensures
        !near_and_alongside(deduplicated(bs)[i], deduplicated(bs)[j]),
{
    law_no_two_bars_are_one_splitter(bs);
    assert(!same_splitter(deduplicated(bs)[i], deduplicated(bs)[j]));
}

/// Bars no two of which are near and alongside each other are all kept, each as it is, and
/// sorted: vertical before horizontal, each kind by coordinate, and on one coordinate by
/// where they start.
pub proof fn law_apart_bars_are_kept_and_sorted(bs: Seq<Boundary>, i: int, j: int)
    requires
        forall|x: int, y: int|
            0 <= x < y < bs.len() ==> !near_and_alongside(#[trigger] bs[x], #[trigger] bs[y]),
        0 <= i < j < bs.len(),
    ensures
        deduplicated(bs).to_multiset() == bs.to_multiset(),
        deduplicated(bs).len() == bs.len(),
        ({
            let a = deduplicated(bs)[i];
            let b = deduplicated(bs)[j];
            &&& a.orientation is Horizontal ==> b.orientation is Horizontal
            &&& a.orientation == b.orientation ==> a.coord <= b.coord
            &&& a.orientation == b.orientation && a.coord == b.coord ==> a.span_start
                <= b.span_start
        }),
{
    assert forall|x: int, y: int| 0 <= x < y < bs.len() implies !same_splitter(
        #[trigger] bs[x],
        #[trigger] bs[y],
    ) by {
        assert(!near_and_alongside(bs[x], bs[y]));
    }
    law_distinct_bars_are_kept(bs);
    lemma_sorted_same(bs);
    assert(!precedes(stably_sorted(bs)[j], stably_sorted(bs)[i]));
}

/// Two bars that are near and alongside each other become one: on the line that comes
/// first, from where the first of them starts to where the last of them ends.
pub proof fn law_two_near_bars_become_one(a: Boundary, b: Boundary)
    requires
        near_and_alongside(a, b),
    ensures
        deduplicated(seq![a, b]).len() == 1,
        ({
            let one = deduplicated(seq![a, b])[0];
            &&& one.orientation == a.orientation
            &&& one.coord <= a.coord && one.coord <= b.coord
            &&& one.coord == a.coord || one.coord == b.coord
            &&& one.span_start <= a.span_start && one.span_start <= b.span_start
            &&& one.span_start == a.span_start || one.span_start == b.span_start
            &&& one.span_end >= a.span_end && one.span_end >= b.span_end
            &&& one.span_end == a.span_end || one.span_end == b.span_end
        }),
{
    let bs = seq![a, b];
    let none = Seq::<Boundary>::empty();
    assert(bs.drop_last() =~= seq![a]);
    assert(seq![a].drop_last() =~= none);
    reveal_with_fuel(stably_sorted, 3);
    reveal_with_fuel(inserted, 3);
    let sorted = stably_sorted(bs);
    assert(stably_sorted(seq![a]) =~= seq![a]);
    if precedes(b, a) {
        assert(sorted =~= seq![b, a]);
    } else {
        assert(sorted =~= seq![a, b]);
    }
    assert(sorted.drop_last() =~= seq![sorted[0]]);
    assert(seq![sorted[0]].drop_last() =~= none);
    reveal_with_fuel(swept_onto, 3);
    assert(taken(none, sorted[0]) =~= seq![sorted[0]]);
    assert(same_splitter(sorted[0], sorted[1]));
    assert(swept(sorted).len() == 1);
    law_one_sweep_is_enough(bs);
}

/// The grip of a bar is a pixel in the middle of its span, on its line.
pub proof fn law_grips_lie_in_the_middle(b: Boundary)
    ensures
        b.orientation is Vertical ==> grip(b).0 == b.coord && halfway_pixel(
            b.span_start as int,
            b.span_end as int,
            grip(b).1,
        ),
        b.orientation is Horizontal ==> grip(b).1 == b.coord && halfway_pixel(
            b.span_start as int,
            b.span_end as int,
            grip(b).0,
        ),
{
}

/// A drag moves a vertical bar sideways and a horizontal one up and down, by as many pixels
/// as the mouse goes that way, and changes nothing else of it.
pub proof fn law_drags_move_across_the_bar(b: Boundary, dx: int, dy: int)
    requires
        b.orientation is Vertical ==> -0x8000_0000 <= b.coord + dx <= 0x7FFF_FFFF,
        b.orientation is Horizontal ==> -0x8000_0000 <= b.coord + dy <= 0x7FFF_FFFF,
    ensures
        dragged(b, dx, dy).orientation == b.orientation,
        dragged(b, dx, dy).span_start == b.span_start,
        dragged(b, dx, dy).span_end == b.span_end,
        b.orientation is Vertical ==> dragged(b, dx, dy).coord == b.coord + dx,
        b.orientation is Horizontal ==> dragged(b, dx, dy).coord == b.coord + dy,
{
}

} // verus!
