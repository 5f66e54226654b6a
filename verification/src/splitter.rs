//! Pane-boundary (splitter) geometry.
//!
//! Applications draw the splitter between two panes but do not expose it as an
//! element of its own. The panes are visible, though, and two adjacent panes
//! share an edge: that edge is the draggable splitter. This module turns a set of
//! pane rectangles into a deduplicated set of boundary lines.

use vstd::prelude::*;

use crate::geometry::{
    distance, fits, greater, halfway, lesser, max_of, midpoint, min_of, within, Rect,
};

verus! {

/// Smallest pane (each axis, physical pixels) considered for adjacency. Filters
/// out toolbars and labels that report themselves as panes.
pub const MIN_PANE_SIZE: i32 = 80;

/// Two pane edges at most this many pixels apart count as adjacent; it covers
/// the small gap that real splitters leave.
pub const EDGE_TOLERANCE: i32 = 8;

/// Smallest overlap across the boundary (pixels) for a shared edge to be a real
/// splitter; filters incidental near-touches.
pub const MIN_OVERLAP: i32 = 40;

/// Two boundaries of one orientation whose coordinates are at most this far
/// apart, and whose spans overlap, are one splitter.
pub const DEDUP_COORD: i32 = 8;

/// A splitter bar's orientation, named for the bar, not for the drag: a
/// `Vertical` bar runs top to bottom and is dragged horizontally; a `Horizontal`
/// bar runs left to right and is dragged vertically.
#[derive(Clone, Copy, PartialEq, Eq, Debug, Structural)]
pub enum Orientation {
    Vertical,
    Horizontal,
}

/// One splitter line between two adjacent panes. `coord` is the line's position
/// on its perpendicular axis (x for `Vertical`, y for `Horizontal`); the span is
/// the overlapping extent of the two panes along the line.
#[derive(Clone, Copy, PartialEq, Eq, Debug, Structural)]
pub struct Boundary {
    pub orientation: Orientation,
    pub coord: i32,
    pub span_start: i32,
    pub span_end: i32,
}

// ---------------------------------------------------------------------------
// Candidates
// ---------------------------------------------------------------------------

/// Is the rectangle large enough to be a pane?
pub open spec fn is_pane(r: Rect) -> bool {
    r.spans_at_least(MIN_PANE_SIZE as int)
}

/// The vertical bar where `a`'s right edge meets `b`'s left edge.
pub open spec fn vertical_between(a: Rect, b: Rect) -> Boundary {
    Boundary {
        orientation: Orientation::Vertical,
        coord: halfway(a.right as int, b.left as int) as i32,
        span_start: greater(a.top as int, b.top as int) as i32,
        span_end: lesser(a.bottom as int, b.bottom as int) as i32,
    }
}

/// The horizontal bar where `a`'s bottom edge meets `b`'s top edge.
pub open spec fn horizontal_between(a: Rect, b: Rect) -> Boundary {
    Boundary {
        orientation: Orientation::Horizontal,
        coord: halfway(a.bottom as int, b.top as int) as i32,
        span_start: greater(a.left as int, b.left as int) as i32,
        span_end: lesser(a.right as int, b.right as int) as i32,
    }
}

/// Do the two panes meet in a vertical bar, `a` on its left?
pub open spec fn meets_right(a: Rect, b: Rect) -> bool {
    &&& distance(a.right as int, b.left as int) <= EDGE_TOLERANCE
    &&& lesser(a.bottom as int, b.bottom as int) - greater(a.top as int, b.top as int)
        >= MIN_OVERLAP
}

/// Do the two panes meet in a horizontal bar, `a` above it?
pub open spec fn meets_below(a: Rect, b: Rect) -> bool {
    &&& distance(a.bottom as int, b.top as int) <= EDGE_TOLERANCE
    &&& lesser(a.right as int, b.right as int) - greater(a.left as int, b.left as int)
        >= MIN_OVERLAP
}

/// The boundaries between `a` as the left or upper pane and `b`.
pub open spec fn pair_candidates(a: Rect, b: Rect) -> Seq<Boundary> {
    let vertical = if meets_right(a, b) {
        seq![vertical_between(a, b)]
    } else {
        Seq::empty()
    };
    let horizontal = if meets_below(a, b) {
        seq![horizontal_between(a, b)]
    } else {
        Seq::empty()
    };
    vertical + horizontal
}

/// The boundaries between pane `i`, as the left or upper one, and the first
/// `count` other panes.
pub open spec fn row_candidates(panes: Seq<Rect>, i: int, count: int) -> Seq<Boundary>
    decreases count,
{
    if count <= 0 {
        Seq::empty()
    } else if count - 1 == i {
        row_candidates(panes, i, count - 1)
    } else {
        row_candidates(panes, i, count - 1) + pair_candidates(panes[i], panes[count - 1])
    }
}

/// The boundaries that the first `count` panes form with any other pane.
pub open spec fn candidates(panes: Seq<Rect>, count: int) -> Seq<Boundary>
    decreases count,
{
    if count <= 0 {
        Seq::empty()
    } else {
        candidates(panes, count - 1) + row_candidates(panes, count - 1, panes.len() as int)
    }
}

/// The rectangles that are large enough, in their order.
pub open spec fn large_panes(panes: Seq<Rect>) -> Seq<Rect> {
    panes.filter(|r: Rect| is_pane(r))
}

/// Append the boundaries between `a`, as the left or upper pane, and `b`.
fn push_pair(a: &Rect, b: &Rect, out: &mut Vec<Boundary>)
    ensures
        final(out)@ == old(out)@ + pair_candidates(*a, *b),
{
    let ghost before = out@;
    if within(a.right, b.left, EDGE_TOLERANCE) {
        let start: i32 = max_of(a.top, b.top);
        let end: i32 = min_of(a.bottom, b.bottom);
        if end as i64 - start as i64 >= MIN_OVERLAP as i64 {
            out.push(
                Boundary {
                    orientation: Orientation::Vertical,
                    coord: midpoint(a.right, b.left),
                    span_start: start,
                    span_end: end,
                },
            );
        }
    }
    if within(a.bottom, b.top, EDGE_TOLERANCE) {
        let start: i32 = max_of(a.left, b.left);
        let end: i32 = min_of(a.right, b.right);
        if end as i64 - start as i64 >= MIN_OVERLAP as i64 {
            out.push(
                Boundary {
                    orientation: Orientation::Horizontal,
                    coord: midpoint(a.bottom, b.top),
                    span_start: start,
                    span_end: end,
                },
            );
        }
    }
    assert(out@ =~= before + pair_candidates(*a, *b));
}

/// Detect splitter boundaries: every pair of large enough panes whose edges
/// nearly touch, with enough overlap across the edge, yields a boundary on their
/// shared edge. The result is deduplicated (nested and duplicate panes collapse)
/// and sorted.
pub fn find_boundaries(panes: &[Rect]) -> (boundaries: Vec<Boundary>)
    ensures
        boundaries@ == boundaries_of(panes@),
        all_distinct(boundaries@),
{
    let mut large: Vec<Rect> = Vec::new();
    let mut k: usize = 0;
    assert(panes@.take(0) =~= Seq::<Rect>::empty());
    proof {
        reveal(Seq::filter);
    }
    while k < panes.len()
        invariant
            k <= panes@.len(),
            large@ == large_panes(panes@.take(k as int)),
        decreases panes@.len() - k,
    {
        proof {
            reveal(Seq::filter);
            assert(panes@.take(k + 1).drop_last() =~= panes@.take(k as int));
        }
        if panes[k].at_least(MIN_PANE_SIZE) {
            large.push(panes[k]);
        }
        k += 1;
    }
    assert(panes@.take(panes@.len() as int) =~= panes@);

    let mut found: Vec<Boundary> = Vec::new();
    let mut i: usize = 0;
    while i < large.len()
        invariant
            i <= large@.len(),
            found@ == candidates(large@, i as int),
        decreases large@.len() - i,
    {
        let ghost rows = found@;
        let mut j: usize = 0;
        assert(rows + row_candidates(large@, i as int, 0) =~= rows);
        while j < large.len()
            invariant
                i < large@.len(),
                j <= large@.len(),
                found@ == rows + row_candidates(large@, i as int, j as int),
            decreases large@.len() - j,
        {
            if i != j {
                push_pair(&large[i], &large[j], &mut found);
                assert(found@ =~= rows + row_candidates(large@, i as int, j + 1));
            }
            j += 1;
        }
        i += 1;
    }

    dedup(found)
}

// ---------------------------------------------------------------------------
// Sorting and merging
// ---------------------------------------------------------------------------

/// The rank of an orientation: vertical bars come first.
pub open spec fn rank(o: Orientation) -> int {
    match o {
        Orientation::Vertical => 0,
        Orientation::Horizontal => 1,
    }
}

/// Does `a` come strictly before `b`: by orientation, then by coordinate, then
/// by the start of the span?
pub open spec fn precedes(a: Boundary, b: Boundary) -> bool {
    if rank(a.orientation) != rank(b.orientation) {
        rank(a.orientation) < rank(b.orientation)
    } else if a.coord != b.coord {
        a.coord < b.coord
    } else {
        a.span_start < b.span_start
    }
}

/// `sorted` with `b` put in behind everything that it does not precede.
pub open spec fn inserted(sorted: Seq<Boundary>, b: Boundary) -> Seq<Boundary>
    decreases sorted.len(),
{
    if sorted.len() == 0 || !precedes(b, sorted.last()) {
        sorted.push(b)
    } else {
        inserted(sorted.drop_last(), b).push(sorted.last())
    }
}

/// The boundaries in order, equal ones in the order in which they came.
pub open spec fn stably_sorted(bs: Seq<Boundary>) -> Seq<Boundary>
    decreases bs.len(),
{
    if bs.len() == 0 {
        bs
    } else {
        inserted(stably_sorted(bs.drop_last()), bs.last())
    }
}

/// Do the two spans share at least [`MIN_OVERLAP`] pixels?
pub open spec fn overlapping(a: Boundary, b: Boundary) -> bool {
    lesser(a.span_end as int, b.span_end as int) - greater(
        a.span_start as int,
        b.span_start as int,
    ) >= MIN_OVERLAP
}

/// Are the two boundaries one splitter?
pub open spec fn same_splitter(a: Boundary, b: Boundary) -> bool {
    &&& a.orientation == b.orientation
    &&& distance(a.coord as int, b.coord as int) <= DEDUP_COORD
    &&& overlapping(a, b)
}

/// `a` with its span widened to take in the span of `b`.
pub open spec fn united(a: Boundary, b: Boundary) -> Boundary {
    Boundary {
        orientation: a.orientation,
        coord: a.coord,
        span_start: lesser(a.span_start as int, b.span_start as int) as i32,
        span_end: greater(a.span_end as int, b.span_end as int) as i32,
    }
}

/// Are the two boundaries one splitter that starts at one point?
pub open spec fn same_start(a: Boundary, b: Boundary) -> bool {
    same_splitter(a, b) && a.coord == b.coord && a.span_start == b.span_start
}

/// The first boundary from place `k` on that is one splitter with `b` and starts at
/// the same point.
pub open spec fn start_from(bs: Seq<Boundary>, b: Boundary, k: int) -> Option<int>
    decreases bs.len() - k,
{
    if k >= bs.len() {
        None
    } else if same_start(bs[k], b) {
        Some(k)
    } else {
        start_from(bs, b, k + 1)
    }
}

/// The boundaries with those united that are one splitter and start at one point,
/// among them all copies of one boundary.
pub open spec fn gathered(bs: Seq<Boundary>) -> Seq<Boundary>
    decreases bs.len(),
{
    if bs.len() == 0 {
        bs
    } else {
        let rest = gathered(bs.drop_last());
        match start_from(rest, bs.last(), 0) {
            Some(k) => rest.update(k, united(rest[k], bs.last())),
            None => rest.push(bs.last()),
        }
    }
}

/// The first boundary from place `j` on that is one splitter with boundary `i`.
pub open spec fn twin_from(bs: Seq<Boundary>, i: int, j: int) -> Option<int>
    decreases bs.len() - j,
{
    if j >= bs.len() {
        None
    } else if same_splitter(bs[i], bs[j]) {
        Some(j)
    } else {
        twin_from(bs, i, j + 1)
    }
}

/// The first two boundaries, of which the earlier stands at place `i` or behind it,
/// that are one splitter.
pub open spec fn twins_from(bs: Seq<Boundary>, i: int) -> Option<(int, int)>
    decreases bs.len() - i,
{
    if i >= bs.len() {
        None
    } else {
        match twin_from(bs, i, i + 1) {
            Some(j) => Some((i, j)),
            None => twins_from(bs, i + 1),
        }
    }
}

/// The list with boundary `j` united into boundary `i`.
pub open spec fn united_at(bs: Seq<Boundary>, i: int, j: int) -> Seq<Boundary> {
    bs.update(i, united(bs[i], bs[j])).remove(j)
}

/// The list with boundaries that are one splitter united, the first two each time,
/// until there are no such two left.
pub open spec fn settled(bs: Seq<Boundary>) -> Seq<Boundary>
    decreases bs.len(),
{
    proof {
        lemma_twins(bs, 0);
    }
    match twins_from(bs, 0) {
        Some((i, j)) => settled(united_at(bs, i, j)),
        None => bs,
    }
}

/// Are no two of the boundaries one splitter?
pub open spec fn all_distinct(bs: Seq<Boundary>) -> bool {
    forall|i: int, j: int|
        0 <= i < j < bs.len() ==> !same_splitter(#[trigger] bs[i], #[trigger] bs[j])
}

/// What is found is one splitter with boundary `i`; where nothing is found, there is
/// no such boundary.
pub proof fn lemma_twin(bs: Seq<Boundary>, i: int, j: int)
    requires
        0 <= j,
    ensures
        match twin_from(bs, i, j) {
            Some(t) => j <= t < bs.len() && same_splitter(bs[i], bs[t]),
            None => forall|k: int|
                j <= k < bs.len() ==> !same_splitter(bs[i], #[trigger] bs[k]),
        },
    decreases bs.len() - j,
{
    if j < bs.len() && !same_splitter(bs[i], bs[j]) {
        lemma_twin(bs, i, j + 1);
    }
}

/// The two that are found are one splitter; where none are found, there are no such
/// two.
pub proof fn lemma_twins(bs: Seq<Boundary>, i: int)
    requires
        0 <= i,
    ensures
        match twins_from(bs, i) {
            Some((a, b)) => i <= a < b < bs.len() && same_splitter(bs[a], bs[b]),
            None => forall|a: int, b: int|
                i <= a < b < bs.len() ==> !same_splitter(#[trigger] bs[a], #[trigger] bs[b]),
        },
    decreases bs.len() - i,
{
    if i < bs.len() {
        lemma_twin(bs, i, i + 1);
        lemma_twins(bs, i + 1);
    }
}

/// No two boundaries of a settled list are one splitter.
pub proof fn lemma_settled_distinct(bs: Seq<Boundary>)
    ensures
        all_distinct(settled(bs)),
    decreases bs.len(),
{
    lemma_twins(bs, 0);
    if let Some((i, j)) = twins_from(bs, 0) {
        lemma_settled_distinct(united_at(bs, i, j));
    }
}

/// What [`dedup`] makes of a list of candidates.
pub open spec fn deduplicated(bs: Seq<Boundary>) -> Seq<Boundary> {
    settled(gathered(stably_sorted(bs)))
}

/// The splitter boundaries of a set of panes.
pub open spec fn boundaries_of(panes: Seq<Rect>) -> Seq<Boundary> {
    let large = large_panes(panes);
    deduplicated(candidates(large, large.len() as int))
}

/// Sort key that orders `Vertical` bars before `Horizontal` ones.
pub fn orient_key(o: Orientation) -> (key: u8)
    ensures
        key == rank(o),
{
    match o {
        Orientation::Vertical => 0,
        Orientation::Horizontal => 1,
    }
}

/// Does `a` come strictly before `b` in the sorted list?
fn sorts_before(a: &Boundary, b: &Boundary) -> (before: bool)
    ensures
        before == precedes(*a, *b),
{
    let ka: u8 = orient_key(a.orientation);
    let kb: u8 = orient_key(b.orientation);
    if ka != kb {
        ka < kb
    } else if a.coord != b.coord {
        a.coord < b.coord
    } else {
        a.span_start < b.span_start
    }
}

/// Do two boundaries' spans overlap by at least [`MIN_OVERLAP`]? Tells whether
/// two candidates on one line are the same splitter or two distinct ones stacked
/// along it.
pub fn spans_overlap(a: &Boundary, b: &Boundary) -> (overlap: bool)
    ensures
        overlap == overlapping(*a, *b),
{
    let start: i32 = max_of(a.span_start, b.span_start);
    let end: i32 = min_of(a.span_end, b.span_end);
    end as i64 - start as i64 >= MIN_OVERLAP as i64
}

/// Are the two boundaries one splitter?
fn is_same_splitter(a: &Boundary, b: &Boundary) -> (same: bool)
    ensures
        same == same_splitter(*a, *b),
{
    a.orientation == b.orientation && within(a.coord, b.coord, DEDUP_COORD) && spans_overlap(a, b)
}

/// `a` with its span widened to take in the span of `b`.
fn unite(a: &Boundary, b: &Boundary) -> (one: Boundary)
    ensures
        one == united(*a, *b),
{
    Boundary {
        orientation: a.orientation,
        coord: a.coord,
        span_start: min_of(a.span_start, b.span_start),
        span_end: max_of(a.span_end, b.span_end),
    }
}

/// Unite `b` with the boundary that is one splitter with it and starts at the same
/// point, or put it at the end.
fn gather(bs: &mut Vec<Boundary>, b: Boundary)
    ensures
        final(bs)@ == (match start_from(old(bs)@, b, 0) {
            Some(k) => old(bs)@.update(k, united(old(bs)@[k], b)),
            None => old(bs)@.push(b),
        }),
{
    let mut k: usize = 0;
    while k < bs.len()
        invariant
            bs@ == old(bs)@,
            k <= bs@.len(),
            start_from(bs@, b, 0) == start_from(bs@, b, k as int),
        decreases bs@.len() - k,
    {
        let a: Boundary = bs[k];
        if a.coord == b.coord && a.span_start == b.span_start && is_same_splitter(&a, &b) {
            bs[k] = unite(&a, &b);
            return;
        }
        k += 1;
    }
    bs.push(b);
}

/// Put `b` into the sorted list behind everything that it does not precede.
fn insert_sorted(sorted: &mut Vec<Boundary>, b: Boundary)
    ensures
        final(sorted)@ == inserted(old(sorted)@, b),
{
    let ghost all = sorted@;
    let mut at: usize = sorted.len();
    assert(all.take(at as int) =~= all);
    assert(inserted(all, b) + all.skip(at as int) =~= inserted(all, b));
    while at > 0 && sorts_before(&b, &sorted[at - 1])
        invariant
            sorted@ == all,
            at <= all.len(),
            inserted(all, b) == inserted(all.take(at as int), b) + all.skip(at as int),
        decreases at,
    {
        proof {
            let head = all.take(at as int);
            assert(head.last() == all[at - 1]);
            assert(head.drop_last() =~= all.take(at - 1));
            assert(inserted(all.take(at - 1), b).push(all[at - 1]) + all.skip(at as int)
                =~= inserted(all.take(at - 1), b) + all.skip(at - 1));
        }
        at -= 1;
    }
    proof {
        let head = all.take(at as int);
        assert(at > 0 ==> head.last() == all[at - 1]);
        assert(inserted(head, b) == head.push(b));
        assert(all.insert(at as int, b) =~= head.push(b) + all.skip(at as int));
    }
    sorted.insert(at, b);
}

/// Find the first two boundaries that are one splitter.
fn first_twins(bs: &Vec<Boundary>) -> (twins: Option<(usize, usize)>)
    ensures
        (match twins {
            Some((i, j)) => Some((i as int, j as int)),
            None => None,
        }) == twins_from(bs@, 0),
{
    let mut i: usize = 0;
    while i < bs.len()
        invariant
            i <= bs@.len(),
            twins_from(bs@, 0) == twins_from(bs@, i as int),
        decreases bs@.len() - i,
    {
        let mut j: usize = i + 1;
        while j < bs.len()
            invariant
                i < j <= bs@.len(),
                twins_from(bs@, 0) == twins_from(bs@, i as int),
                twin_from(bs@, i as int, i + 1) == twin_from(bs@, i as int, j as int),
            decreases bs@.len() - j,
        {
            if is_same_splitter(&bs[i], &bs[j]) {
                return Some((i, j));
            }
            j += 1;
        }
        i += 1;
    }
    None
}

/// Collapse near-identical boundaries (same orientation, coordinates within
/// [`DEDUP_COORD`], overlapping spans) into one, uniting their spans, until no two
/// are left. The result has vertical bars before horizontal ones, each kind by
/// coordinate.
pub fn dedup(candidates: Vec<Boundary>) -> (out: Vec<Boundary>)
    ensures
        out@ == deduplicated(candidates@),
        all_distinct(out@),
{
    let mut sorted: Vec<Boundary> = Vec::new();
    let mut i: usize = 0;
    assert(candidates@.take(0) =~= Seq::<Boundary>::empty());
    while i < candidates.len()
        invariant
            i <= candidates@.len(),
            sorted@ == stably_sorted(candidates@.take(i as int)),
        decreases candidates@.len() - i,
    {
        assert(candidates@.take(i + 1).drop_last() =~= candidates@.take(i as int));
        insert_sorted(&mut sorted, candidates[i]);
        i += 1;
    }
    assert(candidates@.take(i as int) =~= candidates@);

    let mut out: Vec<Boundary> = Vec::new();
    let mut k: usize = 0;
    assert(sorted@.take(0) =~= Seq::<Boundary>::empty());
    while k < sorted.len()
        invariant
            k <= sorted@.len(),
            out@ == gathered(sorted@.take(k as int)),
        decreases sorted@.len() - k,
    {
        assert(sorted@.take(k + 1).drop_last() =~= sorted@.take(k as int));
        gather(&mut out, sorted[k]);
        k += 1;
    }
    assert(sorted@.take(k as int) =~= sorted@);
    proof {
        lemma_settled_distinct(out@);
    }

    loop
        invariant
            settled(out@) == deduplicated(candidates@),
            all_distinct(settled(out@)),
        ensures
            out@ == deduplicated(candidates@),
            all_distinct(out@),
        decreases out@.len(),
    {
        proof {
            lemma_twins(out@, 0);
        }
        match first_twins(&out) {
            Some((a, b)) => {
                // The earlier coordinate represents the splitter.
                let one: Boundary = out[a];
                let two: Boundary = out[b];
                let ghost before = out@;
                out[a] = unite(&one, &two);
                out.remove(b);
                assert(out@ =~= united_at(before, a as int, b as int));
            },
            None => {
                break;
            },
        }
    }
    out
}

// ---------------------------------------------------------------------------
// Dragging
// ---------------------------------------------------------------------------

/// The middle of the span, on the boundary line.
pub open spec fn grip(b: Boundary) -> (int, int) {
    let mid = halfway(b.span_start as int, b.span_end as int);
    match b.orientation {
        Orientation::Vertical => (b.coord as int, mid),
        Orientation::Horizontal => (mid, b.coord as int),
    }
}

/// The component of a drag that moves the bar: `dx` for a vertical one, `dy`
/// for a horizontal one.
pub open spec fn drag_component(o: Orientation, dx: int, dy: int) -> int {
    match o {
        Orientation::Vertical => dx,
        Orientation::Horizontal => dy,
    }
}

/// `b` with its line moved by the drag. The coordinate is meant to fit.
pub open spec fn dragged(b: Boundary, dx: int, dy: int) -> Boundary {
    Boundary {
        orientation: b.orientation,
        coord: (b.coord + drag_component(b.orientation, dx, dy)) as i32,
        span_start: b.span_start,
        span_end: b.span_end,
    }
}

/// The point to render the handle on, and to start the mouse drag from: the
/// middle of the boundary's span, on the boundary line.
pub fn drag_point(b: &Boundary) -> (point: (i32, i32))
    ensures
        (point.0 as int, point.1 as int) == grip(*b),
{
    let mid: i32 = midpoint(b.span_start, b.span_end);
    match b.orientation {
        Orientation::Vertical => (b.coord, mid),
        Orientation::Horizontal => (mid, b.coord),
    }
}

/// A copy of `b` with its line moved by the drag. Only the component along the
/// drag axis matters, so the caller can pass a full `(dx, dy)` and let the
/// orientation pick the axis.
pub fn apply_drag(b: &Boundary, dx: i32, dy: i32) -> (out: Boundary)
    requires
        fits(b.coord + drag_component(b.orientation, dx as int, dy as int)),
    ensures
        out == dragged(*b, dx as int, dy as int),
        out.coord == b.coord + drag_component(b.orientation, dx as int, dy as int),
{
    let coord: i32 = match b.orientation {
        Orientation::Vertical => b.coord + dx,
        Orientation::Horizontal => b.coord + dy,
    };
    Boundary {
        orientation: b.orientation,
        coord: coord,
        span_start: b.span_start,
        span_end: b.span_end,
    }
}

} // verus!
