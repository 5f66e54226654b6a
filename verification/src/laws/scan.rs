//! Laws of whole scans, over any finite tree of elements.

use vstd::prelude::*;

use crate::geometry::Rect;
use crate::laws::scanner::{law_looking_adds_at_most_one, law_spots_stay_different, spots_differ};
use crate::laws::treewalk::{
    driven, law_walk_is_depth_first, preorder, visit_all, Tree,
};
use crate::report::Tally;
use crate::scan::{enough_hints, gathered, visited_one, Course};
use crate::scanner::{
    considered, pane_of, raised, same_spot, HintModel, MAX_DEPTH, MAX_ELEMENTS, MAX_RAW_DEPTH,
    MAX_VISITED,
};
use crate::splitter::MIN_PANE_SIZE;
use crate::treewalk::first_step;

verus! {

/// What can be read of an element.
pub struct Reading {
    pub control_type: Option<i32>,
    pub rect: Option<Rect>,
    pub offscreen: Option<bool>,
    pub name: Option<Seq<char>>,
}

/// What looking at an element does to the hints found so far.
pub open spec fn looking(readings: spec_fn(int) -> Reading, window: Rect) -> spec_fn(
    Seq<HintModel>,
    int,
) -> Seq<HintModel> {
    |hints: Seq<HintModel>, e: int|
        considered(
            readings(e).control_type,
            readings(e).rect,
            readings(e).offscreen,
            readings(e).name,
            window,
            hints,
        )
}

/// Is the scan over before the elements are?
pub open spec fn hints_full() -> spec_fn(Seq<HintModel>) -> bool {
    |hints: Seq<HintModel>| enough_hints(hints)
}

/// The hints after a window was scanned.
pub open spec fn scanned(
    tree: Tree,
    readings: spec_fn(int) -> Reading,
    window: Rect,
    hints: Seq<HintModel>,
) -> Seq<HintModel> {
    visit_all(
        preorder(tree, MAX_DEPTH as int),
        hints,
        looking(readings, window),
        hints_full(),
    )
}

/// The scan of a window ends, and it has then looked at the window's elements in
/// depth-first order, down to the depth limit, until there were enough hints.
pub proof fn law_scan_is_depth_first(
    tree: Tree,
    readings: spec_fn(int) -> Reading,
    window: Rect,
    hints: Seq<HintModel>,
)
    ensures
        exists|fuel: nat|
            #[trigger] driven(
                seq![seq![tree]],
                first_step(enough_hints(hints)),
                hints,
                MAX_DEPTH as int,
                looking(readings, window),
                hints_full(),
                fuel,
            ) == Some(scanned(tree, readings, window, hints)),
{
    law_walk_is_depth_first(
        tree,
        MAX_DEPTH as int,
        hints,
        looking(readings, window),
        hints_full(),
    );
}

/// What holds of the hints after some elements were looked at.
proof fn lemma_visits(
    elements: Seq<int>,
    readings: spec_fn(int) -> Reading,
    window: Rect,
    hints: Seq<HintModel>,
)
    ensures
        ({
            let after = visit_all(elements, hints, looking(readings, window), hints_full());
            &&& hints.len() <= after.len()
            &&& after.take(hints.len() as int) == hints
            &&& hints.len() <= MAX_ELEMENTS ==> after.len() <= MAX_ELEMENTS
            &&& spots_differ(hints) ==> spots_differ(after)
            &&& forall|k: int|
                hints.len() <= k < after.len() ==> {
                    &&& window.left <= (#[trigger] after[k]).cx <= window.right
                    &&& window.top <= after[k].cy <= window.bottom
                    &&& !after[k].above
                }
        }),
    decreases elements.len(),
{
    let visit = looking(readings, window);
    let after = visit_all(elements, hints, visit, hints_full());
    if elements.len() == 0 || enough_hints(hints) {
        assert(after.take(hints.len() as int) =~= hints);
    } else {
        let r = readings(elements[0]);
        let next = visit(hints, elements[0]);
        law_looking_adds_at_most_one(r.control_type, r.rect, r.offscreen, r.name, window, hints);
        if spots_differ(hints) {
            law_spots_stay_different(r.control_type, r.rect, r.offscreen, r.name, window, hints);
        }
        lemma_visits(elements.drop_first(), readings, window, next);
        assert(after.take(hints.len() as int) =~= after.take(next.len() as int).take(
            hints.len() as int,
        ));
        assert forall|k: int| hints.len() <= k < after.len() implies {
            &&& window.left <= (#[trigger] after[k]).cx <= window.right
            &&& window.top <= after[k].cy <= window.bottom
            &&& !after[k].above
        } by {
            if k < next.len() {
                assert(after.take(next.len() as int)[k] == after[k]);
                assert(next.last() == next[k]);
            }
        }
    }
}

/// Scanning a window keeps the hints found before and adds to them at the end; the
/// new ones lie within the window; there are never more hints than a scan may
/// collect; and no two sit on one spot.
pub proof fn law_scan_adds_hints_within_the_window(
    tree: Tree,
    readings: spec_fn(int) -> Reading,
    window: Rect,
    hints: Seq<HintModel>,
)
    requires
        hints.len() <= MAX_ELEMENTS,
        spots_differ(hints),
    ensures
        ({
            let after = scanned(tree, readings, window, hints);
            &&& hints.len() <= after.len() <= MAX_ELEMENTS
            &&& after.take(hints.len() as int) == hints
            &&& spots_differ(after)
            &&& forall|k: int|
                hints.len() <= k < after.len() ==> {
                    &&& window.left <= (#[trigger] after[k]).cx <= window.right
                    &&& window.top <= after[k].cy <= window.bottom
                }
        }),
{
    lemma_visits(preorder(tree, MAX_DEPTH as int), readings, window, hints);
}

/// The whole scan: the application window first, then the taskbar, whose hints are
/// marked to be labeled above.
pub open spec fn both_scanned(
    app: Tree,
    app_window: Rect,
    tray: Tree,
    tray_window: Rect,
    readings: spec_fn(int) -> Reading,
) -> Seq<HintModel> {
    let first = scanned(app, readings, app_window, Seq::empty());
    raised(scanned(tray, readings, tray_window, first), first.len() as int)
}

/// In the whole scan the application's hints come first and are labeled in place;
/// those of the taskbar come last and are labeled above; there are never more than
/// a scan may collect, and no two on one spot.
pub proof fn law_taskbar_hints_come_last_and_above(
    app: Tree,
    app_window: Rect,
    tray: Tree,
    tray_window: Rect,
    readings: spec_fn(int) -> Reading,
)
    ensures
        ({
            let first = scanned(app, readings, app_window, Seq::empty());
            let all = both_scanned(app, app_window, tray, tray_window, readings);
            &&& all.len() <= MAX_ELEMENTS
            &&& all.take(first.len() as int) == first
            &&& forall|k: int|
                0 <= k < all.len() ==> (#[trigger] all[k]).above == (k >= first.len())
            &&& spots_differ(all)
        }),
{
    let none = Seq::<HintModel>::empty();
    let first = scanned(app, readings, app_window, none);
    let second = scanned(tray, readings, tray_window, first);
    let all = both_scanned(app, app_window, tray, tray_window, readings);
    lemma_visits(preorder(app, MAX_DEPTH as int), readings, app_window, none);
    lemma_visits(preorder(tray, MAX_DEPTH as int), readings, tray_window, first);
    assert forall|k: int| 0 <= k < all.len() implies (#[trigger] all[k]).above == (k
        >= first.len()) by {
        if k < first.len() {
            assert(second.take(first.len() as int)[k] == second[k]);
            assert(!first[k].above);
        }
    }
    assert(all.take(first.len() as int) =~= second.take(first.len() as int));
    assert forall|i: int, j: int| 0 <= i < j < all.len() implies !same_spot(all[i], all[j]) by {
        assert(!same_spot(second[i], second[j]));
    }
}

// ---------------------------------------------------------------------------
// Panes
// ---------------------------------------------------------------------------

/// What looking at an element does to the number of visits and the panes found.
pub open spec fn gathering(readings: spec_fn(int) -> Reading) -> spec_fn((int, Seq<Rect>), int) -> (
    int,
    Seq<Rect>,
) {
    |seen: (int, Seq<Rect>), e: int|
        (seen.0 + 1, gathered(seen.1, readings(e).control_type, readings(e).rect))
}

/// Are the visits used up?
pub open spec fn visits_full() -> spec_fn((int, Seq<Rect>)) -> bool {
    |seen: (int, Seq<Rect>)| seen.0 >= MAX_VISITED
}

/// The number of visits and the panes after a window was searched.
pub open spec fn panes_of(tree: Tree, readings: spec_fn(int) -> Reading) -> (int, Seq<Rect>) {
    visit_all(
        preorder(tree, MAX_RAW_DEPTH as int),
        (0int, Seq::<Rect>::empty()),
        gathering(readings),
        visits_full(),
    )
}

/// The search for panes ends, and it has then looked at the window's elements in
/// depth-first order, down to the depth limit, until the visits were used up.
pub proof fn law_pane_search_is_depth_first(tree: Tree, readings: spec_fn(int) -> Reading)
    ensures
        exists|fuel: nat|
            #[trigger] driven(
                seq![seq![tree]],
                first_step(false),
                (0int, Seq::<Rect>::empty()),
                MAX_RAW_DEPTH as int,
                gathering(readings),
                visits_full(),
                fuel,
            ) == Some(panes_of(tree, readings)),
{
    assert(!visits_full()((0int, Seq::<Rect>::empty())));
    law_walk_is_depth_first(
        tree,
        MAX_RAW_DEPTH as int,
        (0int, Seq::<Rect>::empty()),
        gathering(readings),
        visits_full(),
    );
}

/// What holds of visits and panes after some elements were looked at.
proof fn lemma_gathered(elements: Seq<int>, readings: spec_fn(int) -> Reading, seen: (int, Seq<Rect>))
    requires
        seen.0 <= MAX_VISITED,
        seen.1.len() <= seen.0,
        forall|k: int|
            0 <= k < seen.1.len() ==> (#[trigger] seen.1[k]).spans_at_least(MIN_PANE_SIZE as int),
    ensures
        ({
            let after = visit_all(elements, seen, gathering(readings), visits_full());
            &&& after.1.len() <= after.0 <= MAX_VISITED
            &&& forall|k: int|
                0 <= k < after.1.len() ==> (#[trigger] after.1[k]).spans_at_least(
                    MIN_PANE_SIZE as int,
                )
        }),
    decreases elements.len(),
{
    if elements.len() > 0 && !visits_full()(seen) {
        let next = gathering(readings)(seen, elements[0]);
        assert forall|k: int| 0 <= k < next.1.len() implies (#[trigger] next.1[k]).spans_at_least(
            MIN_PANE_SIZE as int,
        ) by {
            if k == seen.1.len() {
                assert(pane_of(
                    readings(elements[0]).control_type,
                    readings(elements[0]).rect,
                ) == Some(next.1[k]));
            } else {
                assert(next.1[k] == seen.1[k]);
            }
        }
        lemma_gathered(elements.drop_first(), readings, next);
    }
}

/// Every pane that a search finds is large enough to take part in the search for
/// splitters, and the search stays within its number of visits.
pub proof fn law_found_panes_are_large(tree: Tree, readings: spec_fn(int) -> Reading)
    ensures
        panes_of(tree, readings).1.len() <= panes_of(tree, readings).0 <= MAX_VISITED,
        forall|k: int|
            0 <= k < panes_of(tree, readings).1.len() ==> (#[trigger] panes_of(
                tree,
                readings,
            ).1[k]).spans_at_least(MIN_PANE_SIZE as int),
{
    lemma_gathered(
        preorder(tree, MAX_RAW_DEPTH as int),
        readings,
        (0int, Seq::<Rect>::empty()),
    );
}

// ---------------------------------------------------------------------------
// Limits
// ---------------------------------------------------------------------------

/// A scan looks at elements down to 32 levels below the window and ends once there are 300
/// hints; a search for panes goes down 30 levels and ends after 5000 elements.
pub proof fn law_walks_have_their_limits(
    tree: Tree,
    readings: spec_fn(int) -> Reading,
    window: Rect,
    hints: Seq<HintModel>,
    seen: (int, Seq<Rect>),
)
    ensures
        scanned(tree, readings, window, hints) == visit_all(
            preorder(tree, 32),
            hints,
            looking(readings, window),
            hints_full(),
        ),
        panes_of(tree, readings) == visit_all(
            preorder(tree, 30),
            (0int, Seq::<Rect>::empty()),
            gathering(readings),
            visits_full(),
        ),
        enough_hints(hints) <==> hints.len() >= 300,
        visits_full()(seen) <==> seen.0 >= 5000,
{
}

/// A step of a walk: after an element comes its first child, down to the depth limit, then
/// its next sibling, and behind the last sibling the parent's. The root has no sibling.
/// Once enough has been seen, the walk is over.
pub proof fn law_walks_go_step_by_step(course: Course, found: bool, full: bool, after: Course)
    requires
        course.wf(),
        course.advanced(found, full, after),
    ensures
        after.walk.max_depth == course.walk.max_depth,
        full ==> after.next is Done,
        course.next is Done ==> after.next is Done,
        !full && course.next is Inspect && course.walk.depth < course.walk.max_depth ==> after.next
            is FirstChild && after.walk.depth == course.walk.depth,
        !full && course.next is Inspect && course.walk.depth == course.walk.max_depth
            && course.walk.depth > 0 ==> after.next is NextSibling && after.walk.depth
            == course.walk.depth,
        !full && course.next is FirstChild && found ==> after.next is Inspect && after.walk.depth
            == course.walk.depth + 1,
        !full && course.next is FirstChild && !found && course.walk.depth > 0 ==> after.next
            is NextSibling && after.walk.depth == course.walk.depth,
        !full && course.next is NextSibling && found ==> after.next is Inspect && after.walk.depth
            == course.walk.depth,
        !full && course.next is NextSibling && !found && course.walk.depth > 1 ==> after.next
            is NextSibling && after.walk.depth == course.walk.depth - 1,
        !full && course.next is NextSibling && !found && course.walk.depth == 1 ==> after.next
            is Done,
        !full && course.next is FirstChild && !found && course.walk.depth == 0 ==> after.next
            is Done,
{
}

/// Looking at one more element counts one visit, and takes in the element's rectangle
/// exactly if it has the control type 50033 and is at least 80 pixels wide and high.
pub proof fn law_panes_are_gathered_one_by_one(
    panes: Seq<Rect>,
    control_type: Option<i32>,
    rect: Option<Rect>,
    tally: Tally,
)
    requires
        tally.visited < 5000,
    ensures
        gathered(panes, control_type, rect) == (if control_type == Some(50033i32) && (
        rect matches Some(r) && r.right - r.left >= 80 && r.bottom - r.top >= 80) {
            panes.push(rect->0)
        } else {
            panes
        }),
        visited_one(tally).visited == tally.visited + 1,
        visited_one(tally).transforms == tally.transforms,
        visited_one(tally).splitters == tally.splitters,
{
}

/// A walk begins at its root, with a look at it, unless enough has been seen already; a
/// course is in order exactly if it lies within its depth and its next step can be taken.
pub proof fn law_walks_begin_at_the_root(course: Course, max_depth: int, full: bool)
    ensures
        course.begun(max_depth, full) <==> course.walk.depth == 0 && course.walk.max_depth
            == max_depth && (full ==> course.next is Done) && (!full ==> course.next is Inspect),
        course.wf() <==> course.walk.depth <= course.walk.max_depth && (course.next is FirstChild
            ==> course.walk.depth < course.walk.max_depth) && (course.next is NextSibling
            ==> course.walk.depth > 0),
{
}

} // verus!
