//! Laws of boundary detection.

use vstd::prelude::*;

use crate::geometry::{distance, fits, Rect};
use crate::splitter::{
    all_distinct, boundaries_of, candidates, deduplicated, drag_component, dragged, gathered, grip,
    horizontal_between, inserted, is_pane, large_panes, lemma_settled_distinct, lemma_twins,
    meets_below, meets_right, overlapping, pair_candidates, precedes, rank, row_candidates,
    same_splitter, same_start, settled, stably_sorted, start_from, twins_from, united, united_at,
    vertical_between, Boundary, DEDUP_COORD, MIN_OVERLAP,
};

verus! {

/// No later boundary strictly precedes an earlier one.
pub open spec fn in_order(bs: Seq<Boundary>) -> bool {
    forall|i: int, j: int| 0 <= i < j < bs.len() ==> !precedes(#[trigger] bs[j], #[trigger] bs[i])
}

/// Every boundary strictly precedes the later ones.
pub open spec fn strictly_in_order(bs: Seq<Boundary>) -> bool {
    forall|i: int, j: int| 0 <= i < j < bs.len() ==> precedes(#[trigger] bs[i], #[trigger] bs[j])
}

/// Vertical bars come before horizontal ones, and each kind goes by coordinate.
pub open spec fn lines_ascend(bs: Seq<Boundary>) -> bool {
    forall|i: int, j: int|
        0 <= i < j < bs.len() ==> line_at_most(#[trigger] bs[i], #[trigger] bs[j])
}

/// `a`'s line comes before `b`'s or is the same one.
pub open spec fn line_at_most(a: Boundary, b: Boundary) -> bool {
    ||| rank(a.orientation) < rank(b.orientation)
    ||| a.orientation == b.orientation && a.coord <= b.coord
}

/// Is every boundary long enough to be one splitter with its own copy?
pub open spec fn all_long(bs: Seq<Boundary>) -> bool {
    forall|i: int| 0 <= i < bs.len() ==> overlapping(#[trigger] bs[i], bs[i])
}

/// Do the two lists hold the same boundaries, in whatever order and number?
pub open spec fn same_boundaries(a: Seq<Boundary>, b: Seq<Boundary>) -> bool {
    forall|x: Boundary| #[trigger] a.contains(x) <==> b.contains(x)
}

/// Do the two lists hold the same rectangles, in whatever order and number?
pub open spec fn same_panes(a: Seq<Rect>, b: Seq<Rect>) -> bool {
    forall|r: Rect| #[trigger] a.contains(r) <==> b.contains(r)
}

/// Is `b` a bar of the same kind over at least the same span as `c`?
pub open spec fn spans_over(b: Boundary, c: Boundary) -> bool {
    &&& b.orientation == c.orientation
    &&& b.span_start <= c.span_start
    &&& c.span_end <= b.span_end
}

/// Does some boundary of the list run on the line of `b`, within its span?
pub open spec fn grounded(bs: Seq<Boundary>, b: Boundary) -> bool {
    exists|k: int| 0 <= k < bs.len() && spans_over(b, #[trigger] bs[k]) && bs[k].coord == b.coord
}

/// Does a boundary of this kind lie behind `x`, at most [`DEDUP_COORD`] further?
pub open spec fn line_follows(bs: Seq<Boundary>, c: Boundary, x: int) -> bool {
    exists|k: int|
        0 <= k < bs.len() && (#[trigger] bs[k]).orientation == c.orientation && x < bs[k].coord <= x
            + DEDUP_COORD && bs[k].coord <= c.coord
}

/// Is `c` reached from the coordinate `from` on over lines of the list that are at
/// most [`DEDUP_COORD`] apart?
pub open spec fn reached(bs: Seq<Boundary>, from: int, c: Boundary) -> bool {
    from <= c.coord && forall|x: int| from <= x < c.coord ==> #[trigger] line_follows(bs, c, x)
}

/// Does `b` stand for `c`, out of the boundaries `bs`: the same kind of bar, over at
/// least the same span, on a line from which the line of `c` is reached?
pub open spec fn stands_for(bs: Seq<Boundary>, b: Boundary, c: Boundary) -> bool {
    spans_over(b, c) && reached(bs, b.coord as int, c)
}

/// Does some boundary of `out` stand for `c`?
pub open spec fn represented(bs: Seq<Boundary>, out: Seq<Boundary>, c: Boundary) -> bool {
    exists|k: int| 0 <= k < out.len() && stands_for(bs, #[trigger] out[k], c)
}

/// Does `b` stand for `c` closely: the same kind of bar, on about the same line, over
/// at least the same span?
pub open spec fn covers(b: Boundary, c: Boundary) -> bool {
    spans_over(b, c) && distance(b.coord as int, c.coord as int) <= DEDUP_COORD
}

/// Does some boundary of the list stand for `c` closely?
pub open spec fn covered(bs: Seq<Boundary>, c: Boundary) -> bool {
    exists|k: int| 0 <= k < bs.len() && covers(#[trigger] bs[k], c)
}

/// Do the lines fall into groups: two that are both close to a third one are close to
/// each other?
pub open spec fn lines_are_grouped(bs: Seq<Boundary>) -> bool {
    forall|i: int, j: int, k: int|
        0 <= i < bs.len() && 0 <= j < bs.len() && 0 <= k < bs.len() && #[trigger] close(
            bs[i],
            bs[j],
        ) && #[trigger] close(bs[j], bs[k]) ==> close(bs[i], bs[k])
}

/// Are the two lines of one kind and at most [`DEDUP_COORD`] apart?
pub open spec fn close(a: Boundary, b: Boundary) -> bool {
    a.orientation == b.orientation && distance(a.coord as int, b.coord as int) <= DEDUP_COORD
}

/// Equal in everything that the order looks at.
pub open spec fn same_key(a: Boundary, b: Boundary) -> bool {
    a.orientation == b.orientation && a.coord == b.coord && a.span_start == b.span_start
}

// ---------------------------------------------------------------------------
// Sorting
// ---------------------------------------------------------------------------

/// Putting a boundary in keeps the order and the others.
proof fn lemma_inserted(sorted: Seq<Boundary>, b: Boundary)
    requires
        in_order(sorted),
    ensures
        in_order(inserted(sorted, b)),
        inserted(sorted, b).to_multiset() =~= sorted.to_multiset().insert(b),
        inserted(sorted, b).len() == sorted.len() + 1,
        forall|i: int|
            0 <= i < inserted(sorted, b).len() ==> #[trigger] inserted(sorted, b)[i] == b
                || sorted.contains(inserted(sorted, b)[i]),
    decreases sorted.len(),
{
    broadcast use vstd::seq_lib::group_to_multiset_ensures;

    if sorted.len() == 0 || !precedes(b, sorted.last()) {
        assert forall|i: int| 0 <= i < sorted.push(b).len() implies #[trigger] sorted.push(b)[i]
            == b || sorted.contains(sorted.push(b)[i]) by {
            if i < sorted.len() {
                assert(sorted.push(b)[i] == sorted[i]);
            }
        }
    } else {
        let head = sorted.drop_last();
        let last = sorted.last();
        lemma_inserted(head, b);
        assert(head.push(last) =~= sorted);
        let out = inserted(head, b).push(last);
        assert forall|i: int| 0 <= i < out.len() implies #[trigger] out[i] == b || sorted.contains(
            out[i],
        ) by {
            if i < out.len() - 1 {
                assert(out[i] == inserted(head, b)[i]);
                if out[i] != b {
                    let k = choose|k: int| 0 <= k < head.len() && head[k] == out[i];
                    assert(sorted[k] == out[i]);
                }
            } else {
                assert(sorted[sorted.len() - 1] == out[i]);
            }
        }
        assert forall|i: int, j: int| 0 <= i < j < out.len() implies !precedes(
            #[trigger] out[j],
            #[trigger] out[i],
        ) by {
            let inner = inserted(head, b);
            assert(out[i] == inner[i]);
            if j < out.len() - 1 {
                assert(out[j] == inner[j]);
            } else if inner[i] != b {
                let k = choose|k: int| 0 <= k < head.len() && head[k] == inner[i];
                assert(sorted[k] == inner[i]);
                assert(sorted[sorted.len() - 1] == out[j]);
            }
        }
    }
}

/// Sorting puts the boundaries in order and neither loses nor adds one.
pub proof fn law_sort_orders_the_same_boundaries(bs: Seq<Boundary>)
    ensures
        in_order(stably_sorted(bs)),
        stably_sorted(bs).to_multiset() == bs.to_multiset(),
    decreases bs.len(),
{
    broadcast use vstd::seq_lib::group_to_multiset_ensures;

    if bs.len() > 0 {
        law_sort_orders_the_same_boundaries(bs.drop_last());
        lemma_inserted(stably_sorted(bs.drop_last()), bs.last());
        assert(bs.drop_last().push(bs.last()) =~= bs);
    }
}

/// Picking out of a longer list.
proof fn lemma_filter_push(bs: Seq<Boundary>, b: Boundary, pred: spec_fn(Boundary) -> bool)
    ensures
        bs.push(b).filter(pred) == (if pred(b) {
            bs.filter(pred).push(b)
        } else {
            bs.filter(pred)
        }),
{
    reveal(Seq::filter);
    assert(bs.push(b).drop_last() =~= bs);
}

/// A boundary goes behind those that the order does not tell from it.
proof fn lemma_inserted_stable(sorted: Seq<Boundary>, b: Boundary, key: Boundary)
    ensures
        inserted(sorted, b).filter(|c: Boundary| same_key(c, key)) == (if same_key(b, key) {
            sorted.filter(|c: Boundary| same_key(c, key)).push(b)
        } else {
            sorted.filter(|c: Boundary| same_key(c, key))
        }),
    decreases sorted.len(),
{
    let pred = |c: Boundary| same_key(c, key);
    if sorted.len() == 0 || !precedes(b, sorted.last()) {
        lemma_filter_push(sorted, b, pred);
    } else {
        let head = sorted.drop_last();
        lemma_inserted_stable(head, b, key);
        lemma_filter_push(inserted(head, b), sorted.last(), pred);
        lemma_filter_push(head, sorted.last(), pred);
        assert(head.push(sorted.last()) =~= sorted);
    }
}

/// Sorting keeps boundaries that the order does not tell apart in the order in
/// which they came.
pub proof fn law_sort_is_stable(bs: Seq<Boundary>, key: Boundary)
    ensures
        stably_sorted(bs).filter(|c: Boundary| same_key(c, key)) == bs.filter(
            |c: Boundary| same_key(c, key),
        ),
    decreases bs.len(),
{
    if bs.len() > 0 {
        law_sort_is_stable(bs.drop_last(), key);
        lemma_inserted_stable(stably_sorted(bs.drop_last()), bs.last(), key);
        lemma_filter_push(bs.drop_last(), bs.last(), |c: Boundary| same_key(c, key));
        assert(bs.drop_last().push(bs.last()) =~= bs);
    }
}

/// A longer list holds what the shorter one held, and the new boundary.
proof fn lemma_push_contains(bs: Seq<Boundary>, b: Boundary)
    ensures
        forall|x: Boundary| #[trigger] bs.push(b).contains(x) <==> bs.contains(x) || x == b,
{
    assert forall|x: Boundary| #[trigger] bs.push(b).contains(x) <==> bs.contains(x) || x == b by {
        if bs.contains(x) {
            let k = choose|k: int| 0 <= k < bs.len() && bs[k] == x;
            assert(bs.push(b)[k] == x);
        }
        if x == b {
            assert(bs.push(b)[bs.len() as int] == x);
        }
    }
}

/// Lists that count the same hold the same boundaries.
proof fn lemma_same_count_same_boundaries(a: Seq<Boundary>, b: Seq<Boundary>)
    requires
        a.to_multiset() == b.to_multiset(),
    ensures
        same_boundaries(a, b),
        a.len() == b.len(),
{
    broadcast use vstd::seq_lib::group_to_multiset_ensures;

    assert forall|x: Boundary| #[trigger] a.contains(x) <==> b.contains(x) by {
        assert(a.to_multiset().count(x) > 0 <==> a.contains(x));
        assert(b.to_multiset().count(x) > 0 <==> b.contains(x));
    }
    a.to_multiset_ensures();
    b.to_multiset_ensures();
}

/// There is one way to put a set of boundaries in strict order.
proof fn lemma_one_strict_order(a: Seq<Boundary>, b: Seq<Boundary>)
    requires
        strictly_in_order(a),
        strictly_in_order(b),
        same_boundaries(a, b),
    ensures
        a == b,
    decreases a.len(),
{
    if a.len() == 0 {
        if b.len() > 0 {
            assert(b.contains(b[0]));
            assert(a.contains(b[0]));
        }
        assert(a =~= b);
    } else {
        assert(a.contains(a.last()));
        assert(b.contains(a.last()));
        assert(b.contains(b.last()));
        assert(a.contains(b.last()));
        let i = choose|i: int| 0 <= i < a.len() && a[i] == b.last();
        let j = choose|j: int| 0 <= j < b.len() && b[j] == a.last();
        assert(a.last() == b.last()) by {
            if i < a.len() - 1 && j < b.len() - 1 {
                assert(precedes(a[i], a[a.len() - 1]));
                assert(precedes(b[j], b[b.len() - 1]));
            }
        }
        let x = a.drop_last();
        let y = b.drop_last();
        lemma_drop_last_contains(a);
        lemma_drop_last_contains(b);
        lemma_drop_last_strict(a);
        lemma_drop_last_strict(b);
        lemma_one_strict_order(x, y);
        assert(x.push(a.last()) =~= a);
        assert(y.push(b.last()) =~= b);
    }
}

/// Without its last boundary, a strictly ordered list holds all the others.
proof fn lemma_drop_last_contains(bs: Seq<Boundary>)
    requires
        bs.len() > 0,
        strictly_in_order(bs),
    ensures
        forall|x: Boundary|
            #[trigger] bs.drop_last().contains(x) <==> bs.contains(x) && x != bs.last(),
{
    let short = bs.drop_last();
    assert forall|x: Boundary| #[trigger] short.contains(x) <==> bs.contains(x) && x
        != bs.last() by {
        if short.contains(x) {
            let k = choose|k: int| 0 <= k < short.len() && short[k] == x;
            assert(bs[k] == x);
            assert(precedes(bs[k], bs[bs.len() - 1]));
        }
        if bs.contains(x) && x != bs.last() {
            let k = choose|k: int| 0 <= k < bs.len() && bs[k] == x;
            assert(short[k] == x);
        }
    }
}

/// The beginning of a strictly ordered list is one.
proof fn lemma_drop_last_strict(bs: Seq<Boundary>)
    requires
        bs.len() > 0,
        strictly_in_order(bs),
    ensures
        strictly_in_order(bs.drop_last()),
{
    let short = bs.drop_last();
    assert forall|i: int, j: int| 0 <= i < j < short.len() implies precedes(
        #[trigger] short[i],
        #[trigger] short[j],
    ) by {
        assert(short[i] == bs[i] && short[j] == bs[j]);
    }
}

// ---------------------------------------------------------------------------
// Gathering
// ---------------------------------------------------------------------------

/// What is found is one splitter with `b` and starts at the same point; where nothing
/// is found, there is no such boundary.
pub proof fn lemma_start(bs: Seq<Boundary>, b: Boundary, k: int)
    requires
        0 <= k,
    ensures
        match start_from(bs, b, k) {
            Some(t) => k <= t < bs.len() && same_start(bs[t], b),
            None => forall|i: int| k <= i < bs.len() ==> !same_start(#[trigger] bs[i], b),
        },
    decreases bs.len() - k,
{
    if k < bs.len() && !same_start(bs[k], b) {
        lemma_start(bs, b, k + 1);
    }
}

/// Do no two boundaries that are one splitter start at one point?
pub open spec fn starts_differ(bs: Seq<Boundary>) -> bool {
    forall|i: int, j: int|
        0 <= i < j < bs.len() ==> !same_start(#[trigger] bs[i], #[trigger] bs[j])
}

/// Is there a boundary on the line of `c`, from the same point on and at least as long?
pub open spec fn extended(bs: Seq<Boundary>, c: Boundary) -> bool {
    exists|k: int| 0 <= k < bs.len() && same_key(#[trigger] bs[k], c) && c.span_end <= bs[k].span_end
}

/// What gathering one more boundary does.
proof fn lemma_gathered_one(bs: Seq<Boundary>, rest: Seq<Boundary>)
    requires
        bs.len() > 0,
        rest == gathered(bs.drop_last()),
        starts_differ(rest),
        forall|k: int| 0 <= k < rest.len() ==> bs.drop_last().contains(#[trigger] rest[k]),
        forall|i: int| 0 <= i < bs.len() - 1 ==> #[trigger] extended(rest, bs[i]),
    ensures
        starts_differ(gathered(bs)),
        forall|k: int| 0 <= k < gathered(bs).len() ==> bs.contains(#[trigger] gathered(bs)[k]),
        forall|i: int| 0 <= i < bs.len() ==> #[trigger] extended(gathered(bs), bs[i]),
        rest.len() <= gathered(bs).len() <= rest.len() + 1,
{
    let start = bs.drop_last();
    let b = bs.last();
    let out = gathered(bs);
    lemma_start(rest, b, 0);
    assert(start.push(b) =~= bs);
    lemma_push_contains(start, b);
    match start_from(rest, b, 0) {
        Some(t) => {
            assert(out == rest.update(t, united(rest[t], b)));
            assert(out[t] == rest[t] || out[t] == b);
            assert forall|k: int| 0 <= k < out.len() implies bs.contains(#[trigger] out[k]) by {
                assert(start.contains(rest[k]));
            }
            assert forall|i: int, j: int| 0 <= i < j < out.len() implies !same_start(
                #[trigger] out[i],
                #[trigger] out[j],
            ) by {
                assert(!same_start(rest[i], rest[j]));
            }
            assert forall|i: int| 0 <= i < bs.len() implies #[trigger] extended(out, bs[i]) by {
                if i < start.len() {
                    assert(extended(rest, bs[i]));
                    let k = choose|k: int|
                        0 <= k < rest.len() && same_key(#[trigger] rest[k], bs[i])
                            && bs[i].span_end <= rest[k].span_end;
                    assert(same_key(out[k], bs[i]));
                } else {
                    assert(same_key(out[t], bs[i]));
                }
            }
        },
        None => {
            assert(out == rest.push(b));
            assert forall|k: int| 0 <= k < out.len() implies bs.contains(#[trigger] out[k]) by {
                if k < rest.len() {
                    assert(out[k] == rest[k]);
                    assert(start.contains(rest[k]));
                }
            }
            assert forall|i: int, j: int| 0 <= i < j < out.len() implies !same_start(
                #[trigger] out[i],
                #[trigger] out[j],
            ) by {
                assert(out[i] == rest[i]);
                if j < rest.len() {
                    assert(out[j] == rest[j]);
                }
            }
            assert forall|i: int| 0 <= i < bs.len() implies #[trigger] extended(out, bs[i]) by {
                if i < start.len() {
                    assert(extended(rest, bs[i]));
                    let k = choose|k: int|
                        0 <= k < rest.len() && same_key(#[trigger] rest[k], bs[i])
                            && bs[i].span_end <= rest[k].span_end;
                    assert(out[k] == rest[k]);
                } else {
                    assert(same_key(out[rest.len() as int], bs[i]));
                }
            }
        },
    }
}

/// Gathering adds no boundary, keeps from every point on the longest, and leaves one
/// for each.
pub proof fn lemma_gathered(bs: Seq<Boundary>)
    ensures
        starts_differ(gathered(bs)),
        forall|k: int| 0 <= k < gathered(bs).len() ==> bs.contains(#[trigger] gathered(bs)[k]),
        forall|i: int| 0 <= i < bs.len() ==> #[trigger] extended(gathered(bs), bs[i]),
        gathered(bs).len() <= bs.len(),
    decreases bs.len(),
{
    if bs.len() > 0 {
        let start = bs.drop_last();
        let rest = gathered(start);
        lemma_gathered(start);
        assert forall|i: int| 0 <= i < bs.len() - 1 implies #[trigger] extended(rest, bs[i]) by {
            assert(extended(rest, start[i]));
        }
        lemma_gathered_one(bs, rest);
    }
}

/// Boundaries no two of which are one splitter are gathered as they are.
proof fn lemma_distinct_are_gathered(bs: Seq<Boundary>)
    requires
        all_distinct(bs),
    ensures
        gathered(bs) == bs,
    decreases bs.len(),
{
    if bs.len() > 0 {
        let start = bs.drop_last();
        assert forall|i: int, j: int| 0 <= i < j < start.len() implies !same_splitter(
            #[trigger] start[i],
            #[trigger] start[j],
        ) by {
            assert(start[i] == bs[i] && start[j] == bs[j]);
        }
        lemma_distinct_are_gathered(start);
        lemma_start(start, bs.last(), 0);
        if let Some(t) = start_from(start, bs.last(), 0) {
            assert(!same_splitter(bs[t], bs[bs.len() - 1]));
        }
        assert(start.push(bs.last()) =~= bs);
    }
}

/// The boundaries in order and gathered.
pub open spec fn prepared(bs: Seq<Boundary>) -> Seq<Boundary> {
    gathered(stably_sorted(bs))
}

/// Gathering keeps the order.
pub proof fn lemma_gathered_in_order(bs: Seq<Boundary>)
    requires
        in_order(bs),
    ensures
        in_order(gathered(bs)),
    decreases bs.len(),
{
    if bs.len() > 0 {
        let start = bs.drop_last();
        let b = bs.last();
        let rest = gathered(start);
        let out = gathered(bs);
        assert forall|i: int, j: int| 0 <= i < j < start.len() implies !precedes(
            #[trigger] start[j],
            #[trigger] start[i],
        ) by {
            assert(start[i] == bs[i] && start[j] == bs[j]);
        }
        lemma_gathered_in_order(start);
        lemma_gathered(start);
        lemma_start(rest, b, 0);
        assert forall|i: int, j: int| 0 <= i < j < out.len() implies !precedes(
            #[trigger] out[j],
            #[trigger] out[i],
        ) by {
            if j < rest.len() {
                assert(same_key(out[i], rest[i]) && same_key(out[j], rest[j]));
                assert(!precedes(rest[j], rest[i]));
            } else {
                assert(out[i] == rest[i] && out[j] == b);
                assert(start.contains(rest[i]));
                let k = choose|k: int| 0 <= k < start.len() && start[k] == rest[i];
                assert(!precedes(bs[bs.len() - 1], bs[k]));
            }
        }
    }
}

/// Sorting keeps the boundaries, and their length.
pub proof fn lemma_sorted_same(bs: Seq<Boundary>)
    ensures
        same_boundaries(stably_sorted(bs), bs),
        stably_sorted(bs).len() == bs.len(),
        in_order(stably_sorted(bs)),
        all_long(bs) ==> all_long(stably_sorted(bs)),
{
    let sorted = stably_sorted(bs);
    law_sort_orders_the_same_boundaries(bs);
    lemma_same_count_same_boundaries(sorted, bs);
    if all_long(bs) {
        assert forall|i: int| 0 <= i < sorted.len() implies overlapping(
            #[trigger] sorted[i],
            sorted[i],
        ) by {
            assert(sorted.contains(sorted[i]));
            let k = choose|k: int| 0 <= k < bs.len() && bs[k] == sorted[i];
            assert(overlapping(bs[k], bs[k]));
        }
    }
}

/// Sorted and gathered, boundaries that are long enough are in strict order.
proof fn lemma_prepared_strict(bs: Seq<Boundary>)
    requires
        all_long(bs),
    ensures
        strictly_in_order(prepared(bs)),
{
    let sorted = stably_sorted(bs);
    let out = prepared(bs);
    lemma_sorted_same(bs);
    lemma_gathered(sorted);
    lemma_gathered_in_order(sorted);
    assert forall|i: int, j: int| 0 <= i < j < out.len() implies precedes(
        #[trigger] out[i],
        #[trigger] out[j],
    ) by {
        assert(!precedes(out[j], out[i]));
        assert(!same_start(out[i], out[j]));
        lemma_gathered_long(sorted, i);
        lemma_gathered_long(sorted, j);
    }
}

/// Gathered boundaries are as long as those that they come from.
proof fn lemma_gathered_long(bs: Seq<Boundary>, k: int)
    requires
        all_long(bs),
        0 <= k < gathered(bs).len(),
    ensures
        overlapping(gathered(bs)[k], gathered(bs)[k]),
{
    lemma_gathered(bs);
    assert(bs.contains(gathered(bs)[k]));
    let i = choose|i: int| 0 <= i < bs.len() && bs[i] == gathered(bs)[k];
    assert(overlapping(bs[i], bs[i]));
}

/// What is gathered out of one list is gathered out of any that holds the same
/// boundaries.
proof fn lemma_gathered_in_both(a: Seq<Boundary>, b: Seq<Boundary>, k: int)
    requires
        all_long(a),
        same_boundaries(a, b),
        0 <= k < gathered(a).len(),
    ensures
        gathered(b).contains(gathered(a)[k]),
{
    let ga = gathered(a);
    let gb = gathered(b);
    let x = ga[k];
    lemma_gathered(a);
    lemma_gathered(b);
    assert(a.contains(x));
    assert(b.contains(x));
    let i = choose|i: int| 0 <= i < b.len() && b[i] == x;
    assert(extended(gb, b[i]));
    let p = choose|p: int|
        0 <= p < gb.len() && same_key(#[trigger] gb[p], x) && x.span_end <= gb[p].span_end;
    let y = gb[p];
    assert(b.contains(y));
    assert(a.contains(y));
    let j = choose|j: int| 0 <= j < a.len() && a[j] == y;
    assert(extended(ga, a[j]));
    let q = choose|q: int|
        0 <= q < ga.len() && same_key(#[trigger] ga[q], y) && y.span_end <= ga[q].span_end;
    lemma_gathered_long(a, k);
    lemma_gathered_long(a, q);
    if q < k {
        assert(!same_start(ga[q], ga[k]));
    } else if k < q {
        assert(!same_start(ga[k], ga[q]));
    }
    assert(y == x);
}

// ---------------------------------------------------------------------------
// Uniting
// ---------------------------------------------------------------------------

/// What holds of a list while its boundaries, out of `bs`, are united: lines ascend,
/// every bar runs on the line of a boundary of `bs` that it spans over, and every
/// boundary of `bs` is represented.
pub open spec fn in_progress(bs: Seq<Boundary>, out: Seq<Boundary>) -> bool {
    &&& lines_ascend(out)
    &&& forall|k: int| 0 <= k < out.len() ==> grounded(bs, #[trigger] out[k])
    &&& forall|i: int| 0 <= i < bs.len() ==> #[trigger] represented(bs, out, bs[i])
}

/// What stands for `c` still does after two bars were united.
proof fn lemma_united_represents(bs: Seq<Boundary>, out: Seq<Boundary>, a: int, b: int, c: Boundary)
    requires
        lines_ascend(out),
        0 <= a < b < out.len(),
        same_splitter(out[a], out[b]),
        grounded(bs, out[b]),
        represented(bs, out, c),
    ensures
        represented(bs, united_at(out, a, b), c),
{
    let after = united_at(out, a, b);
    let k = choose|k: int| 0 <= k < out.len() && stands_for(bs, #[trigger] out[k], c);
    let bar = after[a];
    assert(line_at_most(out[a], out[b]));
    if k == a {
        assert(stands_for(bs, bar, c));
    } else if k == b {
        let g = choose|g: int|
            0 <= g < bs.len() && spans_over(out[b], #[trigger] bs[g]) && bs[g].coord
                == out[b].coord;
        assert forall|x: int| bar.coord <= x < c.coord implies #[trigger] line_follows(bs, c, x) by {
            if x < out[b].coord {
                assert(bs[g].orientation == c.orientation);
            } else {
                assert(reached(bs, out[b].coord as int, c));
            }
        }
        assert(stands_for(bs, bar, c));
    } else if k < b {
        assert(after[k] == out[k]);
    } else {
        assert(after[k - 1] == out[k]);
    }
}

/// Lines still ascend after two bars were united.
pub proof fn lemma_united_ascends(out: Seq<Boundary>, a: int, b: int)
    requires
        lines_ascend(out),
        0 <= a < b < out.len(),
    ensures
        lines_ascend(united_at(out, a, b)),
{
    let after = united_at(out, a, b);
    assert forall|i: int, j: int| 0 <= i < j < after.len() implies line_at_most(
        #[trigger] after[i],
        #[trigger] after[j],
    ) by {
        let p = if i < b {
            i
        } else {
            i + 1
        };
        let q = if j < b {
            j
        } else {
            j + 1
        };
        assert(line_at_most(out[p], out[q]));
        assert(after[i].orientation == out[p].orientation && after[i].coord == out[p].coord);
        assert(after[j].orientation == out[q].orientation && after[j].coord == out[q].coord);
    }
}

/// A bar of the list still runs over a boundary of `bs` after two bars were united.
proof fn lemma_united_grounded(bs: Seq<Boundary>, out: Seq<Boundary>, a: int, b: int, k: int)
    requires
        0 <= a < b < out.len(),
        0 <= k < united_at(out, a, b).len(),
        forall|i: int| 0 <= i < out.len() ==> grounded(bs, #[trigger] out[i]),
    ensures
        grounded(bs, united_at(out, a, b)[k]),
{
    let after = united_at(out, a, b);
    if k == a {
        assert(grounded(bs, out[a]));
        let g = choose|g: int|
            0 <= g < bs.len() && spans_over(out[a], #[trigger] bs[g]) && bs[g].coord
                == out[a].coord;
        assert(spans_over(after[a], bs[g]));
    } else if k < b {
        assert(after[k] == out[k]);
    } else {
        assert(after[k] == out[k + 1]);
    }
}

/// Uniting two bars that are one splitter keeps what holds of the list.
pub proof fn lemma_united_at(bs: Seq<Boundary>, out: Seq<Boundary>, a: int, b: int)
    requires
        in_progress(bs, out),
        0 <= a < b < out.len(),
        same_splitter(out[a], out[b]),
    ensures
        in_progress(bs, united_at(out, a, b)),
        united_at(out, a, b).len() == out.len() - 1,
{
    let after = united_at(out, a, b);
    lemma_united_ascends(out, a, b);
    assert(grounded(bs, out[b]));
    assert forall|k: int| 0 <= k < after.len() implies grounded(bs, #[trigger] after[k]) by {
        lemma_united_grounded(bs, out, a, b, k);
    }
    assert forall|i: int| 0 <= i < bs.len() implies #[trigger] represented(bs, after, bs[i]) by {
        lemma_united_represents(bs, out, a, b, bs[i]);
    }
}

/// What holds of a list while its boundaries are united holds at the end.
proof fn lemma_settled(bs: Seq<Boundary>, out: Seq<Boundary>)
    requires
        in_progress(bs, out),
    ensures
        in_progress(bs, settled(out)),
        settled(out).len() <= out.len(),
    decreases out.len(),
{
    lemma_twins(out, 0);
    if let Some((i, j)) = twins_from(out, 0) {
        lemma_united_at(bs, out, i, j);
        lemma_settled(bs, united_at(out, i, j));
    }
}

/// What holds of the candidates, put in order and gathered.
pub proof fn lemma_prepared(bs: Seq<Boundary>)
    ensures
        in_progress(bs, prepared(bs)),
        prepared(bs).len() <= bs.len(),
{
    let sorted = stably_sorted(bs);
    let out = prepared(bs);
    lemma_sorted_same(bs);
    lemma_gathered(sorted);
    lemma_gathered_in_order(sorted);
    assert forall|i: int, j: int| 0 <= i < j < out.len() implies line_at_most(
        #[trigger] out[i],
        #[trigger] out[j],
    ) by {
        assert(!precedes(out[j], out[i]));
    }
    assert forall|k: int| 0 <= k < out.len() implies grounded(bs, #[trigger] out[k]) by {
        assert(sorted.contains(out[k]));
        assert(bs.contains(out[k]));
        let g = choose|g: int| 0 <= g < bs.len() && bs[g] == out[k];
        assert(spans_over(out[k], bs[g]));
    }
    assert forall|i: int| 0 <= i < bs.len() implies #[trigger] represented(bs, out, bs[i]) by {
        lemma_prepared_extends(bs, i);
        let k = choose|k: int|
            0 <= k < out.len() && same_key(#[trigger] out[k], bs[i]) && bs[i].span_end
                <= out[k].span_end;
        assert(stands_for(bs, out[k], bs[i]));
    }
}

/// Every candidate is still there, on its line and at least as long.
proof fn lemma_prepared_extends(bs: Seq<Boundary>, i: int)
    requires
        0 <= i < bs.len(),
    ensures
        extended(prepared(bs), bs[i]),
{
    let sorted = stably_sorted(bs);
    lemma_sorted_same(bs);
    lemma_gathered(sorted);
    assert(bs.contains(bs[i]));
    assert(sorted.contains(bs[i]));
    let k = choose|k: int| 0 <= k < sorted.len() && sorted[k] == bs[i];
    assert(extended(prepared(bs), sorted[k]));
}

/// What holds of the deduplicated candidates.
proof fn lemma_deduplicated(bs: Seq<Boundary>)
    ensures
        in_progress(bs, deduplicated(bs)),
        deduplicated(bs).len() <= bs.len(),
{
    lemma_prepared(bs);
    lemma_settled(bs, prepared(bs));
}

/// Deduplication leaves no two boundaries that are one splitter.
pub proof fn law_no_two_bars_are_one_splitter(bs: Seq<Boundary>)
    ensures
        all_distinct(deduplicated(bs)),
{
    lemma_settled_distinct(prepared(bs));
}

/// Boundaries no two of which are one splitter are all kept as they are, two on one
/// line among them.
pub proof fn law_distinct_bars_are_kept(bs: Seq<Boundary>)
    requires
        all_distinct(bs),
    ensures
        deduplicated(bs) == stably_sorted(bs),
        deduplicated(bs).to_multiset() == bs.to_multiset(),
{
    broadcast use vstd::seq_lib::group_to_multiset_ensures;

    let out = stably_sorted(bs);
    law_sort_orders_the_same_boundaries(bs);
    lemma_same_count_same_boundaries(out, bs);
    assert forall|i: int, j: int| 0 <= i < j < out.len() implies !same_splitter(
        #[trigger] out[i],
        #[trigger] out[j],
    ) by {
        assert(out.contains(out[i]) && out.contains(out[j]));
        let a = choose|a: int| 0 <= a < bs.len() && bs[a] == out[i];
        let b = choose|b: int| 0 <= b < bs.len() && bs[b] == out[j];
        if a < b {
            assert(!same_splitter(bs[a], bs[b]));
        } else if b < a {
            assert(!same_splitter(bs[b], bs[a]));
        } else {
            // What stands at two places in order stands at two places in the list.
            lemma_second_copy(out, i, j);
            lemma_counted_twice(bs, out[i]);
            let (x, y) = choose|x: int, y: int|
                0 <= x < y < bs.len() && #[trigger] bs[x] == out[i] && #[trigger] bs[y] == out[i];
            assert(!same_splitter(bs[x], bs[y]));
        }
    }
    lemma_distinct_are_gathered(out);
    lemma_twins(out, 0);
}

/// A boundary at two places is counted twice.
proof fn lemma_second_copy(bs: Seq<Boundary>, i: int, j: int)
    requires
        0 <= i < j < bs.len(),
        bs[i] == bs[j],
    ensures
        bs.to_multiset().count(bs[i]) >= 2,
    decreases bs.len(),
{
    broadcast use vstd::seq_lib::group_to_multiset_ensures;

    let start = bs.drop_last();
    assert(start.push(bs.last()) =~= bs);
    assert(start[i] == bs[i]);
    if j == bs.len() - 1 {
        assert(start.contains(bs[i]));
        assert(start.to_multiset().count(bs[i]) > 0);
    } else {
        assert(start[j] == bs[j]);
        lemma_second_copy(start, i, j);
    }
}

/// A boundary that is counted twice stands at two places.
proof fn lemma_counted_twice(bs: Seq<Boundary>, b: Boundary)
    requires
        bs.to_multiset().count(b) >= 2,
    ensures
        exists|i: int, j: int| 0 <= i < j < bs.len() && #[trigger] bs[i] == b && #[trigger] bs[j] == b,
    decreases bs.len(),
{
    broadcast use vstd::seq_lib::group_to_multiset_ensures;

    assert(bs.len() > 0) by {
        if bs.len() == 0 {
            assert(bs =~= Seq::<Boundary>::empty());
            assert(bs.to_multiset().count(b) == 0);
        }
    }
    let start = bs.drop_last();
    assert(start.push(bs.last()) =~= bs);
    if bs.last() == b {
        assert(start.to_multiset().count(b) >= 1);
        assert(start.contains(b));
        let i = choose|i: int| 0 <= i < start.len() && start[i] == b;
        assert(bs[i] == b && bs[bs.len() - 1] == b);
    } else {
        lemma_counted_twice(start, b);
        let (i, j) = choose|i: int, j: int|
            0 <= i < j < start.len() && #[trigger] start[i] == b && #[trigger] start[j] == b;
        assert(bs[i] == b && bs[j] == b);
    }
}

/// Deduplication gives vertical bars before horizontal ones, and each kind by
/// coordinate.
pub proof fn law_dedup_is_ordered(bs: Seq<Boundary>)
    ensures
        lines_ascend(deduplicated(bs)),
{
    lemma_deduplicated(bs);
}

/// Deduplication loses no candidate: for each, some boundary that is kept spans over
/// it, on a line from which the candidate's is reached over lines of candidates at
/// most [`DEDUP_COORD`] apart. Each boundary that is kept runs on the line of a
/// candidate that it spans over. There are never more boundaries than candidates.
pub proof fn law_dedup_covers_the_candidates(bs: Seq<Boundary>)
    ensures
        forall|i: int| 0 <= i < bs.len() ==> #[trigger] represented(bs, deduplicated(bs), bs[i]),
        forall|k: int|
            0 <= k < deduplicated(bs).len() ==> grounded(bs, #[trigger] deduplicated(bs)[k]),
        deduplicated(bs).len() <= bs.len(),
{
    lemma_deduplicated(bs);
}

/// Lines that are reached step by step are close where lines fall into groups.
proof fn lemma_reached_is_close(bs: Seq<Boundary>, from: int, to: int)
    requires
        lines_are_grouped(bs),
        0 <= from < bs.len(),
        0 <= to < bs.len(),
        bs[from].orientation == bs[to].orientation,
        reached(bs, bs[from].coord as int, bs[to]),
    ensures
        close(bs[from], bs[to]),
    decreases bs[to].coord - bs[from].coord,
{
    if bs[from].coord < bs[to].coord {
        let c = bs[to];
        let x = bs[from].coord as int;
        assert(line_follows(bs, c, x));
        let k = choose|k: int|
            0 <= k < bs.len() && (#[trigger] bs[k]).orientation == c.orientation && x < bs[k].coord
                <= x + DEDUP_COORD && bs[k].coord <= c.coord;
        assert(reached(bs, bs[k].coord as int, c)) by {
            assert forall|y: int| bs[k].coord <= y < c.coord implies #[trigger] line_follows(
                bs,
                c,
                y,
            ) by {}
        }
        lemma_reached_is_close(bs, k, to);
        assert(close(bs[from], bs[k]) && close(bs[k], bs[to]));
    }
}

/// Is a bar that has taken in another one never taken in itself, while the bars of the
/// list are united? `grown` tells which have taken in another one so far.
pub open spec fn unites_plainly(out: Seq<Boundary>, grown: Seq<bool>) -> bool
    decreases out.len(),
{
    proof {
        lemma_twins(out, 0);
    }
    match twins_from(out, 0) {
        Some((a, b)) => !grown[b] && unites_plainly(
            united_at(out, a, b),
            grown.update(a, true).remove(b),
        ),
        None => true,
    }
}

/// Does no chain of candidates lead far from a line: either lines fall into groups, or
/// a bar that has taken in another one is never taken in itself?
pub open spec fn unchained(bs: Seq<Boundary>) -> bool {
    ||| lines_are_grouped(bs)
    ||| unites_plainly(prepared(bs), Seq::new(prepared(bs).len(), |k: int| false))
}

/// Does some bar cover `c` closely, on its very line if the bar has not grown?
spec fn kept_close(out: Seq<Boundary>, grown: Seq<bool>, c: Boundary) -> bool {
    exists|k: int|
        0 <= k < out.len() && covers(#[trigger] out[k], c) && (grown[k] || out[k].coord == c.coord)
}

/// A candidate that is covered closely still is when a bar that has not grown is taken
/// in.
proof fn lemma_united_keeps_close(
    out: Seq<Boundary>,
    grown: Seq<bool>,
    a: int,
    b: int,
    c: Boundary,
)
    requires
        grown.len() == out.len(),
        0 <= a < b < out.len(),
        same_splitter(out[a], out[b]),
        !grown[b],
        kept_close(out, grown, c),
    ensures
        kept_close(united_at(out, a, b), grown.update(a, true).remove(b), c),
{
    let after = united_at(out, a, b);
    let now = grown.update(a, true).remove(b);
    let k = choose|k: int|
        0 <= k < out.len() && covers(#[trigger] out[k], c) && (grown[k] || out[k].coord == c.coord);
    assert(now[a]);
    if k == a || k == b {
        assert(covers(after[a], c));
    } else if k < b {
        assert(after[k] == out[k] && now[k] == grown[k]);
    } else {
        assert(after[k - 1] == out[k] && now[k - 1] == grown[k]);
    }
}

/// A candidate that is covered closely still is at the end.
proof fn lemma_settled_keeps_close(out: Seq<Boundary>, grown: Seq<bool>, c: Boundary)
    requires
        grown.len() == out.len(),
        unites_plainly(out, grown),
        kept_close(out, grown, c),
    ensures
        covered(settled(out), c),
    decreases out.len(),
{
    lemma_twins(out, 0);
    match twins_from(out, 0) {
        Some((a, b)) => {
            lemma_united_keeps_close(out, grown, a, b, c);
            lemma_settled_keeps_close(
                united_at(out, a, b),
                grown.update(a, true).remove(b),
                c,
            );
        },
        None => {
            let k = choose|k: int|
                0 <= k < out.len() && covers(#[trigger] out[k], c) && (grown[k] || out[k].coord
                    == c.coord);
            assert(covers(out[k], c));
        },
    }
}

/// Unless a chain of candidates leads far from a line, every candidate is covered by a
/// boundary at most [`DEDUP_COORD`] from it.
pub proof fn law_unchained_candidates_are_covered(bs: Seq<Boundary>, i: int)
    requires
        unchained(bs),
        0 <= i < bs.len(),
    ensures
        covered(deduplicated(bs), bs[i]),
{
    let out = deduplicated(bs);
    if lines_are_grouped(bs) {
        lemma_deduplicated(bs);
        assert(represented(bs, out, bs[i]));
        let k = choose|k: int| 0 <= k < out.len() && stands_for(bs, #[trigger] out[k], bs[i]);
        assert(grounded(bs, out[k]));
        let g = choose|g: int|
            0 <= g < bs.len() && spans_over(out[k], #[trigger] bs[g]) && bs[g].coord
                == out[k].coord;
        lemma_reached_is_close(bs, g, i);
        assert(covers(out[k], bs[i]));
    } else {
        let start = prepared(bs);
        let grown = Seq::new(start.len(), |k: int| false);
        lemma_prepared_extends(bs, i);
        let k = choose|k: int|
            0 <= k < start.len() && same_key(#[trigger] start[k], bs[i]) && bs[i].span_end
                <= start[k].span_end;
        assert(covers(start[k], bs[i]));
        assert(kept_close(start, grown, bs[i]));
        lemma_settled_keeps_close(start, grown, bs[i]);
    }
}

/// Deduplication depends only on which candidates there are, not on how often or in
/// which order they were found.
pub proof fn law_dedup_depends_on_the_set(a: Seq<Boundary>, b: Seq<Boundary>)
    requires
        all_long(a),
        same_boundaries(a, b),
    ensures
        deduplicated(a) == deduplicated(b),
{
    assert forall|i: int| 0 <= i < b.len() implies overlapping(#[trigger] b[i], b[i]) by {
        assert(b.contains(b[i]));
        assert(a.contains(b[i]));
        let k = choose|k: int| 0 <= k < a.len() && a[k] == b[i];
        assert(overlapping(a[k], a[k]));
    }
    let sa = stably_sorted(a);
    let sb = stably_sorted(b);
    lemma_sorted_same(a);
    lemma_sorted_same(b);
    assert forall|x: Boundary| #[trigger] sa.contains(x) <==> sb.contains(x) by {
        assert(a.contains(x) <==> b.contains(x));
        assert(sb.contains(x) <==> b.contains(x));
    }
    assert forall|x: Boundary| #[trigger] sb.contains(x) <==> sa.contains(x) by {
        assert(sa.contains(x) <==> sb.contains(x));
    }
    assert forall|x: Boundary| #[trigger] prepared(a).contains(x) <==> prepared(b).contains(x) by {
        if prepared(a).contains(x) {
            let k = choose|k: int| 0 <= k < prepared(a).len() && prepared(a)[k] == x;
            lemma_gathered_in_both(sa, sb, k);
        }
        if prepared(b).contains(x) {
            let k = choose|k: int| 0 <= k < prepared(b).len() && prepared(b)[k] == x;
            lemma_gathered_in_both(sb, sa, k);
        }
    }
    lemma_prepared_strict(a);
    lemma_prepared_strict(b);
    lemma_one_strict_order(prepared(a), prepared(b));
}

/// Finding a boundary once more changes nothing.
pub proof fn law_duplicates_collapse(bs: Seq<Boundary>, k: int)
    requires
        all_long(bs),
        0 <= k < bs.len(),
    ensures
        deduplicated(bs.push(bs[k])) == deduplicated(bs),
{
    lemma_push_contains(bs, bs[k]);
    assert(bs.contains(bs[k]));
    law_dedup_depends_on_the_set(bs, bs.push(bs[k]));
}

/// However often one boundary was found, deduplication gives it once.
pub proof fn law_copies_become_one(bs: Seq<Boundary>, b: Boundary)
    requires
        bs.len() > 0,
        forall|i: int| 0 <= i < bs.len() ==> bs[i] == b,
        overlapping(b, b),
    ensures
        deduplicated(bs) == seq![b],
{
    let one = seq![b];
    assert forall|x: Boundary| #[trigger] bs.contains(x) <==> one.contains(x) by {
        assert(bs[0] == b && one[0] == b);
    }
    law_dedup_depends_on_the_set(bs, one);
    law_distinct_bars_are_kept(one);
    assert(one.drop_last() =~= Seq::<Boundary>::empty());
    assert(stably_sorted(one.drop_last()) =~= Seq::<Boundary>::empty());
    assert(stably_sorted(one) =~= one);
}

// ---------------------------------------------------------------------------
// Panes
// ---------------------------------------------------------------------------

/// Each adjacency surfaces once: of two panes, only one can be the left (or the
/// upper) one of a shared edge, and no pane is its own neighbor.
pub proof fn law_adjacency_has_one_direction(a: Rect, b: Rect)
    requires
        is_pane(a),
        is_pane(b),
    ensures
        !(meets_right(a, b) && meets_right(b, a)),
        !(meets_below(a, b) && meets_below(b, a)),
        pair_candidates(a, a) == Seq::<Boundary>::empty(),
{
    assert(pair_candidates(a, a) =~= Seq::<Boundary>::empty());
}

/// A pair's boundaries are among those of its row.
proof fn lemma_row_contains(panes: Seq<Rect>, i: int, j: int, count: int, b: Boundary)
    requires
        0 <= j < count,
        i != j,
        pair_candidates(panes[i], panes[j]).contains(b),
    ensures
        row_candidates(panes, i, count).contains(b),
    decreases count,
{
    let rest = row_candidates(panes, i, count - 1);
    if count - 1 == i {
        lemma_row_contains(panes, i, j, count - 1, b);
    } else {
        let pair = pair_candidates(panes[i], panes[count - 1]);
        if j == count - 1 {
            let k = choose|k: int| 0 <= k < pair.len() && pair[k] == b;
            assert((rest + pair)[rest.len() + k] == b);
        } else {
            lemma_row_contains(panes, i, j, count - 1, b);
            let k = choose|k: int| 0 <= k < rest.len() && rest[k] == b;
            assert((rest + pair)[k] == b);
        }
    }
}

/// A pair's boundaries are among the candidates.
proof fn lemma_candidates_contain(panes: Seq<Rect>, i: int, j: int, count: int, b: Boundary)
    requires
        0 <= i < count <= panes.len(),
        0 <= j < panes.len(),
        i != j,
        pair_candidates(panes[i], panes[j]).contains(b),
    ensures
        candidates(panes, count).contains(b),
    decreases count,
{
    let rest = candidates(panes, count - 1);
    let row = row_candidates(panes, count - 1, panes.len() as int);
    if i == count - 1 {
        lemma_row_contains(panes, i, j, panes.len() as int, b);
        let k = choose|k: int| 0 <= k < row.len() && row[k] == b;
        assert((rest + row)[rest.len() + k] == b);
    } else {
        lemma_candidates_contain(panes, i, j, count - 1, b);
        let k = choose|k: int| 0 <= k < rest.len() && rest[k] == b;
        assert((rest + row)[k] == b);
    }
}

/// Is `b` the boundary of some two panes of the list?
pub open spec fn from_panes(panes: Seq<Rect>, b: Boundary) -> bool {
    exists|i: int, j: int| #[trigger] between(panes, i, j, b)
}

/// Is `b` the boundary of the panes `i` and `j`?
pub open spec fn between(panes: Seq<Rect>, i: int, j: int, b: Boundary) -> bool {
    &&& 0 <= i < panes.len()
    &&& 0 <= j < panes.len()
    &&& i != j
    &&& ({
        ||| meets_right(panes[i], panes[j]) && b == vertical_between(panes[i], panes[j])
        ||| meets_below(panes[i], panes[j]) && b == horizontal_between(panes[i], panes[j])
    })
}

/// A row holds boundaries of two panes only.
proof fn lemma_row_from_panes(panes: Seq<Rect>, i: int, count: int)
    requires
        0 <= i < panes.len(),
        count <= panes.len(),
    ensures
        forall|k: int|
            0 <= k < row_candidates(panes, i, count).len() ==> from_panes(
                panes,
                #[trigger] row_candidates(panes, i, count)[k],
            ),
    decreases count,
{
    if count > 0 {
        lemma_row_from_panes(panes, i, count - 1);
        if count - 1 != i {
            let rest = row_candidates(panes, i, count - 1);
            let pair = pair_candidates(panes[i], panes[count - 1]);
            assert forall|k: int| 0 <= k < (rest + pair).len() implies from_panes(
                panes,
                #[trigger] (rest + pair)[k],
            ) by {
                if k < rest.len() {
                    assert((rest + pair)[k] == rest[k]);
                } else {
                    assert((rest + pair)[k] == pair[k - rest.len()]);
                    assert(between(panes, i, count - 1, pair[k - rest.len()]));
                }
            }
            assert(row_candidates(panes, i, count) == rest + pair);
        } else {
            assert(row_candidates(panes, i, count) == row_candidates(panes, i, count - 1));
        }
    }
}

/// The candidates are boundaries of two panes.
pub proof fn lemma_candidates_from_panes(panes: Seq<Rect>, count: int)
    requires
        count <= panes.len(),
    ensures
        forall|k: int|
            0 <= k < candidates(panes, count).len() ==> from_panes(
                panes,
                #[trigger] candidates(panes, count)[k],
            ),
    decreases count,
{
    if count > 0 {
        lemma_candidates_from_panes(panes, count - 1);
        lemma_row_from_panes(panes, count - 1, panes.len() as int);
        let rest = candidates(panes, count - 1);
        let row = row_candidates(panes, count - 1, panes.len() as int);
        assert forall|k: int| 0 <= k < (rest + row).len() implies from_panes(
            panes,
            #[trigger] (rest + row)[k],
        ) by {
            if k < rest.len() {
                assert((rest + row)[k] == rest[k]);
            } else {
                assert((rest + row)[k] == row[k - rest.len()]);
            }
        }
    }
}

/// The large panes are those of the list that are large enough.
pub proof fn lemma_large_panes(panes: Seq<Rect>)
    ensures
        forall|i: int|
            0 <= i < large_panes(panes).len() ==> is_pane(#[trigger] large_panes(panes)[i])
                && panes.contains(large_panes(panes)[i]),
        forall|i: int|
            0 <= i < panes.len() && is_pane(#[trigger] panes[i]) ==> large_panes(panes).contains(
                panes[i],
            ),
    decreases panes.len(),
{
    reveal(Seq::filter);
    if panes.len() > 0 {
        let head = panes.drop_last();
        let last = panes.last();
        lemma_large_panes(head);
        let kept = large_panes(head);
        assert forall|i: int| 0 <= i < large_panes(panes).len() implies is_pane(
            #[trigger] large_panes(panes)[i],
        ) && panes.contains(large_panes(panes)[i]) by {
            if i < kept.len() {
                assert(kept[i] == large_panes(panes)[i]);
                let k = choose|k: int| 0 <= k < head.len() && head[k] == kept[i];
                assert(panes[k] == kept[i]);
            } else {
                assert(panes[panes.len() - 1] == large_panes(panes)[i]);
            }
        }
        assert forall|i: int| 0 <= i < panes.len() && is_pane(#[trigger] panes[i]) implies large_panes(
            panes,
        ).contains(panes[i]) by {
            if i < head.len() {
                assert(head[i] == panes[i]);
                let k = choose|k: int| 0 <= k < kept.len() && kept[k] == panes[i];
                assert(large_panes(panes)[k] == panes[i]);
            } else {
                assert(large_panes(panes)[kept.len() as int] == panes[i]);
            }
        }
    }
}

/// The boundaries of all large enough panes.
pub open spec fn found_in(panes: Seq<Rect>) -> Seq<Boundary> {
    let large = large_panes(panes);
    candidates(large, large.len() as int)
}

/// Every candidate is long enough to be a splitter.
proof fn lemma_found_long(panes: Seq<Rect>)
    ensures
        all_long(found_in(panes)),
{
    let large = large_panes(panes);
    let found = found_in(panes);
    lemma_candidates_from_panes(large, large.len() as int);
    assert forall|k: int| 0 <= k < found.len() implies overlapping(#[trigger] found[k], found[k]) by {
        assert(from_panes(large, found[k]));
    }
}

/// Wherever two large enough panes meet, the result holds a boundary that spans over
/// their shared edge, on a line from which the edge is reached over shared edges at
/// most [`DEDUP_COORD`] apart; unless a chain of edges leads far, the boundary itself
/// is at most that far from the edge.
pub proof fn law_every_shared_edge_is_found(panes: Seq<Rect>, i: int, j: int)
    requires
        0 <= i < panes.len(),
        0 <= j < panes.len(),
        is_pane(panes[i]),
        is_pane(panes[j]),
    ensures
        meets_right(panes[i], panes[j]) ==> represented(
            found_in(panes),
            boundaries_of(panes),
            vertical_between(panes[i], panes[j]),
        ),
        meets_below(panes[i], panes[j]) ==> represented(
            found_in(panes),
            boundaries_of(panes),
            horizontal_between(panes[i], panes[j]),
        ),
        unchained(found_in(panes)) && meets_right(panes[i], panes[j]) ==> covered(
            boundaries_of(panes),
            vertical_between(panes[i], panes[j]),
        ),
        unchained(found_in(panes)) && meets_below(panes[i], panes[j]) ==> covered(
            boundaries_of(panes),
            horizontal_between(panes[i], panes[j]),
        ),
{
    let a = panes[i];
    let b = panes[j];
    let large = large_panes(panes);
    lemma_large_panes(panes);
    let ia = choose|k: int| 0 <= k < large.len() && large[k] == a;
    let ib = choose|k: int| 0 <= k < large.len() && large[k] == b;
    let pair = pair_candidates(a, b);
    if meets_right(a, b) {
        assert(pair[0] == vertical_between(a, b));
        lemma_candidates_contain(large, ia, ib, large.len() as int, vertical_between(a, b));
        lemma_found_is_covered(panes, vertical_between(a, b));
    }
    if meets_below(a, b) {
        assert(pair[pair.len() - 1] == horizontal_between(a, b));
        lemma_candidates_contain(large, ia, ib, large.len() as int, horizontal_between(a, b));
        lemma_found_is_covered(panes, horizontal_between(a, b));
    }
}

/// What was found is represented in the result, closely where nothing is chained.
proof fn lemma_found_is_covered(panes: Seq<Rect>, c: Boundary)
    requires
        found_in(panes).contains(c),
    ensures
        represented(found_in(panes), boundaries_of(panes), c),
        unchained(found_in(panes)) ==> covered(boundaries_of(panes), c),
{
    let found = found_in(panes);
    let k = choose|k: int| 0 <= k < found.len() && found[k] == c;
    law_dedup_covers_the_candidates(found);
    assert(represented(found, deduplicated(found), found[k]));
    if unchained(found) {
        law_unchained_candidates_are_covered(found, k);
    }
}

/// Every boundary of the result runs on the line of the shared edge of two large
/// enough panes, spans over that edge, and is at least [`MIN_OVERLAP`] long.
pub proof fn law_every_boundary_is_a_shared_edge(panes: Seq<Rect>, k: int)
    requires
        0 <= k < boundaries_of(panes).len(),
    ensures
        ({
            let b = boundaries_of(panes)[k];
            exists|c: Boundary|
                #![trigger from_panes(large_panes(panes), c)]
                from_panes(large_panes(panes), c) && c.orientation == b.orientation && c.coord
                    == b.coord && b.span_start <= c.span_start && c.span_end <= b.span_end
        }),
        boundaries_of(panes)[k].span_end - boundaries_of(panes)[k].span_start >= MIN_OVERLAP,
{
    let large = large_panes(panes);
    let found = found_in(panes);
    let b = boundaries_of(panes)[k];
    law_dedup_covers_the_candidates(found);
    lemma_candidates_from_panes(large, large.len() as int);
    lemma_found_long(panes);
    assert(grounded(found, deduplicated(found)[k]));
    let i = choose|i: int|
        0 <= i < found.len() && spans_over(b, #[trigger] found[i]) && found[i].coord == b.coord;
    assert(from_panes(large, found[i]));
    assert(overlapping(found[i], found[i]));
}

/// No two boundaries of the result are one splitter.
pub proof fn law_no_two_boundaries_are_one_splitter(panes: Seq<Rect>)
    ensures
        all_distinct(boundaries_of(panes)),
{
    law_no_two_bars_are_one_splitter(found_in(panes));
}

/// The boundaries come out vertical before horizontal, each kind by coordinate.
pub proof fn law_boundaries_are_ordered(panes: Seq<Rect>)
    ensures
        lines_ascend(boundaries_of(panes)),
{
    law_dedup_is_ordered(found_in(panes));
}

/// Fewer than two large enough panes have no boundary.
pub proof fn law_one_pane_has_no_boundary(panes: Seq<Rect>)
    requires
        large_panes(panes).len() < 2,
    ensures
        boundaries_of(panes).len() == 0,
{
    let large = large_panes(panes);
    if boundaries_of(panes).len() > 0 {
        law_every_boundary_is_a_shared_edge(panes, 0);
        let c = choose|c: Boundary| #[trigger] from_panes(large, c);
        let (i, j) = choose|i: int, j: int| #[trigger] between(large, i, j, c);
        assert(false);
    }
}

/// A boundary of two panes is one of theirs in any list that holds both.
proof fn lemma_found_in_both(a: Seq<Rect>, b: Seq<Rect>, x: Boundary)
    requires
        same_panes(a, b),
        found_in(a).contains(x),
    ensures
        found_in(b).contains(x),
{
    let la = large_panes(a);
    let lb = large_panes(b);
    let fa = found_in(a);
    lemma_large_panes(a);
    lemma_large_panes(b);
    lemma_candidates_from_panes(la, la.len() as int);
    let k = choose|k: int| 0 <= k < fa.len() && fa[k] == x;
    assert(from_panes(la, fa[k]));
    let (i, j) = choose|i: int, j: int| #[trigger] between(la, i, j, x);
    lemma_large_in_both(a, b, i);
    lemma_large_in_both(a, b, j);
    let p = choose|p: int| 0 <= p < lb.len() && lb[p] == la[i];
    let q = choose|q: int| 0 <= q < lb.len() && lb[q] == la[j];
    law_adjacency_has_one_direction(la[i], la[j]);
    let pair = pair_candidates(lb[p], lb[q]);
    if meets_right(la[i], la[j]) && x == vertical_between(la[i], la[j]) {
        assert(pair[0] == x);
    } else {
        assert(pair[pair.len() - 1] == x);
    }
    assert(pair.contains(x));
    lemma_candidates_contain(lb, p, q, lb.len() as int, x);
}

/// A large pane of one list is one of any list that holds the same panes.
proof fn lemma_large_in_both(a: Seq<Rect>, b: Seq<Rect>, i: int)
    requires
        same_panes(a, b),
        0 <= i < large_panes(a).len(),
    ensures
        large_panes(b).contains(large_panes(a)[i]),
{
    let r = large_panes(a)[i];
    lemma_large_panes(a);
    lemma_large_panes(b);
    assert(a.contains(r));
    assert(b.contains(r));
    let k = choose|k: int| 0 <= k < b.len() && b[k] == r;
    assert(is_pane(b[k]));
}

/// The boundaries depend only on which panes there are, not on how often or in which
/// order they were collected.
pub proof fn law_boundaries_depend_on_the_set_of_panes(a: Seq<Rect>, b: Seq<Rect>)
    requires
        same_panes(a, b),
    ensures
        boundaries_of(a) == boundaries_of(b),
{
    assert(same_panes(b, a)) by {
        assert forall|r: Rect| #[trigger] b.contains(r) <==> a.contains(r) by {
            assert(a.contains(r) <==> b.contains(r));
        }
    }
    assert forall|x: Boundary| #[trigger] found_in(a).contains(x) <==> found_in(b).contains(x) by {
        if found_in(a).contains(x) {
            lemma_found_in_both(a, b, x);
        }
        if found_in(b).contains(x) {
            lemma_found_in_both(b, a, x);
        }
    }
    lemma_found_long(a);
    law_dedup_depends_on_the_set(found_in(a), found_in(b));
}

/// A second copy of a pane never changes the boundaries.
pub proof fn law_duplicate_panes_collapse(panes: Seq<Rect>, k: int)
    requires
        0 <= k < panes.len(),
    ensures
        boundaries_of(panes.push(panes[k])) == boundaries_of(panes),
{
    let more = panes.push(panes[k]);
    assert forall|r: Rect| #[trigger] more.contains(r) <==> panes.contains(r) by {
        if panes.contains(r) {
            let i = choose|i: int| 0 <= i < panes.len() && panes[i] == r;
            assert(more[i] == r);
        }
    }
    law_boundaries_depend_on_the_set_of_panes(more, panes);
}

// ---------------------------------------------------------------------------
// Dragging
// ---------------------------------------------------------------------------

/// A drag carries the grip along by exactly the component that moves the bar,
/// and dragging back restores the boundary.
pub proof fn law_drag_moves_the_grip(b: Boundary, dx: int, dy: int)
    requires
        fits(b.coord + drag_component(b.orientation, dx, dy)),
    ensures
        b.orientation is Vertical ==> grip(dragged(b, dx, dy)) == (grip(b).0 + dx, grip(b).1),
        b.orientation is Horizontal ==> grip(dragged(b, dx, dy)) == (grip(b).0, grip(b).1 + dy),
        dragged(dragged(b, dx, dy), -dx, -dy) == b,
{
}

/// The grip lies on the boundary line and within its span.
pub proof fn law_grip_lies_on_the_boundary(b: Boundary)
    requires
        b.span_start <= b.span_end,
    ensures
        b.orientation is Vertical ==> grip(b).0 == b.coord && b.span_start <= grip(b).1
            <= b.span_end,
        b.orientation is Horizontal ==> grip(b).1 == b.coord && b.span_start <= grip(b).0
            <= b.span_end,
{
}

} // verus!
