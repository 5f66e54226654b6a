//! Laws of deduplication in one sweep over the sorted boundaries.

use vstd::prelude::*;

use crate::laws::splitter::{
    covers, in_order, lemma_gathered, lemma_gathered_in_order, lemma_sorted_same, lemma_start,
    lemma_united_ascends, line_at_most, lines_ascend, spans_over,
};
use crate::splitter::{
    all_distinct, deduplicated, gathered, lemma_settled_distinct, lemma_twin, lemma_twins,
    overlapping, precedes, same_splitter, same_start, settled, stably_sorted, start_from,
    twin_from, twins_from, united, united_at, Boundary,
};

verus! {

/// The list with `b` united into its last boundary where the two are one splitter, and
/// with `b` at its end where they are not.
pub open spec fn taken(out: Seq<Boundary>, b: Boundary) -> Seq<Boundary> {
    if out.len() > 0 && same_splitter(out.last(), b) {
        out.update(out.len() - 1, united(out.last(), b))
    } else {
        out.push(b)
    }
}

/// What one sweep over `rest` makes of the list `out`.
pub open spec fn swept_onto(out: Seq<Boundary>, rest: Seq<Boundary>) -> Seq<Boundary>
    decreases rest.len(),
{
    if rest.len() == 0 {
        out
    } else {
        taken(swept_onto(out, rest.drop_last()), rest.last())
    }
}

/// The boundaries in one sweep: each is united with the one before it where the two are
/// one splitter.
pub open spec fn swept(bs: Seq<Boundary>) -> Seq<Boundary> {
    swept_onto(Seq::empty(), bs)
}

/// A sweep over one more boundary.
proof fn lemma_swept_push(out: Seq<Boundary>, rest: Seq<Boundary>, b: Boundary)
    ensures
        swept_onto(out, rest.push(b)) == taken(swept_onto(out, rest), b),
{
    assert(rest.push(b).drop_last() =~= rest);
}

/// A sweep may be made in two parts.
proof fn lemma_swept_parts(out: Seq<Boundary>, x: Seq<Boundary>, y: Seq<Boundary>)
    ensures
        swept_onto(out, x + y) == swept_onto(swept_onto(out, x), y),
    decreases y.len(),
{
    if y.len() == 0 {
        assert(x + y =~= x);
    } else {
        lemma_swept_parts(out, x, y.drop_last());
        assert((x + y).drop_last() =~= x + y.drop_last());
    }
}

/// Is `b` on the line of `a` and over at least the same span?
spec fn grown_from(b: Boundary, a: Boundary) -> bool {
    spans_over(b, a) && b.coord == a.coord
}

/// A boundary that grows stays one splitter with those that it was one with.
proof fn lemma_grown_same_splitter(a: Boundary, b: Boundary, c: Boundary, d: Boundary)
    requires
        same_splitter(a, b),
        grown_from(c, a),
        grown_from(d, b),
    ensures
        same_splitter(c, d),
{
}

/// A sweep changes none but the last boundary, which grows on its line.
proof fn lemma_swept_keeps(out: Seq<Boundary>, rest: Seq<Boundary>)
    ensures
        out.len() <= swept_onto(out, rest).len(),
        forall|k: int| 0 <= k < out.len() - 1 ==> #[trigger] swept_onto(out, rest)[k] == out[k],
        out.len() > 0 ==> grown_from(swept_onto(out, rest)[out.len() - 1], out.last()),
    decreases rest.len(),
{
    if rest.len() > 0 {
        lemma_swept_keeps(out, rest.drop_last());
    }
}

/// Where the result has no two boundaries that are one splitter, the sweep had none
/// before its last step.
proof fn lemma_distinct_before(out: Seq<Boundary>, b: Boundary)
    requires
        all_distinct(taken(out, b)),
    ensures
        all_distinct(out),
{
    let after = taken(out, b);
    assert forall|i: int, j: int| 0 <= i < j < out.len() implies !same_splitter(
        #[trigger] out[i],
        #[trigger] out[j],
    ) by {
        if same_splitter(out[i], out[j]) {
            assert(grown_from(after[i], out[i]) && grown_from(after[j], out[j]));
            lemma_grown_same_splitter(out[i], out[j], after[i], after[j]);
        }
    }
}

/// Does no boundary of the list lie behind the line of `x`?
spec fn all_before(bs: Seq<Boundary>, x: Boundary) -> bool {
    forall|k: int| 0 <= k < bs.len() ==> line_at_most(#[trigger] bs[k], x)
}

/// A sweep over ascending lines gives ascending lines, none of them behind the last.
proof fn lemma_swept_ascends(bs: Seq<Boundary>, x: Boundary)
    requires
        lines_ascend(bs),
        all_before(bs, x),
    ensures
        lines_ascend(swept(bs)),
        all_before(swept(bs), x),
    decreases bs.len(),
{
    if bs.len() > 0 {
        let start = bs.drop_last();
        let b = bs.last();
        let out = swept(start);
        let after = swept(bs);
        assert forall|i: int, j: int| 0 <= i < j < start.len() implies line_at_most(
            #[trigger] start[i],
            #[trigger] start[j],
        ) by {
            assert(start[i] == bs[i] && start[j] == bs[j]);
        }
        assert forall|k: int| 0 <= k < start.len() implies line_at_most(#[trigger] start[k], b) by {
            assert(line_at_most(bs[k], bs[bs.len() - 1]));
        }
        assert forall|k: int| 0 <= k < start.len() implies line_at_most(#[trigger] start[k], x) by {
            assert(start[k] == bs[k]);
        }
        lemma_swept_ascends(start, b);
        lemma_swept_ascends(start, x);
        assert(after == taken(out, b));
        assert(line_at_most(bs[bs.len() - 1], x));
        assert forall|i: int, j: int| 0 <= i < j < after.len() implies line_at_most(
            #[trigger] after[i],
            #[trigger] after[j],
        ) by {
            if j < out.len() {
                assert(line_at_most(out[i], out[j]));
            } else {
                assert(line_at_most(out[i], b));
            }
        }
        assert forall|k: int| 0 <= k < after.len() implies line_at_most(#[trigger] after[k], x) by {
            if k < out.len() {
                assert(line_at_most(out[k], x));
            }
        }
    }
}

/// Does a bar of the list, from place `count - 1` on, cover `c`, on a line not behind
/// its own?
spec fn taken_up(out: Seq<Boundary>, count: int, c: Boundary) -> bool {
    exists|k: int|
        count - 1 <= k < out.len() && 0 <= k && covers(#[trigger] out[k], c) && line_at_most(
            out[k],
            c,
        )
}

/// A boundary that the sweep has taken up stays so.
proof fn lemma_taken_up_stays(out: Seq<Boundary>, b: Boundary, count: int, c: Boundary)
    requires
        taken_up(out, count, c),
    ensures
        taken_up(taken(out, b), count, c),
{
    let k = choose|k: int|
        count - 1 <= k < out.len() && 0 <= k && covers(#[trigger] out[k], c) && line_at_most(
            out[k],
            c,
        );
    assert(grown_from(taken(out, b)[k], out[k]));
    assert(covers(taken(out, b)[k], c));
}

/// The sweep takes up every boundary.
proof fn lemma_sweep_takes_up(head: Seq<Boundary>, rest: Seq<Boundary>, i: int)
    requires
        lines_ascend(head + rest),
        0 <= i < rest.len(),
    ensures
        taken_up(swept(head + rest), swept(head).len() as int, rest[i]),
    decreases rest.len(),
{
    let start = rest.drop_last();
    let b = rest.last();
    let all = head + rest;
    let before = head + start;
    assert(all.drop_last() =~= before);
    assert forall|p: int, q: int| 0 <= p < q < before.len() implies line_at_most(
        #[trigger] before[p],
        #[trigger] before[q],
    ) by {
        assert(before[p] == all[p] && before[q] == all[q]);
    }
    assert forall|k: int| 0 <= k < before.len() implies line_at_most(#[trigger] before[k], b) by {
        assert(line_at_most(all[k], all[all.len() - 1]));
    }
    let out = swept(before);
    let after = swept(all);
    assert(all.last() == b);
    assert(after == taken(out, b));
    if i < start.len() {
        lemma_sweep_takes_up(head, start, i);
        lemma_taken_up_stays(out, b, swept(head).len() as int, rest[i]);
    } else {
        lemma_swept_ascends(before, b);
        lemma_swept_parts(Seq::empty(), head, start);
        lemma_swept_keeps(swept(head), start);
        let k = after.len() - 1;
        if out.len() > 0 && same_splitter(out.last(), b) {
            assert(line_at_most(out[out.len() - 1], b));
        }
        assert(covers(after[k], b) && line_at_most(after[k], b));
    }
}

/// A sweep leaves boundaries as they are no two of which are one splitter.
proof fn lemma_distinct_are_swept(bs: Seq<Boundary>)
    requires
        all_distinct(bs),
    ensures
        swept(bs) == bs,
    decreases bs.len(),
{
    if bs.len() == 0 {
        assert(bs =~= Seq::<Boundary>::empty());
    } else {
        let start = bs.drop_last();
        assert forall|i: int, j: int| 0 <= i < j < start.len() implies !same_splitter(
            #[trigger] start[i],
            #[trigger] start[j],
        ) by {
            assert(start[i] == bs[i] && start[j] == bs[j]);
        }
        lemma_distinct_are_swept(start);
        if start.len() > 0 {
            assert(!same_splitter(bs[bs.len() - 2], bs[bs.len() - 1]));
        }
        assert(start.push(bs.last()) =~= bs);
    }
}

// ---------------------------------------------------------------------------
// Gathering before the sweep
// ---------------------------------------------------------------------------

/// Two boundaries that are one splitter and start at one point may be swept as one.
proof fn lemma_taken_as_one(out: Seq<Boundary>, a: Boundary, b: Boundary)
    requires
        same_start(a, b),
        all_distinct(taken(taken(out, a), b)),
    ensures
        taken(taken(out, a), b) == taken(out, united(a, b)),
{
    let once = taken(out, a);
    let twice = taken(once, b);
    let one = united(a, b);
    if out.len() > 0 && same_splitter(out.last(), a) {
        assert(once.last() == united(out.last(), a));
        assert(same_splitter(once.last(), b));
        assert(same_splitter(out.last(), one));
        assert(united(united(out.last(), a), b) == united(out.last(), one));
        assert(twice =~= taken(out, one));
    } else {
        assert(once == out.push(a));
        assert(twice =~= out.push(one));
        if out.len() > 0 {
            assert(twice[out.len() - 1] == out.last() && twice[out.len() as int] == one);
            assert(!same_splitter(twice[out.len() - 1], twice[out.len() as int]));
        }
    }
}

/// Where a sweep leaves no two boundaries that are one splitter, nothing stands between
/// those that are one splitter and start at one point.
proof fn lemma_starts_are_neighbors(bs: Seq<Boundary>, t: int)
    requires
        in_order(bs),
        bs.len() > 0,
        swept(gathered(bs.drop_last())) == swept(bs.drop_last()),
        all_distinct(swept(bs)),
        start_from(gathered(bs.drop_last()), bs.last(), 0) == Some(t),
    ensures
        t == gathered(bs.drop_last()).len() - 1,
{
    let start = bs.drop_last();
    let rest = gathered(start);
    let b = bs.last();
    lemma_start(rest, b, 0);
    lemma_gathered(start);
    if t < rest.len() - 1 {
        let z = rest.last();
        lemma_drop_last_in_order(bs);
        lemma_gathered_in_order(start);
        assert(!precedes(rest[rest.len() - 1], rest[t]));
        assert(start.contains(rest[rest.len() - 1]));
        let p = choose|p: int| 0 <= p < start.len() && start[p] == z;
        assert(!precedes(bs[bs.len() - 1], bs[p]));
        assert(!same_start(rest[t], rest[rest.len() - 1]));
        // The boundary between them is too short to be one splitter with any.
        assert(!overlapping(z, z));
        let head = rest.drop_last();
        assert(head.push(z) =~= rest);
        lemma_swept_push(Seq::empty(), head, z);
        let out = swept(rest);
        assert(out == swept(head).push(z));
        assert(swept(bs) == out.push(b));
        assert forall|i: int, j: int| 0 <= i < j < rest.len() implies line_at_most(
            #[trigger] rest[i],
            #[trigger] rest[j],
        ) by {
            assert(!precedes(rest[j], rest[i]));
        }
        assert(Seq::<Boundary>::empty() + rest =~= rest);
        lemma_sweep_takes_up(Seq::empty(), rest, t);
        let k = choose|k: int|
            0 - 1 <= k < out.len() && 0 <= k && covers(#[trigger] out[k], rest[t]) && line_at_most(
                out[k],
                rest[t],
            );
        assert(same_splitter(out[k], b));
        assert(swept(bs)[k] == out[k] && swept(bs)[out.len() as int] == b);
        assert(!same_splitter(swept(bs)[k], swept(bs)[out.len() as int]));
    }
}

/// The beginning of an ordered list is one.
proof fn lemma_drop_last_in_order(bs: Seq<Boundary>)
    requires
        bs.len() > 0,
        in_order(bs),
    ensures
        in_order(bs.drop_last()),
{
    let start = bs.drop_last();
    assert forall|i: int, j: int| 0 <= i < j < start.len() implies !precedes(
        #[trigger] start[j],
        #[trigger] start[i],
    ) by {
        assert(start[i] == bs[i] && start[j] == bs[j]);
    }
}

/// Where a sweep leaves no two boundaries that are one splitter, it gives the same after
/// gathering.
proof fn lemma_gathered_is_swept_alike(bs: Seq<Boundary>)
    requires
        in_order(bs),
        all_distinct(swept(bs)),
    ensures
        swept(gathered(bs)) == swept(bs),
    decreases bs.len(),
{
    if bs.len() > 0 {
        let start = bs.drop_last();
        let b = bs.last();
        let rest = gathered(start);
        lemma_drop_last_in_order(bs);
        lemma_distinct_before(swept(start), b);
        lemma_gathered_is_swept_alike(start);
        lemma_start(rest, b, 0);
        match start_from(rest, b, 0) {
            Some(t) => {
                lemma_starts_are_neighbors(bs, t);
                let head = rest.drop_last();
                let a = rest.last();
                assert(head.push(a) =~= rest);
                assert(gathered(bs) =~= head.push(united(a, b)));
                lemma_swept_push(Seq::empty(), head, a);
                lemma_swept_push(Seq::empty(), head, united(a, b));
                lemma_taken_as_one(swept(head), a, b);
            },
            None => {
                lemma_swept_push(Seq::empty(), rest, b);
            },
        }
    }
}

// ---------------------------------------------------------------------------
// Settling
// ---------------------------------------------------------------------------

/// No boundary between `j` and what is found is one splitter with boundary `i`.
proof fn lemma_twin_is_first(bs: Seq<Boundary>, i: int, j: int, t: int)
    requires
        twin_from(bs, i, j) == Some(t),
    ensures
        forall|k: int| j <= k < t ==> !same_splitter(bs[i], #[trigger] bs[k]),
    decreases bs.len() - j,
{
    if !same_splitter(bs[i], bs[j]) {
        lemma_twin_is_first(bs, i, j + 1, t);
    }
}

/// No boundary before the two that are found is one splitter with any behind it, and
/// none between them with the first.
proof fn lemma_twins_are_first(bs: Seq<Boundary>, i: int, a: int, b: int)
    requires
        0 <= i,
        twins_from(bs, i) == Some((a, b)),
    ensures
        forall|x: int, y: int|
            i <= x < a && x < y < bs.len() ==> !same_splitter(#[trigger] bs[x], #[trigger] bs[y]),
        forall|y: int| a < y < b ==> !same_splitter(bs[a], #[trigger] bs[y]),
    decreases bs.len() - i,
{
    lemma_twin(bs, i, i + 1);
    match twin_from(bs, i, i + 1) {
        Some(j) => {
            lemma_twin_is_first(bs, i, i + 1, j);
        },
        None => {
            lemma_twins_are_first(bs, i + 1, a, b);
            lemma_twins(bs, i + 1);
        },
    }
}

/// Where a sweep leaves no two boundaries that are one splitter, the first two that are
/// stand side by side.
proof fn lemma_twins_are_neighbors(bs: Seq<Boundary>, a: int, b: int)
    requires
        lines_ascend(bs),
        all_distinct(swept(bs)),
        twins_from(bs, 0) == Some((a, b)),
    ensures
        b == a + 1,
{
    lemma_twins(bs, 0);
    lemma_twins_are_first(bs, 0, a, b);
    if b > a + 1 {
        let head = bs.take(a + 2);
        let rest = bs.skip(a + 2);
        assert(head + rest =~= bs);
        assert(all_distinct(head)) by {
            assert forall|i: int, j: int| 0 <= i < j < head.len() implies !same_splitter(
                #[trigger] head[i],
                #[trigger] head[j],
            ) by {
                assert(head[i] == bs[i] && head[j] == bs[j]);
            }
        }
        lemma_distinct_are_swept(head);
        lemma_swept_parts(Seq::empty(), head, rest);
        lemma_swept_keeps(head, rest);
        let out = swept(bs);
        assert(out[a] == head[a]);
        lemma_sweep_takes_up(head, rest, b - a - 2);
        let c = bs[b];
        assert(rest[b - a - 2] == c);
        let k = choose|k: int|
            head.len() - 1 <= k < out.len() && 0 <= k && covers(#[trigger] out[k], c)
                && line_at_most(out[k], c);
        let last = bs.last();
        assert(all_before(bs, last)) by {
            assert forall|i: int| 0 <= i < bs.len() implies line_at_most(
                #[trigger] bs[i],
                last,
            ) by {
                if i < bs.len() - 1 {
                    assert(line_at_most(bs[i], bs[bs.len() - 1]));
                }
            }
        }
        lemma_swept_ascends(bs, last);
        assert(line_at_most(out[a], out[k]));
        assert(same_splitter(out[a], out[k]));
    }
}

/// Where a sweep leaves no two boundaries that are one splitter, it gives the same after
/// the first two that are have been united.
proof fn lemma_united_is_swept_alike(bs: Seq<Boundary>, a: int)
    requires
        all_distinct(swept(bs)),
        twins_from(bs, 0) == Some((a, a + 1)),
    ensures
        swept(united_at(bs, a, a + 1)) == swept(bs),
{
    lemma_twins(bs, 0);
    lemma_twins_are_first(bs, 0, a, a + 1);
    let head = bs.take(a);
    let rest = bs.skip(a + 2);
    let one = united(bs[a], bs[a + 1]);
    let front = head.push(bs[a]);
    assert(front.push(bs[a + 1]) + rest =~= bs);
    assert(head.push(one) + rest =~= united_at(bs, a, a + 1));
    assert(all_distinct(front)) by {
        assert forall|i: int, j: int| 0 <= i < j < front.len() implies !same_splitter(
            #[trigger] front[i],
            #[trigger] front[j],
        ) by {
            assert(front[i] == bs[i] && front[j] == bs[j]);
        }
    }
    assert(all_distinct(head)) by {
        assert forall|i: int, j: int| 0 <= i < j < head.len() implies !same_splitter(
            #[trigger] head[i],
            #[trigger] head[j],
        ) by {
            assert(head[i] == front[i] && head[j] == front[j]);
        }
    }
    lemma_distinct_are_swept(front);
    lemma_distinct_are_swept(head);
    lemma_swept_push(Seq::empty(), front, bs[a + 1]);
    lemma_swept_push(Seq::empty(), head, one);
    lemma_swept_parts(Seq::empty(), front.push(bs[a + 1]), rest);
    lemma_swept_parts(Seq::empty(), head.push(one), rest);
    assert(swept(front.push(bs[a + 1])) =~= head.push(one));
    let out = swept(bs);
    lemma_swept_keeps(head.push(one), rest);
    if a > 0 && same_splitter(head.last(), one) {
        assert(out[a - 1] == head.push(one)[a - 1]);
        assert(grown_from(out[a], one));
        lemma_grown_same_splitter(head.last(), one, out[a - 1], out[a]);
        assert(!same_splitter(out[a - 1], out[a]));
    }
    assert(swept(head.push(one)) =~= head.push(one));
}

/// Where a sweep leaves no two boundaries that are one splitter, settling gives what the
/// sweep does.
proof fn lemma_settled_is_swept(bs: Seq<Boundary>)
    requires
        lines_ascend(bs),
        all_distinct(swept(bs)),
    ensures
        settled(bs) == swept(bs),
    decreases bs.len(),
{
    lemma_twins(bs, 0);
    match twins_from(bs, 0) {
        Some((a, b)) => {
            lemma_twins_are_neighbors(bs, a, b);
            lemma_united_is_swept_alike(bs, a);
            lemma_united_ascends(bs, a, b);
            lemma_settled_is_swept(united_at(bs, a, b));
        },
        None => {
            lemma_distinct_are_swept(bs);
        },
    }
}

/// Deduplication is one sweep over the sorted boundaries, in which each is united with
/// the one before it where the two are one splitter, whenever that sweep leaves no two
/// that are one splitter. Where it would leave such two, they are united as well.
pub proof fn law_one_sweep_is_enough(bs: Seq<Boundary>)
    ensures
        deduplicated(bs) == swept(stably_sorted(bs)) <==> all_distinct(swept(stably_sorted(bs))),
{
    let sorted = stably_sorted(bs);
    let start = gathered(sorted);
    lemma_settled_distinct(start);
    if all_distinct(swept(sorted)) {
        lemma_sorted_same(bs);
        lemma_gathered_is_swept_alike(sorted);
        lemma_gathered_in_order(sorted);
        assert forall|i: int, j: int| 0 <= i < j < start.len() implies line_at_most(
            #[trigger] start[i],
            #[trigger] start[j],
        ) by {
            assert(!precedes(start[j], start[i]));
        }
        lemma_settled_is_swept(start);
    }
}

} // verus!
