//! Laws of the tree walk: driven over any finite tree, it inspects the elements
//! depth first.

use vstd::prelude::*;

use crate::treewalk::{depth_after, first_step, step_after, WalkStep};

verus! {

/// A finite tree of elements.
pub struct Tree {
    pub element: int,
    pub children: Seq<Tree>,
}

/// The elements of a tree depth first, parents before children, down to `below`
/// levels under the root.
pub open spec fn preorder(tree: Tree, below: int) -> Seq<int>
    decreases tree,
{
    seq![tree.element] + if below > 0 {
        preorder_all(tree.children, below - 1)
    } else {
        Seq::empty()
    }
}

/// The elements of a list of trees, one tree after the other.
pub open spec fn preorder_all(trees: Seq<Tree>, below: int) -> Seq<int>
    decreases trees,
{
    if trees.len() == 0 {
        Seq::empty()
    } else {
        preorder(trees[0], below) + preorder_all(trees.subrange(1, trees.len() as int), below)
    }
}

/// Look at the elements in turn until enough has been seen.
pub open spec fn visit_all<A>(
    elements: Seq<int>,
    seen: A,
    visit: spec_fn(A, int) -> A,
    full: spec_fn(A) -> bool,
) -> A
    decreases elements.len(),
{
    if elements.len() == 0 || full(seen) {
        seen
    } else {
        visit_all(elements.drop_first(), visit(seen, elements[0]), visit, full)
    }
}

/// Where a walk stands: for each level from the root down, the current element's
/// tree and those of its later siblings.
pub open spec fn standing(path: Seq<Seq<Tree>>) -> bool {
    &&& path.len() > 0
    &&& forall|k: int| 0 <= k < path.len() ==> (#[trigger] path[k]).len() > 0
}

/// Was there a child or sibling to go to?
pub open spec fn step_finds(path: Seq<Seq<Tree>>, step: WalkStep) -> bool {
    match step {
        WalkStep::FirstChild => path.last()[0].children.len() > 0,
        WalkStep::NextSibling => path.last().len() > 1,
        _ => true,
    }
}

/// Where the walk stands after a step.
pub open spec fn path_after(path: Seq<Seq<Tree>>, step: WalkStep) -> Seq<Seq<Tree>> {
    match step {
        WalkStep::FirstChild => if step_finds(path, step) {
            path.push(path.last()[0].children)
        } else {
            path
        },
        WalkStep::NextSibling => if step_finds(path, step) {
            path.drop_last().push(path.last().subrange(1, path.last().len() as int))
        } else {
            path.drop_last()
        },
        _ => path,
    }
}

/// What was seen after a step.
pub open spec fn seen_after<A>(
    path: Seq<Seq<Tree>>,
    step: WalkStep,
    seen: A,
    visit: spec_fn(A, int) -> A,
) -> A {
    if step is Inspect {
        visit(seen, path.last()[0].element)
    } else {
        seen
    }
}

/// Drive the walk for at most `fuel` steps; `None` if that does not end it.
pub open spec fn driven<A>(
    path: Seq<Seq<Tree>>,
    step: WalkStep,
    seen: A,
    max_depth: int,
    visit: spec_fn(A, int) -> A,
    full: spec_fn(A) -> bool,
    fuel: nat,
) -> Option<A>
    decreases fuel,
{
    if step is Done {
        Some(seen)
    } else if fuel == 0 {
        None
    } else {
        let now = seen_after(path, step, seen, visit);
        driven(
            path_after(path, step),
            step_after(path.len() - 1, max_depth, step, step_finds(path, step), full(now)),
            now,
            max_depth,
            visit,
            full,
            (fuel - 1) as nat,
        )
    }
}

/// The elements behind the current one and everything below it.
spec fn later(path: Seq<Seq<Tree>>, max_depth: int) -> Seq<int>
    decreases path.len(),
{
    if path.len() <= 1 {
        Seq::empty()
    } else {
        preorder_all(
            path.last().subrange(1, path.last().len() as int),
            max_depth - (path.len() - 1),
        ) + later(path.drop_last(), max_depth)
    }
}

/// The elements still to be inspected when `step` comes next.
spec fn upcoming(path: Seq<Seq<Tree>>, step: WalkStep, max_depth: int) -> Seq<int> {
    let below = max_depth - (path.len() - 1);
    match step {
        WalkStep::Inspect => preorder(path.last()[0], below) + later(path, max_depth),
        WalkStep::FirstChild => preorder_all(path.last()[0].children, below - 1) + later(
            path,
            max_depth,
        ),
        WalkStep::NextSibling => later(path, max_depth),
        WalkStep::Done => Seq::empty(),
    }
}

/// Steps that a tree takes.
spec fn cost(tree: Tree, below: int) -> nat
    decreases tree,
{
    if below > 0 {
        2 + cost_all(tree.children, below - 1)
    } else {
        1
    }
}

/// Steps that a list of trees takes, with the step to the next sibling after
/// each.
spec fn cost_all(trees: Seq<Tree>, below: int) -> nat
    decreases trees,
{
    if trees.len() == 0 {
        0
    } else {
        cost(trees[0], below) + 1 + cost_all(trees.subrange(1, trees.len() as int), below)
    }
}

/// Steps still to take behind the current element.
spec fn cost_later(path: Seq<Seq<Tree>>, max_depth: int) -> nat
    decreases path.len(),
{
    if path.len() <= 1 {
        0
    } else {
        1 + cost_all(
            path.last().subrange(1, path.last().len() as int),
            max_depth - (path.len() - 1),
        ) + cost_later(path.drop_last(), max_depth)
    }
}

/// Steps still to take when `step` comes next.
spec fn effort(path: Seq<Seq<Tree>>, step: WalkStep, max_depth: int) -> nat {
    let below = max_depth - (path.len() - 1);
    match step {
        WalkStep::Inspect => cost(path.last()[0], below) + cost_later(path, max_depth),
        WalkStep::FirstChild => 1 + cost_all(path.last()[0].children, below - 1) + cost_later(
            path,
            max_depth,
        ),
        WalkStep::NextSibling => cost_later(path, max_depth),
        WalkStep::Done => 0,
    }
}

/// Does the step fit where the walk stands?
spec fn in_step(path: Seq<Seq<Tree>>, step: WalkStep, max_depth: int) -> bool {
    &&& standing(path)
    &&& path.len() - 1 <= max_depth
    &&& step is FirstChild ==> path.len() - 1 < max_depth
    &&& step is NextSibling ==> path.len() > 1
}

/// One step of a walk that has not seen enough: what it inspects, and what is
/// then still to come, is what was to come before.
proof fn lemma_step(path: Seq<Seq<Tree>>, step: WalkStep, max_depth: int)
    requires
        in_step(path, step, max_depth),
        !(step is Done),
    ensures
        ({
            let found = step_finds(path, step);
            let next = step_after(path.len() - 1, max_depth, step, found, false);
            let after = path_after(path, step);
            &&& after.len() - 1 == depth_after(path.len() - 1, step, found)
            &&& in_step(after, next, max_depth)
            &&& upcoming(path, step, max_depth) == (if step is Inspect {
                seq![path.last()[0].element]
            } else {
                Seq::empty()
            }) + upcoming(after, next, max_depth)
            &&& effort(path, step, max_depth) == effort(after, next, max_depth) + 1
        }),
{
    let found = step_finds(path, step);
    let next = step_after(path.len() - 1, max_depth, step, found, false);
    let after = path_after(path, step);
    let below = max_depth - (path.len() - 1);
    let top = path.last();
    assert(path[path.len() - 1].len() > 0);
    match step {
        WalkStep::Inspect => {
            assert(after == path);
            assert(cost(top[0], below) == (if below > 0 {
                2 + cost_all(top[0].children, below - 1)
            } else {
                1
            }));
            assert(path.len() <= 1 ==> cost_later(path, max_depth) == 0);
            assert(effort(path, step, max_depth) == effort(after, next, max_depth) + 1);
            assert(upcoming(path, step, max_depth) =~= seq![top[0].element] + upcoming(
                after,
                next,
                max_depth,
            ));
        },
        WalkStep::FirstChild => {
            let children = top[0].children;
            if found {
                assert(after.last() == children);
                assert(after.drop_last() =~= path);
                assert forall|k: int| 0 <= k < after.len() implies (#[trigger] after[k]).len() > 0 by {
                    if k < path.len() {
                        assert(after[k] == path[k]);
                    }
                }
                assert(upcoming(path, step, max_depth) =~= Seq::<int>::empty() + upcoming(
                    after,
                    next,
                    max_depth,
                ));
            } else {
                assert(preorder_all(children, below - 1) == Seq::<int>::empty());
                assert(cost_all(children, below - 1) == 0);
                assert(path.len() <= 1 ==> later(path, max_depth) == Seq::<int>::empty());
                assert(path.len() <= 1 ==> cost_later(path, max_depth) == 0);
                assert(upcoming(path, step, max_depth) =~= Seq::<int>::empty() + upcoming(
                    after,
                    next,
                    max_depth,
                ));
            }
        },
        WalkStep::NextSibling => {
            let rest = top.subrange(1, top.len() as int);
            if found {
                assert(after.last() == rest);
                assert(after.drop_last() =~= path.drop_last());
                assert(preorder_all(rest, below) == preorder(rest[0], below) + preorder_all(
                    rest.subrange(1, rest.len() as int),
                    below,
                ));
                assert(cost_all(rest, below) == cost(rest[0], below) + 1 + cost_all(
                    rest.subrange(1, rest.len() as int),
                    below,
                ));
                assert(later(path, max_depth) == preorder_all(rest, below) + later(
                    path.drop_last(),
                    max_depth,
                ));
                assert(later(after, max_depth) == preorder_all(
                    rest.subrange(1, rest.len() as int),
                    below,
                ) + later(path.drop_last(), max_depth));
                assert forall|k: int| 0 <= k < after.len() implies (#[trigger] after[k]).len() > 0 by {
                    if k < path.len() - 1 {
                        assert(after[k] == path[k]);
                    }
                }
                assert(upcoming(path, step, max_depth) =~= Seq::<int>::empty() + upcoming(
                    after,
                    next,
                    max_depth,
                ));
            } else {
                assert(rest.len() == 0);
                assert(preorder_all(rest, below) == Seq::<int>::empty());
                assert(cost_all(rest, below) == 0);
                assert(later(path, max_depth) == preorder_all(rest, below) + later(
                    after,
                    max_depth,
                ));
                assert(cost_later(path, max_depth) == 1 + cost_later(after, max_depth));
                assert(after.len() <= 1 ==> later(after, max_depth) == Seq::<int>::empty());
                assert(after.len() <= 1 ==> cost_later(after, max_depth) == 0);
                assert forall|k: int| 0 <= k < after.len() implies (#[trigger] after[k]).len() > 0 by {
                    assert(after[k] == path[k]);
                }
                assert(upcoming(path, step, max_depth) =~= Seq::<int>::empty() + upcoming(
                    after,
                    next,
                    max_depth,
                ));
            }
        },
        WalkStep::Done => {},
    }
}

proof fn lemma_driven<A>(
    path: Seq<Seq<Tree>>,
    step: WalkStep,
    seen: A,
    max_depth: int,
    visit: spec_fn(A, int) -> A,
    full: spec_fn(A) -> bool,
    fuel: nat,
)
    requires
        in_step(path, step, max_depth),
        !(step is Done) ==> !full(seen),
        fuel >= effort(path, step, max_depth),
    ensures
        driven(path, step, seen, max_depth, visit, full, fuel) == Some(
            visit_all(upcoming(path, step, max_depth), seen, visit, full),
        ),
    decreases fuel,
{
    if !(step is Done) {
        lemma_step(path, step, max_depth);
        let now = seen_after(path, step, seen, visit);
        let found = step_finds(path, step);
        let after = path_after(path, step);
        let next = step_after(path.len() - 1, max_depth, step, found, full(now));
        let free = step_after(path.len() - 1, max_depth, step, found, false);
        let before = upcoming(path, step, max_depth);
        let rest = upcoming(after, free, max_depth);
        if step is Inspect {
            assert(before[0] == path.last()[0].element);
            assert(before.drop_first() =~= rest);
            assert(visit_all(before, seen, visit, full) == visit_all(rest, now, visit, full));
        } else {
            assert(before =~= rest);
        }
        if full(now) {
            assert(next is Done);
            assert(driven(after, next, now, max_depth, visit, full, (fuel - 1) as nat) == Some(
                now,
            ));
        } else {
            lemma_driven(after, next, now, max_depth, visit, full, (fuel - 1) as nat);
        }
    }
}

/// Driven over any finite tree, the walk ends, and it has then looked at exactly
/// the elements down to the depth limit, depth first and parents before children,
/// up to the one with which it had seen enough.
pub proof fn law_walk_is_depth_first<A>(
    tree: Tree,
    max_depth: int,
    seen: A,
    visit: spec_fn(A, int) -> A,
    full: spec_fn(A) -> bool,
)
    requires
        max_depth >= 0,
    ensures
        exists|fuel: nat|
            #[trigger] driven(
                seq![seq![tree]],
                first_step(full(seen)),
                seen,
                max_depth,
                visit,
                full,
                fuel,
            ) == Some(visit_all(preorder(tree, max_depth), seen, visit, full)),
{
    let path = seq![seq![tree]];
    let step = first_step(full(seen));
    assert(standing(path));
    let fuel = effort(path, step, max_depth);
    lemma_driven(path, step, seen, max_depth, visit, full, fuel);
    assert(path.last()[0] == tree);
    assert(upcoming(path, WalkStep::Inspect, max_depth) =~= preorder(tree, max_depth));
    assert(driven(path, step, seen, max_depth, visit, full, fuel) == Some(
        visit_all(preorder(tree, max_depth), seen, visit, full),
    ));
}

/// A walk that has ended stays ended, however long it is driven on.
pub proof fn law_walk_result_is_final<A>(
    path: Seq<Seq<Tree>>,
    step: WalkStep,
    seen: A,
    max_depth: int,
    visit: spec_fn(A, int) -> A,
    full: spec_fn(A) -> bool,
    fuel: nat,
    more: nat,
)
    requires
        driven(path, step, seen, max_depth, visit, full, fuel) is Some,
        fuel <= more,
    ensures
        driven(path, step, seen, max_depth, visit, full, more) == driven(
            path,
            step,
            seen,
            max_depth,
            visit,
            full,
            fuel,
        ),
    decreases fuel,
{
    if !(step is Done) {
        let now = seen_after(path, step, seen, visit);
        law_walk_result_is_final(
            path_after(path, step),
            step_after(path.len() - 1, max_depth, step, step_finds(path, step), full(now)),
            now,
            max_depth,
            visit,
            full,
            (fuel - 1) as nat,
            (more - 1) as nat,
        );
    }
}

} // verus!
