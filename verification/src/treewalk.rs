//! Walking the element tree of a window.
//!
//! The tree belongs to another process and is only reached one element at a time:
//! the first child of an element, the next sibling of an element. [`Walk`]
//! decides which of these to ask for next, so that elements come up depth first,
//! down to a limit, and until the walker has seen enough. Whoever drives it keeps
//! the path from the root to the current element.

use vstd::prelude::*;

verus! {

/// What to do next.
#[derive(Clone, Copy, PartialEq, Eq, Debug, Structural)]
pub enum WalkStep {
    /// Look at the current element.
    Inspect,
    /// Go to the current element's first child, if it has one.
    FirstChild,
    /// Go to the current element's next sibling, if it has one; else go back to
    /// its parent.
    NextSibling,
    /// The walk is over.
    Done,
}

/// A walk in progress: how deep the current element is, and how deep to go.
#[derive(Clone, Copy, PartialEq, Eq, Debug, Structural)]
pub struct Walk {
    pub depth: usize,
    pub max_depth: usize,
}

/// The depth of the current element after a step: a child is one deeper, and
/// behind the last sibling comes the parent again.
pub open spec fn depth_after(depth: int, step: WalkStep, found: bool) -> int {
    match step {
        WalkStep::FirstChild => if found {
            depth + 1
        } else {
            depth
        },
        WalkStep::NextSibling => if found {
            depth
        } else {
            depth - 1
        },
        _ => depth,
    }
}

/// Done with the current element and everything below it.
pub open spec fn onward(depth: int) -> WalkStep {
    if depth > 0 {
        WalkStep::NextSibling
    } else {
        WalkStep::Done
    }
}

/// The step after `step`, which was taken at `depth`. `found` tells whether there
/// was a child or sibling to go to, `full` whether enough has been seen.
pub open spec fn step_after(
    depth: int,
    max_depth: int,
    step: WalkStep,
    found: bool,
    full: bool,
) -> WalkStep {
    if full || step is Done {
        WalkStep::Done
    } else if step is Inspect {
        if depth < max_depth {
            WalkStep::FirstChild
        } else {
            onward(depth)
        }
    } else if found {
        WalkStep::Inspect
    } else {
        onward(depth_after(depth, step, found))
    }
}

/// The first step: look at the root, unless enough has been seen already.
pub open spec fn first_step(full: bool) -> WalkStep {
    if full {
        WalkStep::Done
    } else {
        WalkStep::Inspect
    }
}

impl Walk {
    /// Begin at the root. Elements deeper than `max_depth` are left out; the root
    /// has depth 0.
    pub fn begin(max_depth: usize, full: bool) -> (begun: (Walk, WalkStep))
        ensures
            begun.0 == (Walk { depth: 0, max_depth: max_depth }),
            begun.1 == first_step(full),
    {
        let step: WalkStep = if full {
            WalkStep::Done
        } else {
            WalkStep::Inspect
        };
        (Walk { depth: 0, max_depth }, step)
    }

    /// The step after `step`. `found` tells whether there was a child or sibling
    /// to go to, `full` whether enough has been seen.
    pub fn advance(&mut self, step: WalkStep, found: bool, full: bool) -> (next: WalkStep)
        requires
            step is FirstChild ==> old(self).depth < old(self).max_depth,
            step is NextSibling ==> old(self).depth > 0,
        ensures
            final(self).depth == depth_after(old(self).depth as int, step, found),
            final(self).max_depth == old(self).max_depth,
            next == step_after(
                old(self).depth as int,
                old(self).max_depth as int,
                step,
                found,
                full,
            ),
            old(self).depth <= old(self).max_depth ==> final(self).depth <= final(self).max_depth,
            next is FirstChild ==> final(self).depth < final(self).max_depth,
            next is NextSibling ==> final(self).depth > 0,
    {
        let below: bool = self.depth < self.max_depth;
        match step {
            WalkStep::FirstChild => {
                if found {
                    self.depth = self.depth + 1;
                }
            },
            WalkStep::NextSibling => {
                if !found {
                    self.depth = self.depth - 1;
                }
            },
            _ => {},
        }
        if full {
            return WalkStep::Done;
        }
        let onward: WalkStep = if self.depth > 0 {
            WalkStep::NextSibling
        } else {
            WalkStep::Done
        };
        match step {
            WalkStep::Inspect => if below {
                WalkStep::FirstChild
            } else {
                onward
            },
            WalkStep::FirstChild | WalkStep::NextSibling => if found {
                WalkStep::Inspect
            } else {
                onward
            },
            WalkStep::Done => WalkStep::Done,
        }
    }
}

} // verus!
