//! Walks over the elements of a window that know what to look for.
//!
//! Elements belong to another process, so whoever drives a walk asks for them one
//! by one: as [`WalkStep`] says, the driver reads the current element and hands
//! over what it read, or goes to a child or sibling and tells whether there was
//! one.

use vstd::prelude::*;

use crate::geometry::Rect;
use crate::report::{counted, resizable_lines, tree_line, tree_text, Node, Tally};
use crate::scanner::{
    consider, considered, models, name_of, pane_of, pane_rect, scan_full, Element, Hint, HintModel,
    MAX_DEPTH, MAX_ELEMENTS, MAX_RAW_DEPTH, MAX_VISITED,
};
use crate::text::texts;
use crate::treewalk::{depth_after, first_step, step_after, Walk, WalkStep};

verus! {

/// A walk with the step that comes next.
#[derive(Clone, Copy, PartialEq, Eq, Debug, Structural)]
pub struct Course {
    pub walk: Walk,
    pub next: WalkStep,
}

/// The search for clickable elements in one window.
#[derive(Clone, Copy, PartialEq, Eq, Debug, Structural)]
pub struct WindowScan {
    pub course: Course,
    /// The window's bounds: what lies outside is skipped.
    pub window: Rect,
}

/// A walk over the raw tree of one window.
#[derive(Clone, Copy, PartialEq, Eq, Debug, Structural)]
pub struct RawScan {
    pub course: Course,
    pub tally: Tally,
}

// ---------------------------------------------------------------------------
// The course of a walk
// ---------------------------------------------------------------------------

impl Course {
    /// The current element lies within the depth limit, and the next step can be
    /// taken: down only above the limit, sideways only below the root.
    pub open spec fn wf(self) -> bool {
        &&& self.walk.depth <= self.walk.max_depth
        &&& self.next is FirstChild ==> self.walk.depth < self.walk.max_depth
        &&& self.next is NextSibling ==> self.walk.depth > 0
    }

    /// The course at the root.
    pub open spec fn begun(self, max_depth: int, full: bool) -> bool {
        &&& self.walk.depth == 0
        &&& self.walk.max_depth == max_depth
        &&& self.next == first_step(full)
    }

    /// The course after its next step was taken. `found` tells whether there was an
    /// element to go to, `full` whether enough has been seen.
    pub open spec fn advanced(self, found: bool, full: bool, after: Course) -> bool {
        &&& after.walk.max_depth == self.walk.max_depth
        &&& after.walk.depth == depth_after(self.walk.depth as int, self.next, found)
        &&& after.next == step_after(
            self.walk.depth as int,
            self.walk.max_depth as int,
            self.next,
            found,
            full,
        )
    }

    /// Begin at the root.
    fn begin(max_depth: usize, full: bool) -> (course: Course)
        ensures
            course.wf(),
            course.begun(max_depth as int, full),
    {
        let (walk, next) = Walk::begin(max_depth, full);
        Course { walk, next }
    }

    /// Take note that the next step was taken.
    fn advance(&mut self, found: bool, full: bool)
        requires
            old(self).wf(),
        ensures
            final(self).wf(),
            old(self).advanced(found, full, *final(self)),
    {
        let mut walk: Walk = self.walk;
        self.next = walk.advance(self.next, found, full);
        self.walk = walk;
    }
}

// ---------------------------------------------------------------------------
// Clickable elements
// ---------------------------------------------------------------------------

/// Are there as many hints as a scan may collect?
pub open spec fn enough_hints(hints: Seq<HintModel>) -> bool {
    hints.len() >= MAX_ELEMENTS
}

impl WindowScan {
    /// The walk is in order and goes as deep as it should.
    pub open spec fn wf(self) -> bool {
        self.course.wf() && self.course.walk.max_depth == MAX_DEPTH
    }

    /// Begin to scan a window; `hints` are those found so far.
    pub fn begin(window: Rect, hints: &Vec<Hint>) -> (scan: WindowScan)
        ensures
            scan.wf(),
            scan.window == window,
            scan.course.begun(MAX_DEPTH as int, enough_hints(models(hints@))),
    {
        WindowScan { course: Course::begin(MAX_DEPTH, scan_full(hints)), window }
    }

    /// Look at the current element: add it to `hints` if it is a visible clickable
    /// one at a spot of its own.
    pub fn look(&mut self, element: Element, hints: &mut Vec<Hint>)
        requires
            old(self).wf(),
            old(self).course.next is Inspect,
        ensures
            models(final(hints)@) == considered(
                element.control_type,
                element.rect,
                element.offscreen,
                name_of(element.name),
                old(self).window,
                models(old(hints)@),
            ),
            final(self).wf(),
            final(self).window == old(self).window,
            old(self).course.advanced(
                true,
                enough_hints(models(final(hints)@)),
                final(self).course,
            ),
    {
        let window: Rect = self.window;
        consider(element, &window, hints);
        let full: bool = scan_full(hints);
        let mut course: Course = self.course;
        course.advance(true, full);
        self.course = course;
    }

    /// The walk went to a child or sibling, or found that there is none.
    pub fn go(&mut self, found: bool, hints: &Vec<Hint>)
        requires
            old(self).wf(),
            old(self).course.next is FirstChild || old(self).course.next is NextSibling,
        ensures
            final(self).wf(),
            final(self).window == old(self).window,
            old(self).course.advanced(found, enough_hints(models(hints@)), final(self).course),
    {
        let full: bool = scan_full(hints);
        let mut course: Course = self.course;
        course.advance(found, full);
        self.course = course;
    }
}

// ---------------------------------------------------------------------------
// The raw tree
// ---------------------------------------------------------------------------

/// The panes after an element was looked at.
pub open spec fn gathered(panes: Seq<Rect>, control_type: Option<i32>, rect: Option<Rect>) -> Seq<
    Rect,
> {
    match pane_of(control_type, rect) {
        Some(pane) => panes.push(pane),
        None => panes,
    }
}

/// The counts after one more element was visited.
pub open spec fn visited_one(tally: Tally) -> Tally {
    Tally { visited: (tally.visited + 1) as usize, ..tally }
}

impl RawScan {
    /// The walk is in order and goes as deep as it should, the counts are in
    /// bounds, and an element is only looked at while there are visits left.
    pub open spec fn wf(self) -> bool {
        &&& self.course.wf()
        &&& self.course.walk.max_depth == MAX_RAW_DEPTH
        &&& self.tally.wf()
        &&& self.course.next is Inspect ==> self.tally.visited < MAX_VISITED
    }

    /// Begin at the root of a window.
    pub fn begin() -> (scan: RawScan)
        ensures
            scan.wf(),
            scan.tally == (Tally { visited: 0, transforms: 0, splitters: 0 }),
            scan.course.begun(MAX_RAW_DEPTH as int, false),
    {
        RawScan { course: Course::begin(MAX_RAW_DEPTH, false), tally: Tally::new() }
    }

    /// The current element has been looked at, with `tally` counted by then.
    fn looked(&mut self, tally: Tally)
        requires
            old(self).wf(),
            old(self).course.next is Inspect,
            tally.wf(),
        ensures
            final(self).wf(),
            final(self).tally == tally,
            old(self).course.advanced(true, tally.visited >= MAX_VISITED, final(self).course),
    {
        let full: bool = tally.is_full();
        let mut course: Course = self.course;
        course.advance(true, full);
        self.course = course;
        self.tally = tally;
    }

    /// Look at the current element for a pane: add its rectangle to `panes` if it
    /// is a sizeable one.
    pub fn look_for_pane(
        &mut self,
        control_type: Option<i32>,
        rect: Option<Rect>,
        panes: &mut Vec<Rect>,
    )
        requires
            old(self).wf(),
            old(self).course.next is Inspect,
        ensures
            final(panes)@ == gathered(old(panes)@, control_type, rect),
            final(self).wf(),
            final(self).tally == visited_one(old(self).tally),
            old(self).course.advanced(
                true,
                final(self).tally.visited >= MAX_VISITED,
                final(self).course,
            ),
    {
        let mut tally: Tally = self.tally;
        tally.visit();
        if let Some(pane) = pane_rect(control_type, rect) {
            panes.push(pane);
        }
        self.looked(tally);
    }

    /// Look at the current element for the tree listing: gives its line.
    pub fn look_for_tree(&mut self, control_type: Option<i32>, name: &Option<String>) -> (line: String)
        requires
            old(self).wf(),
            old(self).course.next is Inspect,
        ensures
            line@ == tree_text(old(self).course.walk.depth as int, control_type, *name),
            final(self).wf(),
            final(self).tally == visited_one(old(self).tally),
            old(self).course.advanced(
                true,
                final(self).tally.visited >= MAX_VISITED,
                final(self).course,
            ),
    {
        let line: String = tree_line(self.course.walk.depth, control_type, name);
        let mut tally: Tally = self.tally;
        tally.visit();
        self.looked(tally);
        line
    }

    /// Look at the current element for the resizables listing: gives its lines.
    pub fn look_for_resizable(&mut self, node: &Node) -> (lines: Vec<String>)
        requires
            old(self).wf(),
            old(self).course.next is Inspect,
            node.area().measurable(),
        ensures
            texts(lines@) == node.listing(old(self).course.walk.depth as int),
            final(self).wf(),
            final(self).tally == counted(old(self).tally, *node),
            old(self).course.advanced(
                true,
                final(self).tally.visited >= MAX_VISITED,
                final(self).course,
            ),
    {
        let mut tally: Tally = self.tally;
        let lines: Vec<String> = resizable_lines(self.course.walk.depth, node, &mut tally);
        self.looked(tally);
        lines
    }

    /// The walk went to a child or sibling, or found that there is none.
    pub fn go(&mut self, found: bool)
        requires
            old(self).wf(),
            old(self).course.next is FirstChild || old(self).course.next is NextSibling,
        ensures
            final(self).wf(),
            final(self).tally == old(self).tally,
            old(self).course.advanced(
                found,
                old(self).tally.visited >= MAX_VISITED,
                final(self).course,
            ),
    {
        let full: bool = self.tally.is_full();
        let mut course: Course = self.course;
        course.advance(found, full);
        self.course = course;
    }
}

} // verus!
