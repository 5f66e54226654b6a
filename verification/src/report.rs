//! What the diagnostic modes print: one text per line, the columns aligned.

use vstd::prelude::*;

use crate::geometry::{halfway, midpoint, Rect};
use crate::scanner::{
    drag_arrow, name_of, splitter_like, splitter_orientation, Hint, HintModel,
    MAX_VISITED, PANE_MIN_SIZE, UIA_PANE,
};
use crate::text::{
    chars_of, decimal, left_aligned, push_int, push_left_aligned, push_nat, push_right_aligned,
    push_spaces, right_aligned, spaces, texts,
};

verus! {

/// Deepest indentation of the tree listing.
pub const TREE_INDENT: usize = 24;

/// Deepest indentation of the resizables listing.
pub const RESIZABLES_INDENT: usize = 20;

/// How many characters of a name the tree listing shows.
pub const TREE_NAME: usize = 70;

/// How many characters of a name the resizables listing shows.
pub const RESIZABLES_NAME: usize = 50;

/// What is known of an element of the raw tree; a property that could not be read
/// is `None`.
pub struct Node {
    pub control_type: Option<i32>,
    pub rect: Option<Rect>,
    pub name: Option<String>,
    /// What its Transform pattern offers, where it has one.
    pub transform: Option<Transform>,
}

/// What an element's Transform pattern offers.
#[derive(Clone, Copy, PartialEq, Eq, Debug, Structural)]
pub struct Transform {
    pub can_resize: bool,
    pub can_move: bool,
}

/// What a walk over the raw tree has counted.
#[derive(Clone, Copy, PartialEq, Eq, Debug, Structural)]
pub struct Tally {
    pub visited: usize,
    pub transforms: usize,
    pub splitters: usize,
}

// ---------------------------------------------------------------------------
// Model
// ---------------------------------------------------------------------------

impl Tally {
    /// Visits stay in bounds, and nothing is counted twice in one visit.
    pub open spec fn wf(self) -> bool {
        &&& self.visited <= MAX_VISITED
        &&& self.transforms <= self.visited
        &&& self.splitters <= self.visited
    }
}

/// The control type, 0 where it is not known.
pub open spec fn type_shown(control_type: Option<i32>) -> i32 {
    match control_type {
        Some(ct) => ct,
        None => 0,
    }
}

/// The rectangle, all zeros where it is not known.
pub open spec fn rect_shown(rect: Option<Rect>) -> Rect {
    match rect {
        Some(r) => r,
        None => Rect { left: 0, top: 0, right: 0, bottom: 0 },
    }
}

/// The first characters of the name, none where it is not known.
pub open spec fn name_shown(name: Option<String>, count: int) -> Seq<char> {
    match name_of(name) {
        Some(text) => if text.len() <= count {
            text
        } else {
            text.take(count)
        },
        None => Seq::empty(),
    }
}

/// The depth in a column of three, then the indentation.
pub open spec fn margin(depth: int, deepest: int) -> Seq<char> {
    right_aligned(decimal(depth), 3) + " "@ + spaces(
        if depth <= deepest {
            depth
        } else {
            deepest
        },
    )
}

/// A line of the tree listing.
pub open spec fn tree_text(depth: int, control_type: Option<i32>, name: Option<String>) -> Seq<char> {
    margin(depth, TREE_INDENT as int) + "ct="@ + decimal(type_shown(control_type) as int) + " "@
        + name_shown(name, TREE_NAME as int)
}

/// Width and height, as `640x480`.
pub open spec fn size_text(r: Rect) -> Seq<char> {
    decimal(r.spec_width()) + "x"@ + decimal(r.spec_height())
}

/// The beginning of a line of the resizables listing, up to the control type.
pub open spec fn entry_text(depth: int, tag: Seq<char>, ct: i32) -> Seq<char> {
    margin(depth, RESIZABLES_INDENT as int) + tag + decimal(ct as int)
}

/// 1 for yes, 0 for no.
pub open spec fn flag(yes: bool) -> int {
    if yes {
        1
    } else {
        0
    }
}

impl Node {
    /// Its control type, as printed.
    pub open spec fn ct(self) -> i32 {
        type_shown(self.control_type)
    }

    /// Its rectangle, as printed.
    pub open spec fn area(self) -> Rect {
        rect_shown(self.rect)
    }

    /// The gap and the name that end a line.
    pub open spec fn ending(self) -> Seq<char> {
        "  "@ + name_shown(self.name, RESIZABLES_NAME as int)
    }

    /// Can it be resized or moved through the Transform pattern?
    pub open spec fn transforms(self) -> bool {
        self.transform matches Some(caps) && (caps.can_resize || caps.can_move)
    }

    /// Is it a pane large enough to matter?
    pub open spec fn is_large_pane(self) -> bool {
        self.ct() == UIA_PANE && self.area().spans_at_least(PANE_MIN_SIZE as int)
    }

    /// Does it look like a splitter bar?
    pub open spec fn is_splitter(self) -> bool {
        splitter_like(self.ct(), self.area().spec_width() as i32, self.area().spec_height() as i32)
    }

    /// The line of a transformable element.
    pub open spec fn transform_text(self, depth: int) -> Seq<char> {
        entry_text(depth, "[T] ct="@, self.ct()) + " resize="@ + decimal(
            flag(self.transform->0.can_resize),
        ) + " move="@ + decimal(flag(self.transform->0.can_move)) + " "@ + size_text(self.area())
            + self.ending()
    }

    /// The line of a pane.
    pub open spec fn pane_text(self, depth: int) -> Seq<char> {
        let r = self.area();
        entry_text(depth, "[P] ct="@, self.ct()) + " l="@ + decimal(r.left as int) + " t="@
            + decimal(r.top as int) + " r="@ + decimal(r.right as int) + " b="@ + decimal(
            r.bottom as int,
        ) + " ("@ + size_text(r) + ")"@ + self.ending()
    }

    /// The line of a splitter candidate, with its center.
    pub open spec fn splitter_text(self, depth: int) -> Seq<char> {
        let r = self.area();
        entry_text(depth, "[S] ct="@, self.ct()) + " "@ + drag_arrow(
            r.spec_width() as i32,
            r.spec_height() as i32,
        ) + " "@ + size_text(r) + " @("@ + decimal(halfway(r.left as int, r.right as int)) + ","@
            + decimal(halfway(r.top as int, r.bottom as int)) + ")"@ + self.ending()
    }

    /// The lines of an element: at most one of each sort, in this order.
    pub open spec fn listing(self, depth: int) -> Seq<Seq<char>> {
        (if self.transforms() {
            seq![self.transform_text(depth)]
        } else {
            Seq::empty()
        }) + (if self.is_large_pane() {
            seq![self.pane_text(depth)]
        } else {
            Seq::empty()
        }) + (if self.is_splitter() {
            seq![self.splitter_text(depth)]
        } else {
            Seq::empty()
        })
    }
}

/// The counts after an element was listed.
pub open spec fn counted(tally: Tally, node: Node) -> Tally {
    Tally {
        visited: (tally.visited + 1) as usize,
        transforms: (tally.transforms + flag(node.transforms())) as usize,
        splitters: (tally.splitters + flag(node.is_splitter())) as usize,
    }
}

/// A line of the scan listing, numbered from 1 on.
pub open spec fn scan_text(number: int, h: HintModel) -> Seq<char> {
    right_aligned(decimal(number), 3) + "  ("@ + right_aligned(decimal(h.cx as int), 5) + ","@
        + right_aligned(decimal(h.cy as int), 5) + ")  "@ + left_aligned(h.control, 12) + "  "@
        + h.name
}

// ---------------------------------------------------------------------------
// Counting
// ---------------------------------------------------------------------------

impl Tally {
    /// Nothing counted yet.
    pub fn new() -> (tally: Tally)
        ensures
            tally == (Tally { visited: 0, transforms: 0, splitters: 0 }),
            tally.wf(),
    {
        Tally { visited: 0, transforms: 0, splitters: 0 }
    }

    /// Have as many elements been visited as a walk may visit?
    pub fn is_full(&self) -> (full: bool)
        ensures
            full == (self.visited >= MAX_VISITED),
    {
        self.visited >= MAX_VISITED
    }

    /// Count a visit and nothing else.
    pub fn visit(&mut self)
        requires
            old(self).wf(),
            old(self).visited < MAX_VISITED,
        ensures
            *final(self) == (Tally { visited: (old(self).visited + 1) as usize, ..*old(self) }),
            final(self).wf(),
    {
        self.visited += 1;
    }
}

// ---------------------------------------------------------------------------
// Pieces of lines
// ---------------------------------------------------------------------------

/// Append the first `count` characters of the name.
fn push_name(out: &mut String, name: &Option<String>, count: usize)
    ensures
        final(out)@ == old(out)@ + name_shown(*name, count as int),
{
    let ghost before = out@;
    match name {
        Some(text) => {
            let chars: Vec<char> = chars_of(text.as_str());
            let shown: usize = if chars.len() <= count {
                chars.len()
            } else {
                count
            };
            let mut i: usize = 0;
            while i < shown
                invariant
                    i <= shown <= chars@.len(),
                    out@ =~= before + chars@.take(i as int),
                decreases shown - i,
            {
                out.push(chars[i]);
                i += 1;
            }
            assert(chars@.take(chars@.len() as int) =~= chars@);
        },
        None => {
            assert(out@ =~= before + Seq::<char>::empty());
        },
    }
}

/// Append the depth and the indentation.
fn push_margin(out: &mut String, depth: usize, deepest: usize)
    ensures
        final(out)@ == old(out)@ + margin(depth as int, deepest as int),
{
    let ghost before = out@;
    push_number_column(out, depth as u64);
    out.append(" ");
    push_spaces(
        out,
        if depth <= deepest {
            depth
        } else {
            deepest
        },
    );
    assert(out@ =~= before + margin(depth as int, deepest as int));
}

/// Append a number at the right edge of a column of three.
fn push_number_column(out: &mut String, n: u64)
    ensures
        final(out)@ == old(out)@ + right_aligned(decimal(n as int), 3),
{
    let mut number: String = String::new();
    push_nat(&mut number, n);
    assert(number@ =~= decimal(n as int));
    push_right_aligned(out, number.as_str(), 3);
}

/// Append an integer at the right edge of a column of five.
fn push_coordinate_column(out: &mut String, n: i32)
    ensures
        final(out)@ == old(out)@ + right_aligned(decimal(n as int), 5),
{
    let mut number: String = String::new();
    push_int(&mut number, n as i64);
    assert(number@ =~= decimal(n as int));
    push_right_aligned(out, number.as_str(), 5);
}

/// Append width and height.
fn push_size(out: &mut String, r: &Rect)
    requires
        r.measurable(),
    ensures
        final(out)@ == old(out)@ + size_text(*r),
{
    let ghost before = out@;
    push_int(out, r.width() as i64);
    out.append("x");
    push_int(out, r.height() as i64);
    assert(out@ =~= before + size_text(*r));
}

/// Append a yes or no as a number.
fn push_flag(out: &mut String, yes: bool)
    ensures
        final(out)@ == old(out)@ + decimal(flag(yes)),
{
    push_nat(
        out,
        if yes {
            1
        } else {
            0
        },
    );
}

/// Begin a line of the resizables listing.
fn begin_entry(depth: usize, tag: &str, ct: i32) -> (line: String)
    ensures
        line@ == entry_text(depth as int, tag@, ct),
{
    let mut line: String = String::new();
    push_margin(&mut line, depth, RESIZABLES_INDENT);
    line.append(tag);
    push_int(&mut line, ct as i64);
    assert(line@ =~= entry_text(depth as int, tag@, ct));
    line
}

/// End a line of the resizables listing.
fn end_entry(line: &mut String, node: &Node)
    ensures
        final(line)@ == old(line)@ + node.ending(),
{
    let ghost before = line@;
    line.append("  ");
    push_name(line, &node.name, RESIZABLES_NAME);
    assert(line@ =~= before + node.ending());
}

// ---------------------------------------------------------------------------
// Lines
// ---------------------------------------------------------------------------

/// A line of the tree listing: depth, control type and name, indented.
pub fn tree_line(depth: usize, control_type: Option<i32>, name: &Option<String>) -> (line: String)
    ensures
        line@ == tree_text(depth as int, control_type, *name),
{
    let mut line: String = String::new();
    push_margin(&mut line, depth, TREE_INDENT);
    line.append("ct=");
    push_int(
        &mut line,
        match control_type {
            Some(ct) => ct as i64,
            None => 0,
        },
    );
    line.append(" ");
    push_name(&mut line, name, TREE_NAME);
    assert(line@ =~= tree_text(depth as int, control_type, *name));
    line
}

/// The rectangle of an element, all zeros where it is not known.
fn area_of(node: &Node) -> (area: Rect)
    ensures
        area == node.area(),
{
    match node.rect {
        Some(r) => r,
        None => Rect { left: 0, top: 0, right: 0, bottom: 0 },
    }
}

/// The control type of an element, 0 where it is not known.
fn type_of(node: &Node) -> (ct: i32)
    ensures
        ct == node.ct(),
{
    match node.control_type {
        Some(ct) => ct,
        None => 0,
    }
}

/// The line of a transformable element.
fn transform_line(depth: usize, node: &Node, caps: Transform) -> (line: String)
    requires
        node.transform == Some(caps),
        node.area().measurable(),
    ensures
        line@ == node.transform_text(depth as int),
{
    let r: Rect = area_of(node);
    let mut line: String = begin_entry(depth, "[T] ct=", type_of(node));
    line.append(" resize=");
    push_flag(&mut line, caps.can_resize);
    line.append(" move=");
    push_flag(&mut line, caps.can_move);
    line.append(" ");
    push_size(&mut line, &r);
    end_entry(&mut line, node);
    assert(line@ =~= node.transform_text(depth as int));
    line
}

/// The line of a pane: its full rectangle, for a look at which panes touch.
fn pane_line(depth: usize, node: &Node) -> (line: String)
    requires
        node.area().measurable(),
    ensures
        line@ == node.pane_text(depth as int),
{
    let r: Rect = area_of(node);
    let mut line: String = begin_entry(depth, "[P] ct=", type_of(node));
    line.append(" l=");
    push_int(&mut line, r.left as i64);
    line.append(" t=");
    push_int(&mut line, r.top as i64);
    line.append(" r=");
    push_int(&mut line, r.right as i64);
    line.append(" b=");
    push_int(&mut line, r.bottom as i64);
    line.append(" (");
    push_size(&mut line, &r);
    line.append(")");
    end_entry(&mut line, node);
    assert(line@ =~= node.pane_text(depth as int));
    line
}

/// The line of a splitter candidate.
fn splitter_line(depth: usize, node: &Node, arrow: &str) -> (line: String)
    requires
        node.area().measurable(),
        arrow@ == drag_arrow(node.area().spec_width() as i32, node.area().spec_height() as i32),
    ensures
        line@ == node.splitter_text(depth as int),
{
    let r: Rect = area_of(node);
    let mut line: String = begin_entry(depth, "[S] ct=", type_of(node));
    line.append(" ");
    line.append(arrow);
    line.append(" ");
    push_size(&mut line, &r);
    line.append(" @(");
    push_int(&mut line, midpoint(r.left, r.right) as i64);
    line.append(",");
    push_int(&mut line, midpoint(r.top, r.bottom) as i64);
    line.append(")");
    end_entry(&mut line, node);
    assert(line@ =~= node.splitter_text(depth as int));
    line
}

/// List an element as a resize target and count it: as transformable (`[T]`), as a
/// pane (`[P]`), as a splitter candidate (`[S]`), or as several of these.
pub fn resizable_lines(depth: usize, node: &Node, tally: &mut Tally) -> (lines: Vec<String>)
    requires
        old(tally).wf(),
        old(tally).visited < MAX_VISITED,
        node.area().measurable(),
    ensures
        texts(lines@) == node.listing(depth as int),
        *final(tally) == counted(*old(tally), *node),
        final(tally).wf(),
{
    let ct: i32 = type_of(node);
    let r: Rect = area_of(node);
    let mut lines: Vec<String> = Vec::new();
    tally.visited += 1;
    if let Some(caps) = node.transform {
        if caps.can_resize || caps.can_move {
            tally.transforms += 1;
            lines.push(transform_line(depth, node, caps));
        }
    }
    let ghost first = lines@;
    if ct == UIA_PANE && r.at_least(PANE_MIN_SIZE) {
        lines.push(pane_line(depth, node));
    }
    let ghost second = lines@;
    if let Some(arrow) = splitter_orientation(ct, r.width(), r.height()) {
        tally.splitters += 1;
        lines.push(splitter_line(depth, node, arrow));
    }
    proof {
        assert(texts(first) =~= if node.transforms() {
            seq![node.transform_text(depth as int)]
        } else {
            Seq::empty()
        });
        assert(texts(second) =~= texts(first) + if node.is_large_pane() {
            seq![node.pane_text(depth as int)]
        } else {
            Seq::empty()
        });
        assert(texts(lines@) =~= texts(second) + if node.is_splitter() {
            seq![node.splitter_text(depth as int)]
        } else {
            Seq::empty()
        });
    }
    lines
}

/// A line of the scan listing: number, center, control and name.
pub fn scan_line(index: usize, h: &Hint) -> (line: String)
    requires
        index < usize::MAX,
    ensures
        line@ == scan_text(index + 1, h@),
{
    let mut line: String = String::new();
    push_number_column(&mut line, (index + 1) as u64);
    line.append("  (");
    push_coordinate_column(&mut line, h.cx);
    line.append(",");
    push_coordinate_column(&mut line, h.cy);
    line.append(")  ");
    push_left_aligned(&mut line, h.control, 12);
    line.append("  ");
    line.append(h.name.as_str());
    assert(line@ =~= scan_text(index + 1, h@));
    line
}

// ---------------------------------------------------------------------------
// Headings and sums
// ---------------------------------------------------------------------------

/// The heading of the scan listing.
pub fn scan_heading(count: usize) -> (line: String)
    ensures
        line@ == "Found "@ + decimal(count as int) + " clickable element(s):\n"@,
{
    let mut line: String = String::new();
    line.append("Found ");
    push_nat(&mut line, count as u64);
    line.append(" clickable element(s):\n");
    assert(line@ =~= "Found "@ + decimal(count as int) + " clickable element(s):\n"@);
    line
}

/// The line that ends the tree listing.
pub fn tree_sum(tally: &Tally) -> (line: String)
    ensures
        line@ == "[dump] "@ + decimal(tally.visited as int) + " nodes total"@,
{
    let mut line: String = String::new();
    line.append("[dump] ");
    push_nat(&mut line, tally.visited as u64);
    line.append(" nodes total");
    assert(line@ =~= "[dump] "@ + decimal(tally.visited as int) + " nodes total"@);
    line
}

/// The line that ends the resizables listing.
pub fn resizables_sum(tally: &Tally) -> (line: String)
    ensures
        line@ == "[resizables] "@ + decimal(tally.transforms as int) + " transform-capable + "@
            + decimal(tally.splitters as int) + " splitter candidate(s) across "@ + decimal(
            tally.visited as int,
        ) + " node(s)"@,
{
    let mut line: String = String::new();
    line.append("[resizables] ");
    push_nat(&mut line, tally.transforms as u64);
    line.append(" transform-capable + ");
    push_nat(&mut line, tally.splitters as u64);
    line.append(" splitter candidate(s) across ");
    push_nat(&mut line, tally.visited as u64);
    line.append(" node(s)");
    assert(line@ =~= "[resizables] "@ + decimal(tally.transforms as int) + " transform-capable + "@
        + decimal(tally.splitters as int) + " splitter candidate(s) across "@ + decimal(
        tally.visited as int,
    ) + " node(s)"@);
    line
}

} // verus!
