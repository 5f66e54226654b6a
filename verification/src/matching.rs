//! Which hints the typed text matches, and in which order they are shown.

use vstd::prelude::*;

use crate::text::{contains, lowered, occurs_at, occurs_in, same_text, starts_with, to_lower};

verus! {

/// How the typed text is matched. Tab cycles Both, Search, Hints; the last mode
/// used stays on across activations.
#[derive(Clone, Copy, PartialEq, Eq, Debug, Structural)]
pub enum Mode {
    /// Both ways at once: hint codes that start with the text (top section) and
    /// names that contain it (below the divider).
    Both,
    /// The text filters by accessible name only.
    Search,
    /// The text is a hint code only.
    Hints,
}

/// One scanned, labeled hint target.
pub struct HintEntry {
    pub label: String,
    /// Click target (element center), physical pixels.
    pub x: i32,
    pub y: i32,
    /// Element top edge: the label's anchor when `above` is set.
    pub top: i32,
    /// Render the label above the element rather than centered on it.
    pub above: bool,
    /// Accessible name, lower-cased once for case-insensitive search.
    pub name: String,
}

/// A hint target as a mathematical value.
#[verifier::ext_equal]
pub struct EntryModel {
    pub label: Seq<char>,
    pub x: i32,
    pub y: i32,
    pub top: i32,
    pub above: bool,
    pub name: Seq<char>,
}

impl View for HintEntry {
    type V = EntryModel;

    open spec fn view(&self) -> EntryModel {
        EntryModel {
            label: self.label@,
            x: self.x,
            y: self.y,
            top: self.top,
            above: self.above,
            name: self.name@,
        }
    }
}

/// A list of hint targets as mathematical values.
pub open spec fn entries(hints: Seq<HintEntry>) -> Seq<EntryModel> {
    Seq::new(hints.len(), |i: int| hints[i]@)
}

/// A list of indices as integers.
pub open spec fn ints(indices: Seq<usize>) -> Seq<int> {
    Seq::new(indices.len(), |i: int| indices[i] as int)
}

// ---------------------------------------------------------------------------
// Modes
// ---------------------------------------------------------------------------

/// The next mode in the Tab cycle.
pub open spec fn mode_after(mode: Mode) -> Mode {
    match mode {
        Mode::Both => Mode::Search,
        Mode::Search => Mode::Hints,
        Mode::Hints => Mode::Both,
    }
}

/// Does the mode read the typed text as a hint code?
pub open spec fn reads_codes(mode: Mode) -> bool {
    mode is Both || mode is Hints
}

/// Does the mode search element names?
pub open spec fn reads_names(mode: Mode) -> bool {
    mode is Both || mode is Search
}

/// The badge text of a mode.
pub open spec fn badge_of(mode: Mode) -> Seq<char> {
    match mode {
        Mode::Both => "BOTH"@,
        Mode::Search => "SEARCH"@,
        Mode::Hints => "HINTS"@,
    }
}

impl Mode {
    /// The next mode in the Tab cycle.
    pub fn next(self) -> (mode: Mode)
        ensures
            mode == mode_after(self),
    {
        match self {
            Mode::Both => Mode::Search,
            Mode::Search => Mode::Hints,
            Mode::Hints => Mode::Both,
        }
    }

    /// Short badge text for the overlay.
    pub fn badge(self) -> (text: &'static str)
        ensures
            text@ == badge_of(self),
    {
        match self {
            Mode::Both => "BOTH",
            Mode::Search => "SEARCH",
            Mode::Hints => "HINTS",
        }
    }

    /// Does this mode interpret the typed text as a hint code?
    pub fn uses_hints(self) -> (yes: bool)
        ensures
            yes == reads_codes(self),
    {
        matches!(self, Mode::Both | Mode::Hints)
    }

    /// Does this mode search element names?
    pub fn uses_search(self) -> (yes: bool)
        ensures
            yes == reads_names(self),
    {
        matches!(self, Mode::Both | Mode::Search)
    }
}

// ---------------------------------------------------------------------------
// Matching
// ---------------------------------------------------------------------------

/// Does the entry's hint code start with the typed text?
pub open spec fn code_matches(entry: EntryModel, typed: Seq<char>) -> bool {
    typed.is_prefix_of(entry.label)
}

/// Does the entry's name contain the typed text, in lower case? The empty text
/// matches every name.
pub open spec fn name_matches_text(entry: EntryModel, typed: Seq<char>) -> bool {
    typed.len() == 0 || name_holds(entry, lowered(typed))
}

/// Does the entry's name contain the text as it is?
pub open spec fn name_holds(entry: EntryModel, text: Seq<char>) -> bool {
    occurs_in(text, entry.name)
}

/// The indices of the entries that satisfy `pred`, ascending.
pub open spec fn indices_where(hints: Seq<EntryModel>, pred: spec_fn(EntryModel) -> bool) -> Seq<int>
    decreases hints.len(),
{
    if hints.len() == 0 {
        Seq::empty()
    } else {
        let rest = indices_where(hints.drop_last(), pred);
        if pred(hints.last()) {
            rest.push(hints.len() - 1)
        } else {
            rest
        }
    }
}

/// Is the entry shown for its hint code?
pub open spec fn shown_by_code(mode: Mode, typed: Seq<char>, entry: EntryModel) -> bool {
    reads_codes(mode) && code_matches(entry, typed)
}

/// Is the entry shown for its name, and not already for its hint code?
pub open spec fn shown_by_name(mode: Mode, typed: Seq<char>, entry: EntryModel) -> bool {
    reads_names(mode) && name_matches_text(entry, typed) && !shown_by_code(mode, typed, entry)
}

/// The top section: the entries shown for their hint code.
pub open spec fn top_section(hints: Seq<EntryModel>, mode: Mode, typed: Seq<char>) -> Seq<int> {
    indices_where(hints, |e: EntryModel| shown_by_code(mode, typed, e))
}

/// The bottom section: the entries shown for their name only.
pub open spec fn bottom_section(hints: Seq<EntryModel>, mode: Mode, typed: Seq<char>) -> Seq<int> {
    indices_where(hints, |e: EntryModel| shown_by_name(mode, typed, e))
}

/// The visible entries in order: the top section, then the bottom section.
pub open spec fn visible(hints: Seq<EntryModel>, mode: Mode, typed: Seq<char>) -> Seq<int> {
    top_section(hints, mode, typed) + bottom_section(hints, mode, typed)
}

/// The visible entry that the cursor stands on: past the end it is the last one.
pub open spec fn entry_at_cursor(shown: Seq<int>, cursor: int) -> Option<int> {
    if shown.len() == 0 {
        None
    } else if cursor < shown.len() {
        Some(shown[cursor])
    } else {
        Some(shown.last())
    }
}

/// The indices of an ascending selection lie within the list.
pub proof fn lemma_indices_in_range(hints: Seq<EntryModel>, pred: spec_fn(EntryModel) -> bool)
    ensures
        forall|k: int|
            0 <= k < indices_where(hints, pred).len() ==> 0 <= #[trigger] indices_where(
                hints,
                pred,
            )[k] < hints.len() && pred(hints[indices_where(hints, pred)[k]]),
    decreases hints.len(),
{
    if hints.len() > 0 {
        lemma_indices_in_range(hints.drop_last(), pred);
        let rest = indices_where(hints.drop_last(), pred);
        assert forall|k: int| 0 <= k < indices_where(hints, pred).len() implies 0
            <= #[trigger] indices_where(hints, pred)[k] < hints.len() && pred(
            hints[indices_where(hints, pred)[k]],
        ) by {
            if k < rest.len() {
                assert(indices_where(hints, pred)[k] == rest[k]);
                assert(hints.drop_last()[rest[k]] == hints[rest[k]]);
            }
        }
    }
}

/// Two selections of one list by predicates that agree on it are the same.
proof fn lemma_indices_agree(
    hints: Seq<EntryModel>,
    p: spec_fn(EntryModel) -> bool,
    q: spec_fn(EntryModel) -> bool,
)
    requires
        forall|i: int| 0 <= i < hints.len() ==> p(#[trigger] hints[i]) == q(hints[i]),
    ensures
        indices_where(hints, p) == indices_where(hints, q),
    decreases hints.len(),
{
    if hints.len() > 0 {
        let head = hints.drop_last();
        assert forall|i: int| 0 <= i < head.len() implies p(#[trigger] head[i]) == q(head[i]) by {
            assert(head[i] == hints[i]);
        }
        lemma_indices_agree(head, p, q);
        assert(p(hints[hints.len() - 1]) == q(hints[hints.len() - 1]));
    }
}

/// Taking in one more entry of the list.
proof fn lemma_indices_step(hints: Seq<EntryModel>, n: int, pred: spec_fn(EntryModel) -> bool)
    requires
        0 <= n < hints.len(),
    ensures
        indices_where(hints.take(n + 1), pred) == (if pred(hints[n]) {
            indices_where(hints.take(n), pred).push(n)
        } else {
            indices_where(hints.take(n), pred)
        }),
{
    assert(hints.take(n + 1).drop_last() =~= hints.take(n));
}

/// Element indices whose accessible name contains `query` as it is.
pub fn names_containing(hints: &[HintEntry], query: &str) -> (indices: Vec<usize>)
    ensures
        ints(indices@) == indices_where(entries(hints@), |e: EntryModel| name_holds(e, query@)),
{
    let ghost all = entries(hints@);
    let ghost pred = |e: EntryModel| name_holds(e, query@);
    let mut indices: Vec<usize> = Vec::new();
    let mut i: usize = 0;
    assert(ints(indices@) =~= indices_where(all.take(0), pred));
    while i < hints.len()
        invariant
            i <= hints@.len(),
            all == entries(hints@),
            pred == (|e: EntryModel| name_holds(e, query@)),
            ints(indices@) == indices_where(all.take(i as int), pred),
        decreases hints@.len() - i,
    {
        proof {
            lemma_indices_step(all, i as int, pred);
        }
        let ghost before = indices@;
        if contains(&hints[i].name, query) {
            indices.push(i);
            assert(ints(indices@) =~= ints(before).push(i as int));
        }
        i += 1;
    }
    assert(all.take(i as int) =~= all);
    indices
}

/// The empty text stands in every name.
proof fn lemma_empty_text_matches(entry: EntryModel)
    ensures
        name_holds(entry, Seq::empty()),
{
    assert(entry.name.subrange(0, 0) =~= Seq::<char>::empty());
    assert(occurs_at(Seq::<char>::empty(), entry.name, 0));
}

/// Element indices whose accessible name contains `typed` (case-insensitive). The
/// empty text matches everything. Names are stored in lower case.
pub fn name_matches(hints: &[HintEntry], typed: &str) -> (indices: Vec<usize>)
    ensures
        ints(indices@) == indices_where(
            entries(hints@),
            |e: EntryModel| name_matches_text(e, typed@),
        ),
{
    let ghost all = entries(hints@);
    let ghost pred = |e: EntryModel| name_matches_text(e, typed@);
    let indices: Vec<usize>;
    if typed.is_empty() {
        indices = names_containing(hints, typed);
        proof {
            assert(typed@ =~= Seq::empty());
            assert forall|i: int| 0 <= i < all.len() implies name_holds(
                #[trigger] all[i],
                typed@,
            ) by {
                lemma_empty_text_matches(all[i]);
            }
            lemma_indices_agree(all, |e: EntryModel| name_holds(e, typed@), pred);
        }
    } else {
        let query: String = to_lower(typed);
        indices = names_containing(hints, &query);
        proof {
            lemma_indices_agree(all, |e: EntryModel| name_holds(e, query@), pred);
        }
    }
    indices
}

/// Element indices whose hint label starts with `typed`. The empty text matches
/// everything; text with a character that no label holds matches nothing.
pub fn hint_matches(hints: &[HintEntry], typed: &str) -> (indices: Vec<usize>)
    ensures
        ints(indices@) == indices_where(entries(hints@), |e: EntryModel| code_matches(e, typed@)),
{
    let ghost all = entries(hints@);
    let ghost pred = |e: EntryModel| code_matches(e, typed@);
    let mut indices: Vec<usize> = Vec::new();
    let mut i: usize = 0;
    assert(ints(indices@) =~= indices_where(all.take(0), pred));
    while i < hints.len()
        invariant
            i <= hints@.len(),
            all == entries(hints@),
            pred == (|e: EntryModel| code_matches(e, typed@)),
            ints(indices@) == indices_where(all.take(i as int), pred),
        decreases hints@.len() - i,
    {
        proof {
            lemma_indices_step(all, i as int, pred);
        }
        let ghost before = indices@;
        if starts_with(&hints[i].label, typed) {
            indices.push(i);
            assert(ints(indices@) =~= ints(before).push(i as int));
        }
        i += 1;
    }
    assert(all.take(i as int) =~= all);
    indices
}

/// The first index whose hint label equals `typed`.
pub open spec fn exact_index(hints: Seq<EntryModel>, typed: Seq<char>) -> Option<int>
    decreases hints.len(),
{
    if hints.len() == 0 {
        None
    } else {
        match exact_index(hints.drop_last(), typed) {
            Some(i) => Some(i),
            None => if hints.last().label == typed {
                Some(hints.len() - 1)
            } else {
                None
            },
        }
    }
}

/// The element whose hint label exactly equals `typed`, if any (labels are
/// prefix-free, so there is at most one; of equal labels the first counts).
pub fn exact_hint(hints: &[HintEntry], typed: &str) -> (found: Option<usize>)
    ensures
        (match found {
            Some(i) => Some(i as int),
            None => None,
        }) == exact_index(entries(hints@), typed@),
{
    let ghost all = entries(hints@);
    let mut i: usize = 0;
    let mut found: Option<usize> = None;
    assert(all.take(0).len() == 0);
    while i < hints.len()
        invariant
            i <= hints@.len(),
            all == entries(hints@),
            (match found {
                Some(k) => Some(k as int),
                None => None,
            }) == exact_index(all.take(i as int), typed@),
        decreases hints@.len() - i,
    {
        assert(all.take(i + 1).drop_last() =~= all.take(i as int));
        if found.is_none() && same_text(&hints[i].label, typed) {
            found = Some(i);
        }
        i += 1;
    }
    assert(all.take(i as int) =~= all);
    found
}

/// The top section: the entries that the mode shows for their hint code.
pub fn top_matches(hints: &[HintEntry], mode: Mode, typed: &str) -> (top: Vec<usize>)
    ensures
        ints(top@) == top_section(entries(hints@), mode, typed@),
{
    let ghost all = entries(hints@);
    let top: Vec<usize> = if mode.uses_hints() {
        hint_matches(hints, typed)
    } else {
        Vec::new()
    };
    proof {
        lemma_empty_selection(all, |e: EntryModel| shown_by_code(mode, typed@, e));
        if reads_codes(mode) {
            lemma_indices_agree(
                all,
                |e: EntryModel| code_matches(e, typed@),
                |e: EntryModel| shown_by_code(mode, typed@, e),
            );
        }
        assert(ints(top@) =~= top_section(all, mode, typed@));
    }
    top
}

/// The ordered visible list: entries that match by hint code first (the top
/// section), then those that match by name and are not shown yet (the bottom
/// section). This one ordering drives the floating labels, the results list and
/// the arrow keys, so they can never disagree.
pub fn order_matches(hints: &[HintEntry], mode: Mode, typed: &str) -> (ordered: Vec<usize>)
    ensures
        ints(ordered@) == visible(entries(hints@), mode, typed@),
{
    let ghost all = entries(hints@);
    let mut ordered: Vec<usize> = top_matches(hints, mode, typed);
    let by_name: Vec<usize> = if mode.uses_search() {
        name_matches(hints, typed)
    } else {
        Vec::new()
    };
    let ghost top = top_section(all, mode, typed@);
    let ghost named = |e: EntryModel| reads_names(mode) && name_matches_text(e, typed@);
    proof {
        lemma_empty_selection(all, named);
        if reads_names(mode) {
            lemma_indices_agree(all, |e: EntryModel| name_matches_text(e, typed@), named);
        }
        assert(ints(by_name@) =~= indices_where(all, named));
    }
    // Which elements the top section shows already.
    let mut in_top: Vec<bool> = Vec::new();
    let mut n: usize = 0;
    while n < hints.len()
        invariant
            n <= hints@.len(),
            in_top@.len() == n,
            all == entries(hints@),
            forall|k: int|
                0 <= k < n ==> #[trigger] in_top@[k] == shown_by_code(mode, typed@, all[k]),
        decreases hints@.len() - n,
    {
        let shown: bool = mode.uses_hints() && starts_with(&hints[n].label, typed);
        in_top.push(shown);
        n += 1;
    }
    let mut k: usize = 0;
    let ghost rest = |e: EntryModel| shown_by_name(mode, typed@, e);
    proof {
        lemma_indices_in_range(all, named);
        assert(ints(by_name@).take(0) =~= Seq::<int>::empty());
        assert(ints(ordered@) =~= top + kept(all, ints(by_name@).take(0), rest));
    }
    while k < by_name.len()
        invariant
            k <= by_name@.len(),
            all == entries(hints@),
            in_top@.len() == all.len(),
            forall|j: int|
                0 <= j < all.len() ==> #[trigger] in_top@[j] == shown_by_code(mode, typed@, all[j]),
            named == (|e: EntryModel| reads_names(mode) && name_matches_text(e, typed@)),
            rest == (|e: EntryModel| shown_by_name(mode, typed@, e)),
            ints(by_name@) == indices_where(all, named),
            forall|j: int|
                0 <= j < indices_where(all, named).len() ==> 0 <= #[trigger] indices_where(
                    all,
                    named,
                )[j] < all.len() && named(all[indices_where(all, named)[j]]),
            ints(ordered@) == top + kept(all, ints(by_name@).take(k as int), rest),
        decreases by_name@.len() - k,
    {
        let i: usize = by_name[k];
        proof {
            let names = ints(by_name@);
            assert(names[k as int] == i);
            assert(indices_where(all, named)[k as int] == i);
            assert(names.take(k + 1).drop_last() =~= names.take(k as int));
        }
        let ghost before = ordered@;
        if !in_top[i] {
            ordered.push(i);
            assert(ints(ordered@) =~= ints(before).push(i as int));
        }
        assert(ints(ordered@) =~= top + kept(all, ints(by_name@).take(k + 1), rest));
        k += 1;
    }
    proof {
        assert(ints(by_name@).take(k as int) =~= ints(by_name@));
        lemma_kept_is_a_selection(all, named, rest);
    }
    ordered
}

/// The indices of the list whose entry satisfies `pred`.
spec fn kept(hints: Seq<EntryModel>, indices: Seq<int>, pred: spec_fn(EntryModel) -> bool) -> Seq<int>
    decreases indices.len(),
{
    if indices.len() == 0 {
        Seq::empty()
    } else {
        let rest = kept(hints, indices.drop_last(), pred);
        if pred(hints[indices.last()]) {
            rest.push(indices.last())
        } else {
            rest
        }
    }
}

/// A predicate that holds of no entry selects nothing.
proof fn lemma_empty_selection(hints: Seq<EntryModel>, pred: spec_fn(EntryModel) -> bool)
    ensures
        (forall|i: int| 0 <= i < hints.len() ==> !pred(#[trigger] hints[i])) ==> indices_where(
            hints,
            pred,
        ) == Seq::<int>::empty(),
    decreases hints.len(),
{
    if hints.len() > 0 && (forall|i: int| 0 <= i < hints.len() ==> !pred(#[trigger] hints[i])) {
        let head = hints.drop_last();
        assert forall|i: int| 0 <= i < head.len() implies !pred(#[trigger] head[i]) by {
            assert(head[i] == hints[i]);
        }
        lemma_empty_selection(head, pred);
        assert(!pred(hints[hints.len() - 1]));
    }
}

/// Narrowing a selection by a stronger predicate gives the selection by that one.
proof fn lemma_kept_is_a_selection(
    hints: Seq<EntryModel>,
    wide: spec_fn(EntryModel) -> bool,
    narrow: spec_fn(EntryModel) -> bool,
)
    requires
        forall|e: EntryModel| #[trigger] narrow(e) ==> wide(e),
    ensures
        kept(hints, indices_where(hints, wide), narrow) == indices_where(hints, narrow),
    decreases hints.len(),
{
    if hints.len() > 0 {
        let head = hints.drop_last();
        let rest = indices_where(head, wide);
        lemma_kept_is_a_selection(head, wide, narrow);
        lemma_indices_in_range(head, wide);
        lemma_kept_prefix(head, hints, rest, narrow);
        if wide(hints.last()) {
            assert(rest.push(hints.len() - 1).drop_last() =~= rest);
        }
    }
}

/// Indices into the beginning of a list pick the same entries in the whole list.
proof fn lemma_kept_prefix(
    head: Seq<EntryModel>,
    hints: Seq<EntryModel>,
    indices: Seq<int>,
    pred: spec_fn(EntryModel) -> bool,
)
    requires
        head.is_prefix_of(hints),
        forall|k: int| 0 <= k < indices.len() ==> 0 <= #[trigger] indices[k] < head.len(),
    ensures
        kept(head, indices, pred) == kept(hints, indices, pred),
    decreases indices.len(),
{
    if indices.len() > 0 {
        lemma_kept_prefix(head, hints, indices.drop_last(), pred);
        assert(indices[indices.len() - 1] < head.len());
        assert(head[indices.last()] == hints[indices.last()]);
    }
}

/// Move `sel` by one within `[0, n)`, wrapping around both ends.
pub fn wrap_index(sel: usize, n: usize, down: bool) -> (next: usize)
    ensures
        n == 0 ==> next == 0,
        n > 0 && down ==> next == (sel + 1) % n as int,
        n > 0 && !down ==> next == (sel + n - 1) % n as int,
{
    if n == 0 {
        return 0;
    }
    let at: usize = sel % n;
    proof {
        lemma_wrap(sel as int, n as int);
    }
    if down {
        if at == n - 1 {
            0
        } else {
            at + 1
        }
    } else if at == 0 {
        n - 1
    } else {
        at - 1
    }
}

/// Stepping from a position and from its remainder leads to the same place.
proof fn lemma_wrap(sel: int, n: int)
    requires
        sel >= 0,
        n > 0,
    ensures
        (sel + 1) % n == (if sel % n == n - 1 {
            0
        } else {
            sel % n + 1
        }),
        (sel + n - 1) % n == (if sel % n == 0 {
            n - 1
        } else {
            sel % n - 1
        }),
{
    let q = sel / n;
    let r = sel % n;
    vstd::arithmetic::div_mod::lemma_fundamental_div_mod(sel, n);
    if r == n - 1 {
        assert(sel + 1 == (q + 1) * n) by (nonlinear_arith)
            requires
                sel == n * q + r,
                r == n - 1,
        ;
        vstd::arithmetic::div_mod::lemma_fundamental_div_mod_converse(sel + 1, n, q + 1, 0);
    } else {
        vstd::arithmetic::div_mod::lemma_fundamental_div_mod_converse(sel + 1, n, q, r + 1);
    }
    if r == 0 {
        vstd::arithmetic::div_mod::lemma_fundamental_div_mod_converse(sel + n - 1, n, q, n - 1);
    } else {
        assert(sel + n - 1 == (q + 1) * n + (r - 1)) by (nonlinear_arith)
            requires
                sel == n * q + r,
        ;
        vstd::arithmetic::div_mod::lemma_fundamental_div_mod_converse(sel + n - 1, n, q + 1, r - 1);
    }
}

} // verus!
