//! Laws of matching.

use vstd::prelude::*;

use crate::laws::text::{
    capitalized, in_parts, law_found_between_two_parts, law_lower_case_forgets_capitals,
    law_text_stands_in_itself, plain,
};
use crate::matching::{
    badge_of, bottom_section, code_matches, entry_at_cursor, exact_index, indices_where,
    lemma_indices_in_range, mode_after, reads_codes, reads_names, shown_by_code, shown_by_name,
    top_section, visible, EntryModel, Mode,
};
use crate::text::lowered;

verus! {

/// Does the index occur in the list?
pub open spec fn listed(indices: Seq<int>, i: int) -> bool {
    exists|k: int| 0 <= k < indices.len() && #[trigger] indices[k] == i
}

/// Do the indices ascend?
pub open spec fn ascending(indices: Seq<int>) -> bool {
    forall|a: int, b: int| 0 <= a < b < indices.len() ==> indices[a] < indices[b]
}

/// Is no hint code a prefix of another one?
pub open spec fn prefix_free(hints: Seq<EntryModel>) -> bool {
    forall|i: int, j: int|
        0 <= i < hints.len() && 0 <= j < hints.len() && i != j ==> !(
        #[trigger] hints[i].label).is_prefix_of(#[trigger] hints[j].label)
}

/// Three tabs come back to the mode that was on.
pub proof fn law_three_tabs_return(mode: Mode)
    ensures
        mode_after(mode_after(mode_after(mode))) == mode,
        mode_after(mode) != mode,
        mode_after(mode_after(mode)) != mode,
{
}

/// A selection ascends.
proof fn lemma_selection_ascends(hints: Seq<EntryModel>, pred: spec_fn(EntryModel) -> bool)
    ensures
        ascending(indices_where(hints, pred)),
    decreases hints.len(),
{
    if hints.len() > 0 {
        lemma_selection_ascends(hints.drop_last(), pred);
        lemma_indices_in_range(hints.drop_last(), pred);
    }
}

/// A selection holds every entry that satisfies the predicate.
proof fn lemma_selection_is_complete(
    hints: Seq<EntryModel>,
    pred: spec_fn(EntryModel) -> bool,
    i: int,
)
    requires
        0 <= i < hints.len(),
        pred(hints[i]),
    ensures
        listed(indices_where(hints, pred), i),
    decreases hints.len(),
{
    let all = indices_where(hints, pred);
    if i == hints.len() - 1 {
        assert(all[all.len() - 1] == i);
    } else {
        lemma_selection_is_complete(hints.drop_last(), pred, i);
        let rest = indices_where(hints.drop_last(), pred);
        let k = choose|k: int| 0 <= k < rest.len() && #[trigger] rest[k] == i;
        assert(all[k] == i);
    }
}

/// Each section of the results lists elements in the order they were found in.
pub proof fn law_sections_ascend(hints: Seq<EntryModel>, mode: Mode, typed: Seq<char>)
    ensures
        ascending(top_section(hints, mode, typed)),
        ascending(bottom_section(hints, mode, typed)),
{
    lemma_selection_ascends(hints, |e: EntryModel| shown_by_code(mode, typed, e));
    lemma_selection_ascends(hints, |e: EntryModel| shown_by_name(mode, typed, e));
}

/// An element is visible exactly if its code or its name matches in the mode.
pub proof fn law_visible_are_the_matches(
    hints: Seq<EntryModel>,
    mode: Mode,
    typed: Seq<char>,
    i: int,
)
    ensures
        listed(visible(hints, mode, typed), i) <==> 0 <= i < hints.len() && (shown_by_code(
            mode,
            typed,
            hints[i],
        ) || shown_by_name(mode, typed, hints[i])),
{
    let by_code = |e: EntryModel| shown_by_code(mode, typed, e);
    let by_name = |e: EntryModel| shown_by_name(mode, typed, e);
    let top = top_section(hints, mode, typed);
    let bottom = bottom_section(hints, mode, typed);
    let all = visible(hints, mode, typed);
    lemma_indices_in_range(hints, by_code);
    lemma_indices_in_range(hints, by_name);
    if listed(all, i) {
        let k = choose|k: int| 0 <= k < all.len() && #[trigger] all[k] == i;
        if k < top.len() {
            assert(top[k] == i);
        } else {
            assert(bottom[k - top.len()] == i);
        }
    }
    if 0 <= i < hints.len() && by_code(hints[i]) {
        lemma_selection_is_complete(hints, by_code, i);
        let k = choose|k: int| 0 <= k < top.len() && #[trigger] top[k] == i;
        assert(all[k] == i);
    }
    if 0 <= i < hints.len() && by_name(hints[i]) {
        lemma_selection_is_complete(hints, by_name, i);
        let k = choose|k: int| 0 <= k < bottom.len() && #[trigger] bottom[k] == i;
        assert(all[top.len() + k] == i);
    }
}

/// No element is listed twice, within a section or across the two.
pub proof fn law_visible_has_no_duplicates(hints: Seq<EntryModel>, mode: Mode, typed: Seq<char>)
    ensures
        visible(hints, mode, typed).no_duplicates(),
{
    law_sections_ascend(hints, mode, typed);
    lemma_indices_in_range(hints, |e: EntryModel| shown_by_code(mode, typed, e));
    lemma_indices_in_range(hints, |e: EntryModel| shown_by_name(mode, typed, e));
    let top = top_section(hints, mode, typed);
    let bottom = bottom_section(hints, mode, typed);
    let all = visible(hints, mode, typed);
    assert forall|a: int, b: int| 0 <= a < b < all.len() implies all[a] != all[b] by {
        if b < top.len() {
            assert(top[a] < top[b]);
        } else if a >= top.len() {
            assert(bottom[a - top.len()] < bottom[b - top.len()]);
        } else {
            assert(shown_by_code(mode, typed, hints[top[a]]));
            assert(!shown_by_code(mode, typed, hints[bottom[b - top.len()]]));
        }
    }
}

/// With nothing typed, every element is visible, in every mode, in the order found.
pub proof fn law_empty_text_shows_everything(hints: Seq<EntryModel>, mode: Mode)
    ensures
        visible(hints, mode, Seq::empty()) == Seq::new(hints.len(), |i: int| i),
{
    let none = Seq::<char>::empty();
    lemma_select(hints, |e: EntryModel| shown_by_code(mode, none, e), reads_codes(mode));
    lemma_select(hints, |e: EntryModel| shown_by_name(mode, none, e), !reads_codes(mode));
    assert(visible(hints, mode, none) =~= Seq::new(hints.len(), |i: int| i));
}

/// A predicate that holds of every entry or of none selects all or nothing.
proof fn lemma_select(hints: Seq<EntryModel>, pred: spec_fn(EntryModel) -> bool, yes: bool)
    requires
        forall|e: EntryModel| #[trigger] pred(e) == yes,
    ensures
        indices_where(hints, pred) == (if yes {
            Seq::new(hints.len(), |i: int| i)
        } else {
            Seq::empty()
        }),
    decreases hints.len(),
{
    if hints.len() > 0 {
        lemma_select(hints.drop_last(), pred, yes);
        assert(pred(hints.last()) == yes);
    }
    assert(indices_where(hints, pred) =~= (if yes {
        Seq::new(hints.len(), |i: int| i)
    } else {
        Seq::empty()
    }));
}

/// Where hint codes alone count, typing on never brings an element back.
pub proof fn law_longer_code_matches_no_more(
    hints: Seq<EntryModel>,
    typed: Seq<char>,
    c: char,
    i: int,
)
    requires
        listed(visible(hints, Mode::Hints, typed.push(c)), i),
    ensures
        listed(visible(hints, Mode::Hints, typed), i),
{
    law_visible_are_the_matches(hints, Mode::Hints, typed.push(c), i);
    let label = hints[i].label;
    assert(typed.push(c).is_prefix_of(label));
    assert forall|k: int| 0 <= k < typed.len() implies typed[k] == label[k] by {
        assert(typed.push(c)[k] == label[k]);
    }
    assert(typed =~= label.subrange(0, typed.len() as int));
    law_visible_are_the_matches(hints, Mode::Hints, typed, i);
}

/// An exact match is an element with that very code; without one, no element has it.
pub proof fn law_exact_match_has_the_code(hints: Seq<EntryModel>, typed: Seq<char>)
    ensures
        match exact_index(hints, typed) {
            Some(i) => 0 <= i < hints.len() && hints[i].label == typed,
            None => forall|i: int| 0 <= i < hints.len() ==> (#[trigger] hints[i]).label != typed,
        },
    decreases hints.len(),
{
    if hints.len() > 0 {
        let head = hints.drop_last();
        law_exact_match_has_the_code(head, typed);
        if exact_index(hints, typed) is None {
            assert forall|i: int| 0 <= i < hints.len() implies (#[trigger] hints[i]).label
                != typed by {
                if i < head.len() {
                    assert(head[i].label != typed);
                }
            }
        }
    }
}

/// Where no code is a prefix of another one, a full code is an exact match of its
/// own element and of no other.
pub proof fn law_exact_code_is_unique(hints: Seq<EntryModel>, i: int)
    requires
        prefix_free(hints),
        0 <= i < hints.len(),
    ensures
        exact_index(hints, hints[i].label) == Some(i),
{
    let typed = hints[i].label;
    law_exact_match_has_the_code(hints, typed);
    match exact_index(hints, typed) {
        Some(k) => {
            if k != i {
                assert(typed =~= typed.subrange(0, typed.len() as int));
                assert(hints[k].label.is_prefix_of(hints[i].label));
            }
        },
        None => {
            assert(hints[i].label != typed);
        },
    }
}

/// Where no code is a prefix of another one, a full code leaves its own element
/// alone in the top section, under the cursor.
pub proof fn law_full_code_leaves_one(hints: Seq<EntryModel>, mode: Mode, i: int)
    requires
        prefix_free(hints),
        0 <= i < hints.len(),
        reads_codes(mode),
    ensures
        top_section(hints, mode, hints[i].label) == seq![i],
        entry_at_cursor(visible(hints, mode, hints[i].label), 0) == Some(i),
{
    let typed = hints[i].label;
    let by_code = |e: EntryModel| shown_by_code(mode, typed, e);
    let top = top_section(hints, mode, typed);
    lemma_indices_in_range(hints, by_code);
    lemma_selection_ascends(hints, by_code);
    assert(typed =~= typed.subrange(0, typed.len() as int));
    assert(by_code(hints[i]));
    lemma_selection_is_complete(hints, by_code, i);
    assert forall|k: int| 0 <= k < top.len() implies top[k] == i by {
        let j = top[k];
        assert(by_code(hints[j]));
        assert(code_matches(hints[j], hints[i].label));
        if j != i {
            assert(hints[i].label.is_prefix_of(hints[j].label));
        }
    }
    if top.len() > 1 {
        assert(top[0] < top[1]);
    }
    assert(top =~= seq![i]);
    assert(visible(hints, mode, typed)[0] == i);
}

// ---------------------------------------------------------------------------
// What is listed, in plain words
// ---------------------------------------------------------------------------

/// An entry matches by code exactly if its code is the typed text with something behind
/// it, possibly nothing.
proof fn lemma_code_is_text_and_more(entry: EntryModel, typed: Seq<char>)
    ensures
        code_matches(entry, typed) <==> exists|rest: Seq<char>|
            #[trigger] in_parts(entry.label, Seq::empty(), typed, rest),
{
    let none = Seq::<char>::empty();
    if code_matches(entry, typed) {
        let rest = entry.label.skip(typed.len() as int);
        assert(entry.label =~= none + typed + rest);
        assert(in_parts(entry.label, none, typed, rest));
    }
    if exists|rest: Seq<char>| #[trigger] in_parts(entry.label, none, typed, rest) {
        let rest = choose|rest: Seq<char>| #[trigger] in_parts(entry.label, none, typed, rest);
        assert(entry.label.subrange(0, typed.len() as int) =~= typed);
    }
}

/// In Search mode an element is listed exactly if its name is the typed text, in lower
/// case, with something before and something behind it, either of which may be empty.
pub proof fn law_search_lists_the_names(hints: Seq<EntryModel>, typed: Seq<char>, i: int)
    requires
        0 <= i < hints.len(),
        typed.len() > 0,
    ensures
        visible(hints, Mode::Search, typed).contains(i) <==> exists|
            before: Seq<char>,
            after: Seq<char>,
        |
            #[trigger] in_parts(hints[i].name, before, lowered(typed), after),
        hints[i].name == lowered(typed) ==> visible(hints, Mode::Search, typed).contains(i),
{
    law_visible_are_the_matches(hints, Mode::Search, typed, i);
    lemma_listed_contains(visible(hints, Mode::Search, typed), i);
    law_found_between_two_parts(lowered(typed), hints[i].name);
    law_text_stands_in_itself(hints[i].name);
}

/// In Hints mode an element is listed exactly if its code is the typed text with something
/// behind it, possibly nothing.
pub proof fn law_hints_mode_lists_the_codes(hints: Seq<EntryModel>, typed: Seq<char>, i: int)
    requires
        0 <= i < hints.len(),
    ensures
        visible(hints, Mode::Hints, typed).contains(i) <==> exists|rest: Seq<char>|
            #[trigger] in_parts(hints[i].label, Seq::empty(), typed, rest),
        hints[i].label == typed ==> visible(hints, Mode::Hints, typed).contains(i),
{
    law_visible_are_the_matches(hints, Mode::Hints, typed, i);
    lemma_listed_contains(visible(hints, Mode::Hints, typed), i);
    lemma_code_is_text_and_more(hints[i], typed);
    if hints[i].label == typed {
        assert(typed =~= Seq::empty() + typed + Seq::<char>::empty());
        assert(in_parts(hints[i].label, Seq::empty(), typed, Seq::empty()));
    }
}

/// In the combined mode exactly those elements are listed that one of the two other modes
/// lists.
pub proof fn law_both_lists_what_either_lists(hints: Seq<EntryModel>, typed: Seq<char>, i: int)
    ensures
        visible(hints, Mode::Both, typed).contains(i) <==> visible(
            hints,
            Mode::Search,
            typed,
        ).contains(i) || visible(hints, Mode::Hints, typed).contains(i),
{
    law_visible_are_the_matches(hints, Mode::Both, typed, i);
    law_visible_are_the_matches(hints, Mode::Search, typed, i);
    law_visible_are_the_matches(hints, Mode::Hints, typed, i);
    lemma_listed_contains(visible(hints, Mode::Both, typed), i);
    lemma_listed_contains(visible(hints, Mode::Search, typed), i);
    lemma_listed_contains(visible(hints, Mode::Hints, typed), i);
}

/// The two ways to say that an index is listed.
proof fn lemma_listed_contains(indices: Seq<int>, i: int)
    ensures
        listed(indices, i) <==> indices.contains(i),
{
    if indices.contains(i) {
        let k = choose|k: int| 0 <= k < indices.len() && indices[k] == i;
        assert(indices[k] == i);
    }
}

/// Of two listed elements, one whose code begins with the typed text stands before one
/// whose code does not; where both do or neither does, they stand in the order found. In
/// Search mode codes do not count.
pub proof fn law_codes_come_before_names(
    hints: Seq<EntryModel>,
    mode: Mode,
    typed: Seq<char>,
    a: int,
    b: int,
)
    requires
        0 <= a < b < visible(hints, mode, typed).len(),
    ensures
        ({
            let i = visible(hints, mode, typed)[a];
            let j = visible(hints, mode, typed)[b];
            let first = typed.is_prefix_of(hints[i].label);
            let second = typed.is_prefix_of(hints[j].label);
            &&& 0 <= i < hints.len() && 0 <= j < hints.len()
            &&& mode is Search ==> i < j
            &&& !(mode is Search) && second ==> first
            &&& first == second ==> i < j
        }),
{
    let by_code = |e: EntryModel| shown_by_code(mode, typed, e);
    let by_name = |e: EntryModel| shown_by_name(mode, typed, e);
    let top = top_section(hints, mode, typed);
    let bottom = bottom_section(hints, mode, typed);
    law_sections_ascend(hints, mode, typed);
    lemma_indices_in_range(hints, by_code);
    lemma_indices_in_range(hints, by_name);
    if b < top.len() {
        assert(top[a] < top[b]);
        assert(by_code(hints[top[a]]) && by_code(hints[top[b]]));
    } else if a >= top.len() {
        assert(bottom[a - top.len()] < bottom[b - top.len()]);
        assert(by_name(hints[bottom[a - top.len()]]) && by_name(hints[bottom[b - top.len()]]));
    } else {
        assert(by_code(hints[top[a]]));
        assert(by_name(hints[bottom[b - top.len()]]));
    }
}

/// The top section lists exactly the elements whose code begins with the typed text, where
/// codes count at all: everywhere but in Search mode.
pub proof fn law_top_section_lists_the_codes(
    hints: Seq<EntryModel>,
    mode: Mode,
    typed: Seq<char>,
    i: int,
)
    requires
        0 <= i < hints.len(),
    ensures
        top_section(hints, mode, typed).contains(i) <==> !(mode is Search) && typed.is_prefix_of(
            hints[i].label,
        ),
        visible(hints, mode, typed).take(top_section(hints, mode, typed).len() as int)
            == top_section(hints, mode, typed),
        visible(hints, mode, typed).skip(top_section(hints, mode, typed).len() as int)
            == bottom_section(hints, mode, typed),
{
    let by_code = |e: EntryModel| shown_by_code(mode, typed, e);
    let top = top_section(hints, mode, typed);
    let bottom = bottom_section(hints, mode, typed);
    lemma_indices_in_range(hints, by_code);
    lemma_listed_contains(top, i);
    if by_code(hints[i]) {
        lemma_selection_is_complete(hints, by_code, i);
    }
    if listed(top, i) {
        let k = choose|k: int| 0 <= k < top.len() && #[trigger] top[k] == i;
        assert(by_code(hints[top[k]]));
    }
    assert(visible(hints, mode, typed).take(top.len() as int) =~= top);
    assert(visible(hints, mode, typed).skip(top.len() as int) =~= bottom);
}

/// A search for plain ASCII text finds the same elements in capitals.
pub proof fn law_search_ignores_capitals(hints: Seq<EntryModel>, a: Seq<char>, b: Seq<char>)
    requires
        plain(a),
        capitalized(a, b),
    ensures
        visible(hints, Mode::Search, a) == visible(hints, Mode::Search, b),
{
    law_lower_case_forgets_capitals(a, b);
    assert(top_section(hints, Mode::Search, a) == top_section(hints, Mode::Search, b)) by {
        assert((|e: EntryModel| shown_by_code(Mode::Search, a, e)) =~= (|e: EntryModel|
            shown_by_code(Mode::Search, b, e)));
    }
    assert(bottom_section(hints, Mode::Search, a) == bottom_section(hints, Mode::Search, b)) by {
        assert((|e: EntryModel| shown_by_name(Mode::Search, a, e)) =~= (|e: EntryModel|
            shown_by_name(Mode::Search, b, e)));
    }
}

/// The first of the elements with a code is the exact match, and there is one exactly if
/// some element has that code.
pub proof fn law_first_with_the_code_is_the_match(hints: Seq<EntryModel>, typed: Seq<char>, i: int)
    requires
        0 <= i < hints.len(),
        hints[i].label == typed,
        forall|k: int| 0 <= k < i ==> (#[trigger] hints[k]).label != typed,
    ensures
        exact_index(hints, typed) == Some(i),
    decreases hints.len(),
{
    let head = hints.drop_last();
    law_exact_match_has_the_code(head, typed);
    if i < head.len() {
        assert(head[i] == hints[i]);
        assert forall|k: int| 0 <= k < i implies (#[trigger] head[k]).label != typed by {
            assert(head[k] == hints[k]);
        }
        law_first_with_the_code_is_the_match(head, typed, i);
    } else {
        match exact_index(head, typed) {
            Some(k) => {
                assert(head[k] == hints[k]);
            },
            None => {},
        }
    }
}

/// Tab goes from the combined mode to names alone, on to codes alone, and back.
pub proof fn law_tab_goes_round(mode: Mode)
    ensures
        mode is Both ==> mode_after(mode) is Search,
        mode is Search ==> mode_after(mode) is Hints,
        mode is Hints ==> mode_after(mode) is Both,
        reads_codes(mode) <==> !(mode is Search),
        reads_names(mode) <==> !(mode is Hints),
{
}

/// The badge names the mode in capitals.
pub proof fn law_badges_name_the_mode(mode: Mode)
    ensures
        mode is Both ==> badge_of(mode) == seq!['B', 'O', 'T', 'H'],
        mode is Search ==> badge_of(mode) == seq!['S', 'E', 'A', 'R', 'C', 'H'],
        mode is Hints ==> badge_of(mode) == seq!['H', 'I', 'N', 'T', 'S'],
{
    reveal_strlit("BOTH");
    reveal_strlit("SEARCH");
    reveal_strlit("HINTS");
    assert(mode is Both ==> badge_of(mode) =~= seq!['B', 'O', 'T', 'H']);
    assert(mode is Search ==> badge_of(mode) =~= seq!['S', 'E', 'A', 'R', 'C', 'H']);
    assert(mode is Hints ==> badge_of(mode) =~= seq!['H', 'I', 'N', 'T', 'S']);
}

/// The cursor picks the entry at its place, the last one where it stands behind the end,
/// and none of an empty list.
pub proof fn law_cursor_picks_its_place(shown: Seq<int>, cursor: int)
    requires
        0 <= cursor,
    ensures
        entry_at_cursor(shown, cursor) is None <==> shown.len() == 0,
        cursor < shown.len() ==> entry_at_cursor(shown, cursor) == Some(shown[cursor]),
        0 < shown.len() <= cursor ==> entry_at_cursor(shown, cursor) == Some(
            shown[shown.len() - 1],
        ),
{
}

} // verus!
