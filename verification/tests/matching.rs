use winhint::matching::{
    exact_hint, hint_matches, name_matches, names_containing, order_matches, top_matches, wrap_index,
    HintEntry, Mode,
};

fn entry(label: &str, name: &str) -> HintEntry {
    HintEntry {
        label: label.to_string(),
        x: 0,
        y: 0,
        top: 0,
        above: false,
        name: name.to_lowercase(),
    }
}

#[test]
fn name_empty_matches_all() {
    let hints = vec![entry("a", "Save"), entry("b", "Cancel")];
    assert_eq!(name_matches(&hints, ""), vec![0, 1]);
}

#[test]
fn name_is_case_insensitive_substring() {
    let hints = vec![entry("a", "Save File"), entry("b", "Cancel"), entry("c", "Saved")];
    assert_eq!(name_matches(&hints, "SAV"), vec![0, 2]);
    assert_eq!(name_matches(&hints, "file"), vec![0]);
}

#[test]
fn name_no_match_is_empty() {
    let hints = vec![entry("a", "Save"), entry("b", "Cancel")];
    assert!(name_matches(&hints, "xyz").is_empty());
}

#[test]
fn hint_matches_by_label_prefix() {
    let hints = vec![entry("aa", "Save"), entry("ab", "Open"), entry("ba", "Quit")];
    assert_eq!(hint_matches(&hints, ""), vec![0, 1, 2]); // empty → all
    assert_eq!(hint_matches(&hints, "a"), vec![0, 1]);
    assert_eq!(hint_matches(&hints, "ba"), vec![2]);
    assert!(hint_matches(&hints, "5").is_empty()); // non-label char → none
}

#[test]
fn exact_hint_is_unique() {
    let hints = vec![entry("aa", "Save"), entry("ab", "Open")];
    assert_eq!(exact_hint(&hints, "aa"), Some(0));
    assert_eq!(exact_hint(&hints, "ab"), Some(1));
    assert_eq!(exact_hint(&hints, "a"), None); // prefix, not exact
    assert_eq!(exact_hint(&hints, "zz"), None);
}

#[test]
fn mode_cycle_order() {
    assert!(matches!(Mode::Both.next(), Mode::Search));
    assert!(matches!(Mode::Search.next(), Mode::Hints));
    assert!(matches!(Mode::Hints.next(), Mode::Both));
}

#[test]
fn wrap_index_wraps_both_ends() {
    assert_eq!(wrap_index(0, 3, true), 1);
    assert_eq!(wrap_index(2, 3, true), 0); // bottom → top
    assert_eq!(wrap_index(0, 3, false), 2); // top → bottom
    assert_eq!(wrap_index(1, 3, false), 0);
    assert_eq!(wrap_index(0, 0, true), 0); // empty list is safe
    assert_eq!(wrap_index(0, 1, true), 0); // single item stays
}

#[test]
fn non_ascii_text_is_lowered_too() {
    let hints = vec![entry("a", "Öffnen"), entry("b", "Schließen")];
    assert_eq!(name_matches(&hints, "ÖFF"), vec![0]);
    assert_eq!(names_containing(&hints, "ÖFF"), Vec::<usize>::new());
    assert_eq!(names_containing(&hints, "öff"), vec![0]);
}

#[test]
fn equal_labels_give_the_first() {
    let hints = vec![entry("b", "x"), entry("a", "y"), entry("a", "z")];
    assert_eq!(exact_hint(&hints, "a"), Some(1));
}

#[test]
fn badges() {
    assert_eq!(Mode::Both.badge(), "BOTH");
    assert_eq!(Mode::Search.badge(), "SEARCH");
    assert_eq!(Mode::Hints.badge(), "HINTS");
}

#[test]
fn modes_read_codes_or_names_or_both() {
    assert_eq!((Mode::Both.uses_hints(), Mode::Both.uses_search()), (true, true));
    assert_eq!((Mode::Search.uses_hints(), Mode::Search.uses_search()), (false, true));
    assert_eq!((Mode::Hints.uses_hints(), Mode::Hints.uses_search()), (true, false));
}

#[test]
fn code_matches_come_before_name_matches() {
    let hints = vec![entry("aa", "cancel"), entry("ca", "apply"), entry("cb", "close")];
    assert_eq!(top_matches(&hints, Mode::Both, "c"), vec![1, 2]);
    assert_eq!(order_matches(&hints, Mode::Both, "c"), vec![1, 2, 0]);
    assert_eq!(order_matches(&hints, Mode::Search, "c"), vec![0, 2]);
    assert_eq!(order_matches(&hints, Mode::Hints, "c"), vec![1, 2]);
    assert!(top_matches(&hints, Mode::Search, "c").is_empty());
}

#[test]
fn nothing_typed_shows_everything_once() {
    let hints = vec![entry("a", "one"), entry("b", ""), entry("c", "three")];
    for mode in [Mode::Both, Mode::Search, Mode::Hints] {
        assert_eq!(order_matches(&hints, mode, ""), vec![0, 1, 2]);
    }
}

#[test]
fn a_full_code_stands_alone_on_top() {
    let hints = vec![entry("aa", "save as"), entry("ab", "open"), entry("ba", "about")];
    assert_eq!(top_matches(&hints, Mode::Both, "ab"), vec![1]);
    assert_eq!(order_matches(&hints, Mode::Both, "ab"), vec![1, 2]);
}

#[test]
fn wrapping_survives_the_largest_lists() {
    assert_eq!(wrap_index(usize::MAX - 1, usize::MAX, true), 0);
    assert_eq!(wrap_index(0, usize::MAX, false), usize::MAX - 1);
}
