use winhint::hints::labels;

#[test]
fn single_letters_when_small() {
    let l = labels(5);
    assert_eq!(l, ["a", "b", "c", "d", "e"]);
}

#[test]
fn two_letter_when_large() {
    let l = labels(30);
    assert_eq!(l.len(), 30);
    assert_eq!(l[0], "aa");
    assert_eq!(l[1], "ab");
    assert_eq!(l[26], "ba");
}

#[test]
fn prefix_free() {
    // No label is a prefix of any other.
    let l = labels(50);
    for a in &l {
        for b in &l {
            if a != b {
                assert!(!b.starts_with(a.as_str()), "{a} is a prefix of {b}");
            }
        }
    }
}

#[test]
fn twenty_six_is_the_last_single_letter_count() {
    assert_eq!(labels(26)[25], "z");
    assert_eq!(labels(27)[25], "az");
    assert_eq!(labels(27)[26], "ba");
}

#[test]
fn labels_stop_at_the_last_pair() {
    assert_eq!(labels(676).len(), 676);
    assert_eq!(labels(676)[675], "zz");
    let more = labels(1000);
    assert_eq!(more.len(), 676);
    assert_eq!(more[675], "zz");
}

#[test]
fn no_hints_no_labels() {
    assert!(labels(0).is_empty());
}
