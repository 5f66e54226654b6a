//! Laws of hint labels.

use vstd::prelude::*;

use crate::hints::{label_at, label_count, letter, LETTERS};

verus! {

/// No label is a prefix of another one; in particular no two are equal.
pub proof fn law_labels_are_prefix_free(n: int, i: int, j: int)
    requires
        0 <= i < label_count(n),
        0 <= j < label_count(n),
        i != j,
    ensures
        !label_at(n, i).is_prefix_of(label_at(n, j)),
        label_at(n, i) != label_at(n, j),
{
    let a = label_at(n, i);
    let b = label_at(n, j);
    if n <= LETTERS {
        assert(a[0] == letter(i) && b[0] == letter(j));
    } else {
        assert(a[0] == letter(i / 26) && a[1] == letter(i % 26));
        assert(b[0] == letter(j / 26) && b[1] == letter(j % 26));
        assert(i == 26 * (i / 26) + i % 26);
        assert(j == 26 * (j / 26) + j % 26);
    }
    if a.is_prefix_of(b) {
        assert(a =~= b);
        assert(false);
    }
}

/// Labels are made of the letters `a` to `z`.
pub proof fn law_labels_are_letters(n: int, i: int, k: int)
    requires
        0 <= i < label_count(n),
        0 <= k < label_at(n, i).len(),
    ensures
        'a' <= label_at(n, i)[k] <= 'z',
{
}

/// As many labels come as were asked for, up to the number of two-letter ones.
pub proof fn law_every_hint_gets_a_label(n: int)
    requires
        0 <= n <= 676,
    ensures
        label_count(n) == n,
{
}

/// Up to 26 hints get one letter each, `a` first and in order; more get two, counted like
/// the digits of a number: the last letter goes round first. There are 676 at most.
pub proof fn law_labels_count_through_the_alphabet(n: int, i: int)
    requires
        0 <= i < n,
    ensures
        n <= 26 ==> label_at(n, i).len() == 1 && label_at(n, i)[0] as int == 97 + i,
        n > 26 && i < 676 ==> {
            let label = label_at(n, i);
            &&& label.len() == 2
            &&& (label[0] as int - 97) * 26 + (label[1] as int - 97) == i
            &&& 97 <= label[0] as int <= 122
            &&& 97 <= label[1] as int <= 122
        },
        n <= 676 ==> label_count(n) == n,
        n > 676 ==> label_count(n) == 676,
{
}

} // verus!
