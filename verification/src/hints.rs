//! Hint-label generation.
//!
//! Labels are prefix-free: no label is a prefix of another, so a typed code is
//! never ambiguous and every hint can be reached.
//!   - up to 26 hints: single letters `a`, `b`, ...
//!   - more than 26: two-letter labels `aa`, `ab`, ... (up to 676)

use vstd::prelude::*;

verus! {

/// How many letters labels are built from: `a` to `z`.
pub const LETTERS: usize = 26;

/// How many two-letter labels there are.
pub const MAX_LABELS: usize = 676;

/// Letter number `i`, from `a` on.
pub open spec fn letter(i: int) -> char {
    (97 + i) as char
}

/// How many labels [`labels`] gives when asked for `n`.
pub open spec fn label_count(n: int) -> int {
    if n <= MAX_LABELS {
        n
    } else {
        MAX_LABELS as int
    }
}

/// Label number `i` of `n`.
pub open spec fn label_at(n: int, i: int) -> Seq<char> {
    if n <= LETTERS {
        seq![letter(i)]
    } else {
        seq![letter(i / 26), letter(i % 26)]
    }
}

/// Letter number `i`, from `a` on.
fn letter_char(i: usize) -> (c: char)
    requires
        i < LETTERS,
    ensures
        c == letter(i as int),
{
    (97u8 + i as u8) as char
}

/// Return `n` unique, prefix-free labels; there are never more than
/// [`MAX_LABELS`].
pub fn labels(n: usize) -> (out: Vec<String>)
    ensures
        out@.len() == label_count(n as int),
        forall|i: int| 0 <= i < out@.len() ==> (#[trigger] out@[i])@ == label_at(n as int, i),
{
    let count: usize = if n <= MAX_LABELS {
        n
    } else {
        MAX_LABELS
    };
    let mut out: Vec<String> = Vec::with_capacity(count);
    let mut i: usize = 0;
    while i < count
        invariant
            i <= count <= MAX_LABELS,
            count == label_count(n as int),
            out@.len() == i,
            forall|k: int| 0 <= k < i ==> (#[trigger] out@[k])@ == label_at(n as int, k),
        decreases count - i,
    {
        let mut label: String = String::new();
        if n <= LETTERS {
            label.push(letter_char(i));
        } else {
            label.push(letter_char(i / LETTERS));
            label.push(letter_char(i % LETTERS));
        }
        assert(label@ =~= label_at(n as int, i as int));
        out.push(label);
        i += 1;
    }
    out
}

} // verus!
