//! Laws of text.

use vstd::prelude::*;

use crate::text::{
    ascii_upper, decimal, decimal_nat, left_aligned, lowercase, lowered, occurs_at, occurs_in,
    right_aligned, spaces, uppercase, uppered,
};

verus! {

/// Is the whole made up of these three parts?
pub open spec fn in_parts(
    whole: Seq<char>,
    before: Seq<char>,
    middle: Seq<char>,
    after: Seq<char>,
) -> bool {
    whole == before + middle + after
}

/// A pattern stands in a text exactly if the text is the pattern with something before and
/// something behind it, either of which may be empty.
pub proof fn law_found_between_two_parts(pattern: Seq<char>, text: Seq<char>)
    ensures
        occurs_in(pattern, text) <==> exists|before: Seq<char>, after: Seq<char>|
            #[trigger] in_parts(text, before, pattern, after),
{
    if occurs_in(pattern, text) {
        let at = choose|at: int| occurs_at(pattern, text, at);
        let before = text.take(at);
        let after = text.skip(at + pattern.len());
        assert(text =~= before + text.subrange(at, at + pattern.len()) + after);
        assert(in_parts(text, before, pattern, after));
    }
    if exists|before: Seq<char>, after: Seq<char>| #[trigger]
        in_parts(text, before, pattern, after) {
        let (before, after) = choose|before: Seq<char>, after: Seq<char>| #[trigger]
            in_parts(text, before, pattern, after);
        let at = before.len() as int;
        assert(text.subrange(at, at + pattern.len()) =~= pattern);
        assert(occurs_at(pattern, text, at));
    }
}

/// Every text stands in itself, and the empty text in every one.
pub proof fn law_text_stands_in_itself(text: Seq<char>)
    ensures
        occurs_in(text, text),
        occurs_in(Seq::empty(), text),
{
    let none = Seq::<char>::empty();
    assert(text =~= none + text + none);
    assert(in_parts(text, none, text, none));
    law_found_between_two_parts(text, text);
    assert(text =~= none + none + text);
    assert(in_parts(text, none, none, text));
    law_found_between_two_parts(none, text);
}

/// Is the text plain ASCII?
pub open spec fn plain(text: Seq<char>) -> bool {
    forall|i: int| 0 <= i < text.len() ==> (#[trigger] text[i]) as int <= 127
}

/// Are the two characters the same, or the second the capital of the first?
pub open spec fn same_or_capital(a: char, b: char) -> bool {
    a == b || (97 <= a as int <= 122 && b as int == a as int - 32)
}

/// Does `b` read like `a`, with capitals in place of some small letters?
pub open spec fn capitalized(a: Seq<char>, b: Seq<char>) -> bool {
    &&& a.len() == b.len()
    &&& forall|k: int| 0 <= k < a.len() ==> #[trigger] same_or_capital(a[k], b[k])
}

/// Plain text is what the library of text calls ASCII.
proof fn lemma_plain_is_ascii(text: Seq<char>)
    requires
        plain(text),
    ensures
        vstd::utf8::is_ascii_chars(text),
{
    assert forall|i: int| 0 <= i < text.len() implies '\0' <= #[trigger] text[i] <= '\u{7f}' by {
        let c: char = text[i];
        lemma_scalar_value(c);
    }
}

/// A character's number is not negative.
proof fn lemma_scalar_value(c: char)
    ensures
        0 <= c as int,
{
}

/// In lower case, plain ASCII text keeps its length; each of its capital letters becomes
/// the small one, and every other character stays.
pub proof fn law_lower_case_of_plain_text(text: Seq<char>, k: int)
    requires
        plain(text),
        0 <= k < text.len(),
    ensures
        lowered(text).len() == text.len(),
        65 <= text[k] as int <= 90 ==> lowered(text)[k] as int == text[k] as int + 32,
        !(65 <= text[k] as int <= 90) ==> lowered(text)[k] == text[k],
{
    lemma_plain_is_ascii(text);
}

/// In upper case, plain ASCII text keeps its length; each of its small letters becomes the
/// capital one, and every other character stays.
pub proof fn law_upper_case_of_plain_text(text: Seq<char>, k: int)
    requires
        plain(text),
        0 <= k < text.len(),
    ensures
        uppered(text).len() == text.len(),
        97 <= text[k] as int <= 122 ==> uppered(text)[k] as int == text[k] as int - 32,
        !(97 <= text[k] as int <= 122) ==> uppered(text)[k] == text[k],
        97 <= text[k] as int <= 122 ==> ascii_upper(text[k]) as int == text[k] as int - 32,
        !(97 <= text[k] as int <= 122) ==> ascii_upper(text[k]) == text[k],
{
    lemma_plain_is_ascii(text);
}

/// Plain ASCII text with a capital in place of a small letter reads the same in lower case.
pub proof fn law_lower_case_forgets_capitals(a: Seq<char>, b: Seq<char>)
    requires
        plain(a),
        capitalized(a, b),
    ensures
        lowered(a) == lowered(b),
{
    assert forall|i: int| 0 <= i < b.len() implies (#[trigger] b[i]) as int <= 127 by {
        assert(a[i] as int <= 127 && same_or_capital(a[i], b[i]));
    }
    assert forall|k: int| 0 <= k < a.len() implies lowered(a)[k] == lowered(b)[k] by {
        assert(same_or_capital(a[k], b[k]));
        law_lower_case_of_plain_text(a, k);
        law_lower_case_of_plain_text(b, k);
    }
    if a.len() > 0 {
        law_lower_case_of_plain_text(a, 0);
        law_lower_case_of_plain_text(b, 0);
    } else {
        assert(a =~= b);
    }
    assert(lowered(a) =~= lowered(b));
}

// ---------------------------------------------------------------------------
// Numbers and columns
// ---------------------------------------------------------------------------

/// The number that a row of decimal digits is read as.
pub open spec fn read_digits(digits: Seq<char>) -> int
    decreases digits.len(),
{
    if digits.len() == 0 {
        0
    } else {
        10 * read_digits(digits.drop_last()) + (digits.last() as int - 48)
    }
}

/// A natural number is written in decimal digits that read as that number, and without a
/// zero in front.
pub proof fn law_numbers_read_back(n: nat)
    ensures
        read_digits(decimal_nat(n)) == n,
        decimal_nat(n).len() > 0,
        decimal_nat(n).len() > 1 ==> decimal_nat(n)[0] != '0',
        forall|k: int|
            0 <= k < decimal_nat(n).len() ==> 48 <= (#[trigger] decimal_nat(n)[k]) as int <= 57,
    decreases n,
{
    let text = decimal_nat(n);
    reveal_with_fuel(read_digits, 2);
    if n < 10 {
        assert(text.drop_last() =~= Seq::<char>::empty());
    } else {
        law_numbers_read_back(n / 10);
        assert(text.drop_last() =~= decimal_nat(n / 10));
        assert(text[0] == decimal_nat(n / 10)[0]);
        if decimal_nat(n / 10).len() == 1 {
            let d = decimal_nat(n / 10);
            assert(d.drop_last() =~= Seq::<char>::empty());
            assert(read_digits(d) == d[0] as int - 48);
        }
        assert forall|k: int| 0 <= k < text.len() implies 48 <= (#[trigger] text[k]) as int <= 57 by {
            if k < text.len() - 1 {
                assert(text[k] == decimal_nat(n / 10)[k]);
            }
        }
    }
}

/// A negative number is its opposite with a minus sign in front; another one is written as
/// a natural number.
pub proof fn law_negative_numbers_have_a_minus(n: int)
    ensures
        n < 0 ==> decimal(n)[0] == '-' && read_digits(decimal(n).skip(1)) == -n,
        n >= 0 ==> read_digits(decimal(n)) == n,
{
    if n < 0 {
        law_numbers_read_back((-n) as nat);
        assert(decimal(n).skip(1) =~= decimal_nat((-n) as nat));
    } else {
        law_numbers_read_back(n as nat);
    }
}

/// A text in a column keeps all its characters, at the left or at the right edge; it is
/// filled up to the width with spaces, and longer text runs over.
pub proof fn law_columns_are_filled_with_spaces(text: Seq<char>, width: int, k: int)
    ensures
        right_aligned(text, width).len() == left_aligned(text, width).len(),
        text.len() <= width ==> left_aligned(text, width).len() == width,
        text.len() > width ==> left_aligned(text, width) == text && right_aligned(text, width)
            == text,
        0 <= k < text.len() ==> left_aligned(text, width)[k] == text[k],
        text.len() <= k < width ==> left_aligned(text, width)[k] == ' ',
        text.len() <= width && 0 <= k < text.len() ==> right_aligned(text, width)[width - text.len()
            + k] == text[k],
        0 <= k < width - text.len() ==> right_aligned(text, width)[k] == ' ',
        width >= 0 ==> spaces(width).len() == width,
        0 <= k < width ==> spaces(width)[k] == ' ',
{
    if text.len() > width {
        assert(left_aligned(text, width) =~= text);
        assert(right_aligned(text, width) =~= text);
    }
}

/// Text that is not plain ASCII goes by the Unicode mappings.
pub proof fn law_other_text_goes_by_unicode(text: Seq<char>, k: int)
    requires
        0 <= k < text.len(),
        text[k] as int > 127,
    ensures
        lowered(text) == lowercase(text),
        uppered(text) == uppercase(text),
{
    assert(!('\0' <= text[k] <= '\u{7f}'));
}

} // verus!
