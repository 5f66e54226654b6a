//! Laws of the command line.

use vstd::prelude::*;

use crate::laws::text::{law_numbers_read_back, read_digits};
use crate::options::{
    all_digits, delay_in, is_digit, number_in, number_of, options_in, unsigned,
};
use crate::text::decimal_nat;

verus! {

/// Is every character a decimal digit?
pub open spec fn digits_only(text: Seq<char>) -> bool {
    forall|k: int| 0 <= k < text.len() ==> 48 <= (#[trigger] text[k]) as int <= 57
}

/// The digits of a number are read from the left, each worth ten times what comes behind.
proof fn lemma_digits_are_read(text: Seq<char>)
    requires
        digits_only(text),
    ensures
        number_of(text) == read_digits(text),
    decreases text.len(),
{
    if text.len() > 0 {
        let head = text.drop_last();
        assert forall|k: int| 0 <= k < head.len() implies 48 <= (#[trigger] head[k]) as int
            <= 57 by {
            assert(head[k] == text[k]);
        }
        lemma_digits_are_read(head);
        assert(48 <= text[text.len() - 1] as int <= 57);
    }
}

/// A text is a number exactly if it is decimal digits, at least one, that make up a number
/// below 2 to the 64th; it is then that number. One plus sign may stand before them.
pub proof fn law_digits_make_a_number(text: Seq<char>)
    ensures
        text.len() == 0 ==> number_in(text) is None,
        text.len() > 0 && digits_only(text) && read_digits(text) <= 0xFFFF_FFFF_FFFF_FFFF
            ==> number_in(text) == Some(read_digits(text) as u64),
        text.len() > 0 && digits_only(text) && read_digits(text) > 0xFFFF_FFFF_FFFF_FFFF
            ==> number_in(text) is None,
        !digits_only(text) && (text[0] != '+' || !digits_only(text.skip(1))) ==> number_in(
            text,
        ) is None,
        text.len() > 0 && digits_only(text) ==> number_in(seq!['+'] + text) == number_in(text),
{
    if digits_only(text) {
        lemma_digits_are_read(text);
        if text.len() > 0 {
            assert(48 <= text[0] as int <= 57);
            assert(unsigned(text) == text);
            assert(unsigned(seq!['+'] + text) =~= text);
            assert(all_digits(text));
        }
    } else if text.len() > 0 {
        let rest = unsigned(text);
        if all_digits(rest) {
            assert forall|k: int| 0 <= k < rest.len() implies 48 <= (#[trigger] rest[k]) as int
                <= 57 by {
                assert(is_digit(rest[k]));
            }
        }
    }
}

/// A number that was written in decimal is read back as it was.
pub proof fn law_written_numbers_are_read(n: u64)
    ensures
        number_in(decimal_nat(n as nat)) == Some(n),
{
    law_numbers_read_back(n as nat);
    law_digits_make_a_number(decimal_nat(n as nat));
}

/// The delay is the first number among the arguments, wherever it stands, and 0 if there is
/// none.
pub proof fn law_first_number_is_the_delay(args: Seq<Seq<char>>, i: int)
    requires
        0 <= i <= args.len(),
        forall|k: int| 0 <= k < i ==> number_in(#[trigger] args[k]) is None,
    ensures
        i == args.len() ==> options_in(args).delay == 0,
        i < args.len() && number_in(args[i]) is Some ==> Some(options_in(args).delay) == number_in(
            args[i],
        ),
    decreases args.len(),
{
    if args.len() > 0 && i > 0 {
        assert(number_in(args[0]) is None);
        let rest = args.skip(1);
        assert forall|k: int| 0 <= k < i - 1 implies number_in(#[trigger] rest[k]) is None by {
            assert(rest[k] == args[k + 1]);
        }
        law_first_number_is_the_delay(rest, i - 1);
        assert(delay_in(args) == delay_in(rest));
        if i < args.len() {
            assert(rest[i - 1] == args[i]);
        }
    }
}

/// The task goes by the flags, wherever they stand: the tree before the resizables, these
/// before the scan, and none of the three means to wait in the background. The tint goes
/// by a flag of its own.
pub proof fn law_flags_choose_the_task(args: Seq<Seq<char>>, k: int)
    requires
        0 <= k < args.len(),
    ensures
        args[k] == "--tree"@ ==> options_in(args).task is Tree,
        args[k] == "--resizables"@ && !args.contains("--tree"@) ==> options_in(args).task
            is Resizables,
        args[k] == "--scan"@ && !args.contains("--tree"@) && !args.contains("--resizables"@)
            ==> options_in(args).task is Scan,
        args[k] == "--debug"@ ==> options_in(args).debug,
        !args.contains("--tree"@) && !args.contains("--resizables"@) && !args.contains("--scan"@)
            ==> options_in(args).task is Daemon,
        !args.contains("--debug"@) ==> !options_in(args).debug,
{
    assert(args.contains(args[k]));
}

} // verus!
