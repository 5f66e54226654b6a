//! The command line.

use vstd::prelude::*;

use crate::text::{chars_of, decimal, push_nat, same_text, texts};

verus! {

/// What the program is to do.
#[derive(Clone, Copy, PartialEq, Eq, Debug, Structural)]
pub enum Task {
    /// Dump the raw tree of the foreground window.
    Tree,
    /// List what in the foreground window could be resized.
    Resizables,
    /// List the clickable elements of the foreground window.
    Scan,
    /// Wait in the background for the hotkey.
    Daemon,
}

/// The command line, read.
#[derive(Clone, Copy, PartialEq, Eq, Debug, Structural)]
pub struct Options {
    pub task: Task,
    /// Tint the overlay, for testing.
    pub debug: bool,
    /// Seconds to wait before a one-shot task, to focus its target.
    pub delay: u64,
}

// ---------------------------------------------------------------------------
// Model
// ---------------------------------------------------------------------------

/// Is it a decimal digit?
pub open spec fn is_digit(c: char) -> bool {
    '0' <= c && c <= '9'
}

/// Are they all decimal digits?
pub open spec fn all_digits(text: Seq<char>) -> bool {
    forall|k: int| 0 <= k < text.len() ==> is_digit(#[trigger] text[k])
}

/// The number that digits stand for.
pub open spec fn number_of(digits: Seq<char>) -> nat
    decreases digits.len(),
{
    if digits.len() == 0 {
        0
    } else {
        number_of(digits.drop_last()) * 10 + (digits.last() as int - '0' as int) as nat
    }
}

/// The digits of a number, without a leading plus sign.
pub open spec fn unsigned(text: Seq<char>) -> Seq<char> {
    if text.len() > 0 && text[0] == '+' {
        text.skip(1)
    } else {
        text
    }
}

/// The number that a text stands for: digits only, after an optional plus sign,
/// that make up a number of 64 bits.
pub open spec fn number_in(text: Seq<char>) -> Option<u64> {
    let digits = unsigned(text);
    if digits.len() > 0 && all_digits(digits) && number_of(digits) <= u64::MAX {
        Some(number_of(digits) as u64)
    } else {
        None
    }
}

/// The first number among the arguments, 0 if there is none.
pub open spec fn delay_in(args: Seq<Seq<char>>) -> u64
    decreases args.len(),
{
    if args.len() == 0 {
        0
    } else {
        match number_in(args[0]) {
            Some(n) => n,
            None => delay_in(args.skip(1)),
        }
    }
}

/// The task that the arguments ask for. The dumps come before the scan, and the
/// tree before the resizables.
pub open spec fn task_in(args: Seq<Seq<char>>) -> Task {
    if args.contains("--tree"@) {
        Task::Tree
    } else if args.contains("--resizables"@) {
        Task::Resizables
    } else if args.contains("--scan"@) {
        Task::Scan
    } else {
        Task::Daemon
    }
}

/// What the arguments (without the program's name) ask for.
pub open spec fn options_in(args: Seq<Seq<char>>) -> Options {
    Options {
        task: task_in(args),
        debug: args.contains("--debug"@),
        delay: delay_in(args),
    }
}

// ---------------------------------------------------------------------------
// Numbers
// ---------------------------------------------------------------------------

/// More digits make no smaller number.
proof fn lemma_number_grows(digits: Seq<char>, k: int)
    requires
        0 <= k <= digits.len(),
    ensures
        number_of(digits.take(k)) <= number_of(digits),
    decreases digits.len(),
{
    if k == digits.len() {
        assert(digits.take(k) =~= digits);
    } else {
        let shorter = digits.drop_last();
        assert(shorter.take(k) =~= digits.take(k));
        lemma_number_grows(shorter, k);
    }
}

/// Read a number of 64 bits: digits after an optional plus sign, and nothing else.
pub fn parse_number(text: &str) -> (number: Option<u64>)
    ensures
        number == number_in(text@),
{
    let chars: Vec<char> = chars_of(text);
    let start: usize = if chars.len() > 0 && chars[0] == '+' {
        1
    } else {
        0
    };
    let ghost digits = unsigned(text@);
    assert(digits =~= chars@.skip(start as int));
    if chars.len() == start {
        return None;
    }
    let mut i: usize = start;
    while i < chars.len()
        invariant
            start <= i <= chars@.len(),
            digits == unsigned(text@),
            digits == chars@.skip(start as int),
            forall|k: int| 0 <= k < i - start ==> is_digit(#[trigger] digits[k]),
        decreases chars@.len() - i,
    {
        let c: char = chars[i];
        assert(digits[i - start] == c);
        if c < '0' || c > '9' {
            return None;
        }
        i += 1;
    }
    let mut number: u64 = 0;
    let mut at: usize = start;
    assert(digits.take(0) =~= Seq::<char>::empty());
    while at < chars.len()
        invariant
            start <= at <= chars@.len(),
            digits == unsigned(text@),
            digits == chars@.skip(start as int),
            all_digits(digits),
            number == number_of(digits.take(at - start)),
        decreases chars@.len() - at,
    {
        assert(is_digit(digits[at - start]));
        let d: u64 = (chars[at] as u32 - 48) as u64;
        proof {
            let longer = digits.take(at - start + 1);
            assert(digits[at - start] == chars@[at as int]);
            assert(longer.drop_last() =~= digits.take(at - start));
            assert(longer.last() == chars@[at as int]);
            lemma_number_grows(digits, at - start + 1);
        }
        if number > (u64::MAX - d) / 10 {
            return None;
        }
        number = number * 10 + d;
        at += 1;
    }
    assert(digits.take(at - start) =~= digits);
    Some(number)
}

// ---------------------------------------------------------------------------
// Arguments
// ---------------------------------------------------------------------------

/// Is the flag among the arguments?
fn has_flag(args: &[String], flag: &str) -> (found: bool)
    ensures
        found == texts(args@).contains(flag@),
{
    let mut i: usize = 0;
    while i < args.len()
        invariant
            i <= args@.len(),
            forall|k: int| 0 <= k < i ==> (#[trigger] args@[k])@ != flag@,
        decreases args@.len() - i,
    {
        if same_text(args[i].as_str(), flag) {
            assert(texts(args@)[i as int] == flag@);
            return true;
        }
        i += 1;
    }
    assert forall|k: int| 0 <= k < args@.len() implies texts(args@)[k] != flag@ by {
        assert(texts(args@)[k] == args@[k]@);
    }
    false
}

/// The first number among the arguments, 0 if there is none.
fn first_number(args: &[String]) -> (delay: u64)
    ensures
        delay == delay_in(texts(args@)),
{
    let ghost all = texts(args@);
    let mut i: usize = 0;
    assert(all.skip(0) =~= all);
    while i < args.len()
        invariant
            i <= args@.len(),
            all == texts(args@),
            delay_in(all.skip(i as int)) == delay_in(all),
        decreases args@.len() - i,
    {
        assert(all.skip(i as int)[0] == args@[i as int]@);
        assert(all.skip(i as int).skip(1) =~= all.skip(i + 1));
        if let Some(n) = parse_number(args[i].as_str()) {
            return n;
        }
        i += 1;
    }
    0
}

/// Read the arguments, without the program's name. What is not known is ignored.
pub fn parse_options(args: &[String]) -> (options: Options)
    ensures
        options == options_in(texts(args@)),
{
    let task: Task = if has_flag(args, "--tree") {
        Task::Tree
    } else if has_flag(args, "--resizables") {
        Task::Resizables
    } else if has_flag(args, "--scan") {
        Task::Scan
    } else {
        Task::Daemon
    };
    Options { task, debug: has_flag(args, "--debug"), delay: first_number(args) }
}

/// What is said while a one-shot task waits, `seconds` before it starts.
pub fn countdown_line(seconds: u64) -> (line: String)
    ensures
        line@ == "Scanning foreground window in "@ + decimal(seconds as int)
            + "s — focus your target..."@,
{
    let mut line: String = String::new();
    line.append("Scanning foreground window in ");
    push_nat(&mut line, seconds);
    line.append("s — focus your target...");
    assert(line@ =~= "Scanning foreground window in "@ + decimal(seconds as int)
        + "s — focus your target..."@);
    line
}

} // verus!
