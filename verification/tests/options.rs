use winhint::options::{countdown_line, parse_number, parse_options, Options, Task};

fn parse(args: &[&str]) -> Options {
    let args: Vec<String> = args.iter().map(|a| a.to_string()).collect();
    parse_options(&args)
}

#[test]
fn no_arguments_run_the_daemon() {
    assert_eq!(parse(&[]), Options { task: Task::Daemon, debug: false, delay: 0 });
}

#[test]
fn each_task_has_its_flag() {
    assert_eq!(parse(&["--scan"]).task, Task::Scan);
    assert_eq!(parse(&["--tree"]).task, Task::Tree);
    assert_eq!(parse(&["--resizables"]).task, Task::Resizables);
    assert_eq!(parse(&["--debug"]), Options { task: Task::Daemon, debug: true, delay: 0 });
}

#[test]
fn the_tree_goes_before_the_rest() {
    assert_eq!(parse(&["--scan", "--resizables", "--tree"]).task, Task::Tree);
    assert_eq!(parse(&["--scan", "--resizables"]).task, Task::Resizables);
}

#[test]
fn the_first_number_is_the_delay() {
    assert_eq!(parse(&["--scan", "3", "5"]).delay, 3);
    assert_eq!(parse(&["x", "-4", "+7"]).delay, 7);
    assert_eq!(parse(&["--scan", "soon"]).delay, 0);
}

#[test]
fn unknown_arguments_are_ignored() {
    assert_eq!(
        parse(&["--Scan", "--scan=1", ""]),
        Options { task: Task::Daemon, debug: false, delay: 0 }
    );
}

#[test]
fn numbers() {
    assert_eq!(parse_number("0"), Some(0));
    assert_eq!(parse_number("007"), Some(7));
    assert_eq!(parse_number("+12"), Some(12));
    assert_eq!(parse_number("18446744073709551615"), Some(u64::MAX));
    assert_eq!(parse_number("018446744073709551615"), Some(u64::MAX));
    assert_eq!(parse_number("18446744073709551616"), None);
    assert_eq!(parse_number("99999999999999999999999"), None);
    for bad in ["", "+", "++1", "-1", " 1", "1 ", "1a", "0x1", "１"] {
        assert_eq!(parse_number(bad), None);
    }
}

#[test]
fn numbers_read_like_the_standard_library_reads_them() {
    for text in ["", "+", "-0", "+0", "12", "00", "18446744073709551615", "18446744073709551616"] {
        assert_eq!(parse_number(text), text.parse::<u64>().ok());
    }
}

#[test]
fn the_countdown_says_how_long() {
    assert_eq!(
        countdown_line(3),
        "Scanning foreground window in 3s — focus your target..."
    );
}
