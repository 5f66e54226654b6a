use winhint::geometry::Rect;
use winhint::report::{
    resizable_lines, resizables_sum, scan_heading, scan_line, tree_line, tree_sum, Node, Tally,
    Transform,
};
use winhint::scanner::{Hint, MAX_VISITED, UIA_PANE, UIA_SEPARATOR};

fn node(ct: i32, left: i32, top: i32, right: i32, bottom: i32) -> Node {
    Node {
        control_type: Some(ct),
        rect: Some(Rect { left, top, right, bottom }),
        name: Some("body".to_string()),
        transform: None,
    }
}

#[test]
fn tree_lines_are_indented() {
    let name = Some("Save".to_string());
    assert_eq!(tree_line(0, Some(50000), &name), "  0 ct=50000 Save");
    assert_eq!(tree_line(3, Some(50000), &name), "  3    ct=50000 Save");
    assert_eq!(tree_line(2, None, &None), "  2   ct=0 ");
}

#[test]
fn tree_lines_match_the_formatting_of_the_standard_library() {
    let name = "ä".repeat(80);
    for depth in [0usize, 7, 24, 25, 120, 1000] {
        let indent = depth.min(24);
        let short: String = name.chars().take(70).collect();
        let expected = format!("{depth:>3} {:indent$}ct={} {}", "", -5, short);
        assert_eq!(tree_line(depth, Some(-5), &Some(name.clone())), expected);
    }
}

#[test]
fn a_pane_shows_its_rectangle() {
    let mut tally = Tally::new();
    let lines = resizable_lines(1, &node(UIA_PANE, 94, 290, 373, 913), &mut tally);
    assert_eq!(
        lines,
        vec!["  1  [P] ct=50033 l=94 t=290 r=373 b=913 (279x623)  body".to_string()]
    );
    assert_eq!(tally, Tally { visited: 1, transforms: 0, splitters: 0 });
}

#[test]
fn a_splitter_shows_its_arrow_and_center() {
    let mut tally = Tally::new();
    let lines = resizable_lines(0, &node(UIA_SEPARATOR, 10, 0, 14, 300), &mut tally);
    assert_eq!(lines, vec!["  0 [S] ct=50038 ↔ 4x300 @(12,150)  body".to_string()]);
    assert_eq!(tally.splitters, 1);
}

#[test]
fn a_transformable_element_shows_what_it_can() {
    let mut tally = Tally::new();
    let window = Node {
        transform: Some(Transform { can_resize: true, can_move: false }),
        ..node(UIA_PANE, 0, 0, 100, 90)
    };
    let lines = resizable_lines(0, &window, &mut tally);
    assert_eq!(lines.len(), 2);
    assert_eq!(lines[0], "  0 [T] ct=50033 resize=1 move=0 100x90  body");
    assert_eq!(lines[1], "  0 [P] ct=50033 l=0 t=0 r=100 b=90 (100x90)  body");
    assert_eq!(tally.transforms, 1);
}

#[test]
fn an_element_of_no_interest_is_only_counted() {
    let mut tally = Tally::new();
    let fixed = Node {
        transform: Some(Transform { can_resize: false, can_move: false }),
        ..node(50000, 0, 0, 30, 30)
    };
    assert!(resizable_lines(5, &fixed, &mut tally).is_empty());
    let stale = Node { control_type: None, rect: None, name: None, transform: None };
    assert!(resizable_lines(5, &stale, &mut tally).is_empty());
    assert_eq!(tally, Tally { visited: 2, transforms: 0, splitters: 0 });
}

#[test]
fn long_names_are_cut() {
    let mut tally = Tally::new();
    let long = Node { name: Some("n".repeat(60)), ..node(UIA_PANE, 0, 0, 80, 80) };
    let lines = resizable_lines(0, &long, &mut tally);
    assert!(lines[0].ends_with(&format!("  {}", "n".repeat(50))));
}

#[test]
fn scan_lines_are_aligned() {
    let h = Hint {
        cx: 60,
        cy: -40,
        top: 0,
        name: "Save".to_string(),
        control: "Button",
        above: false,
    };
    assert_eq!(scan_line(0, &h), "  1  (   60,  -40)  Button        Save");
    assert_eq!(
        scan_line(1233, &h),
        format!("{:>3}  ({:>5},{:>5})  {:<12}  {}", 1234, 60, -40, "Button", "Save")
    );
}

#[test]
fn headings_and_sums() {
    assert_eq!(scan_heading(12), "Found 12 clickable element(s):\n");
    let tally = Tally { visited: 40, transforms: 2, splitters: 3 };
    assert_eq!(tree_sum(&tally), "[dump] 40 nodes total");
    assert_eq!(
        resizables_sum(&tally),
        "[resizables] 2 transform-capable + 3 splitter candidate(s) across 40 node(s)"
    );
}

#[test]
fn a_walk_visits_so_many_elements() {
    let mut tally = Tally::new();
    for _ in 0..MAX_VISITED {
        assert!(!tally.is_full());
        tally.visit();
    }
    assert!(tally.is_full());
    assert_eq!(tally.visited, 5000);
}
