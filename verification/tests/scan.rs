use winhint::geometry::Rect;
use winhint::report::{Node, Tally, Transform};
use winhint::scan::{RawScan, WindowScan};
use winhint::scanner::{Element, Hint, MAX_DEPTH, MAX_ELEMENTS, MAX_VISITED, UIA_BUTTON, UIA_PANE};
use winhint::treewalk::WalkStep;

const WINDOW: Rect = Rect { left: 0, top: 0, right: 100_000, bottom: 100_000 };

/// A tree in which every element above the bottom has so many children.
struct Uniform {
    fan: usize,
    depth: usize,
}

/// The path from the root: the place of each element among its siblings.
type Path = Vec<usize>;

/// Take a step along the path; tells whether there was an element to go to.
fn go(tree: &Uniform, path: &mut Path, step: WalkStep) -> bool {
    match step {
        WalkStep::FirstChild => {
            if path.len() - 1 < tree.depth {
                path.push(0);
                return true;
            }
            false
        }
        WalkStep::NextSibling => {
            let place = path.pop().unwrap();
            if place + 1 < tree.fan {
                path.push(place + 1);
                return true;
            }
            false
        }
        _ => unreachable!(),
    }
}

/// A button at a spot of its own for every path.
fn button(path: &Path, count: usize) -> Element {
    let x = 10 * count as i32;
    Element {
        control_type: Some(UIA_BUTTON),
        rect: Some(Rect { left: x, top: 0, right: x + 8, bottom: 8 }),
        offscreen: None,
        name: Some(path.iter().map(|p| p.to_string()).collect::<Vec<String>>().join(".")),
    }
}

fn scan_into(tree: &Uniform, hints: &mut Vec<Hint>) {
    let mut path: Path = vec![0];
    let mut looked = hints.len();
    let mut scan = WindowScan::begin(WINDOW, hints);
    loop {
        match scan.course.next {
            WalkStep::Inspect => {
                scan.look(button(&path, looked), hints);
                looked += 1;
            }
            WalkStep::Done => return,
            step => {
                let found = go(tree, &mut path, step);
                scan.go(found, hints);
            }
        }
    }
}

#[test]
fn a_window_is_scanned_depth_first() {
    let mut hints: Vec<Hint> = Vec::new();
    scan_into(&Uniform { fan: 2, depth: 2 }, &mut hints);
    let names: Vec<&str> = hints.iter().map(|h| h.name.as_str()).collect();
    assert_eq!(names, vec!["0", "0.0", "0.0.0", "0.0.1", "0.1", "0.1.0", "0.1.1"]);
}

#[test]
fn a_scan_stops_at_the_cap() {
    let mut hints: Vec<Hint> = Vec::new();
    scan_into(&Uniform { fan: 1000, depth: 1 }, &mut hints);
    assert_eq!(hints.len(), MAX_ELEMENTS);
    scan_into(&Uniform { fan: 5, depth: 1 }, &mut hints);
    assert_eq!(hints.len(), MAX_ELEMENTS);
}

#[test]
fn a_scan_stops_at_the_depth_limit() {
    let mut hints: Vec<Hint> = Vec::new();
    scan_into(&Uniform { fan: 1, depth: 50 }, &mut hints);
    assert_eq!(hints.len(), MAX_DEPTH + 1);
}

#[test]
fn panes_are_gathered_from_the_raw_tree() {
    let tree = Uniform { fan: 3, depth: 1 };
    let mut path: Path = vec![0];
    let mut panes: Vec<Rect> = Vec::new();
    let mut scan = RawScan::begin();
    loop {
        match scan.course.next {
            WalkStep::Inspect => {
                let size = if path == vec![0, 1] { 20 } else { 100 };
                let rect = Rect { left: 0, top: 0, right: size, bottom: size };
                scan.look_for_pane(Some(UIA_PANE), Some(rect), &mut panes);
            }
            WalkStep::Done => break,
            step => {
                let found = go(&tree, &mut path, step);
                scan.go(found);
            }
        }
    }
    assert_eq!(panes.len(), 3);
    assert_eq!(scan.tally, Tally { visited: 4, transforms: 0, splitters: 0 });
}

#[test]
fn the_raw_walk_runs_out_of_visits() {
    let tree = Uniform { fan: 100, depth: 3 };
    let mut path: Path = vec![0];
    let mut lines: Vec<String> = Vec::new();
    let mut scan = RawScan::begin();
    loop {
        match scan.course.next {
            WalkStep::Inspect => lines.push(scan.look_for_tree(Some(7), &None)),
            WalkStep::Done => break,
            step => {
                let found = go(&tree, &mut path, step);
                scan.go(found);
            }
        }
    }
    assert_eq!(lines.len(), MAX_VISITED);
    assert_eq!(lines[0], "  0 ct=7 ");
    assert_eq!(lines[2], "  2   ct=7 ");
    assert!(scan.tally.is_full());
}

#[test]
fn resizables_are_listed_with_their_depth() {
    let mut scan = RawScan::begin();
    let node = Node {
        control_type: Some(UIA_BUTTON),
        rect: Some(Rect { left: 0, top: 0, right: 30, bottom: 30 }),
        name: None,
        transform: Some(Transform { can_resize: false, can_move: true }),
    };
    assert_eq!(
        scan.look_for_resizable(&node),
        vec!["  0 [T] ct=50000 resize=0 move=1 30x30  ".to_string()]
    );
    assert_eq!(scan.course.next, WalkStep::FirstChild);
    scan.go(true);
    assert_eq!(
        scan.look_for_resizable(&node),
        vec!["  1  [T] ct=50000 resize=0 move=1 30x30  ".to_string()]
    );
    scan.go(false);
    assert_eq!(scan.course.next, WalkStep::NextSibling);
    scan.go(false);
    assert_eq!(scan.course.next, WalkStep::Done);
    assert_eq!(scan.tally, Tally { visited: 2, transforms: 2, splitters: 0 });
}
