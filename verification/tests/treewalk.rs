use winhint::treewalk::{Walk, WalkStep};

/// A tree: the children of each node.
struct Tree {
    children: Vec<Vec<usize>>,
}

/// Walk the tree from node 0 and list the nodes looked at, at most `limit`.
fn visit(tree: &Tree, max_depth: usize, limit: usize) -> Vec<usize> {
    let mut seen: Vec<usize> = Vec::new();
    // The path: each node with its parent's number and its place among the children.
    let mut path: Vec<(usize, usize, usize)> = vec![(0, 0, 0)];
    let (mut walk, mut step) = Walk::begin(max_depth, limit == 0);
    while step != WalkStep::Done {
        let mut found = false;
        match step {
            WalkStep::Inspect => {
                assert_eq!(walk.depth, path.len() - 1);
                seen.push(path.last().unwrap().0);
            }
            WalkStep::FirstChild => {
                let node = path.last().unwrap().0;
                if let Some(&child) = tree.children[node].first() {
                    path.push((child, node, 0));
                    found = true;
                }
            }
            WalkStep::NextSibling => {
                let (_, parent, place) = path.pop().unwrap();
                if let Some(&next) = tree.children[parent].get(place + 1) {
                    path.push((next, parent, place + 1));
                    found = true;
                }
            }
            WalkStep::Done => unreachable!(),
        }
        step = walk.advance(step, found, seen.len() >= limit);
    }
    seen
}

fn sample() -> Tree {
    // 0 -> 1, 2, 3; 1 -> 4, 5; 4 -> 6; 3 -> 7
    Tree {
        children: vec![
            vec![1, 2, 3],
            vec![4, 5],
            vec![],
            vec![7],
            vec![6],
            vec![],
            vec![],
            vec![],
        ],
    }
}

#[test]
fn elements_come_depth_first() {
    assert_eq!(visit(&sample(), 32, 300), vec![0, 1, 4, 6, 5, 2, 3, 7]);
}

#[test]
fn elements_below_the_depth_limit_are_left_out() {
    assert_eq!(visit(&sample(), 2, 300), vec![0, 1, 4, 5, 2, 3, 7]);
    assert_eq!(visit(&sample(), 1, 300), vec![0, 1, 2, 3]);
    assert_eq!(visit(&sample(), 0, 300), vec![0]);
}

#[test]
fn a_full_walk_stops_at_once() {
    assert_eq!(visit(&sample(), 32, 3), vec![0, 1, 4]);
    assert_eq!(visit(&sample(), 32, 1), vec![0]);
    assert_eq!(visit(&sample(), 32, 0), Vec::<usize>::new());
}
