use winhint::geometry::Rect;
use winhint::splitter::{
    apply_drag, dedup, drag_point, find_boundaries, orient_key, spans_overlap, Boundary, Orientation,
};

fn rect(l: i32, t: i32, r: i32, b: i32) -> Rect {
    Rect {
        left: l,
        top: t,
        right: r,
        bottom: b,
    }
}

#[test]
fn explorer_nav_content_splitter() {
    // Real File Explorer geometry: nav pane right edge 373, content pane left
    // edge 377 (4px gap), both spanning y 290..913 → one vertical splitter.
    let nav = rect(94, 290, 373, 913);
    let content = rect(377, 290, 1122, 913);
    let b = find_boundaries(&[nav, content]);
    assert_eq!(b.len(), 1);
    assert_eq!(b[0].orientation, Orientation::Vertical);
    assert_eq!(b[0].coord, 375); // (373 + 377) / 2
    assert_eq!(b[0].span_start, 290);
    assert_eq!(b[0].span_end, 913);
    assert_eq!(drag_point(&b[0]), (375, 601)); // (290 + 913) / 2 = 601
}

#[test]
fn no_panes_no_boundaries() {
    assert!(find_boundaries(&[]).is_empty());
}

#[test]
fn single_pane_no_boundary() {
    assert!(find_boundaries(&[rect(0, 0, 400, 400)]).is_empty());
}

#[test]
fn tiny_pane_is_filtered() {
    // A skinny strip (below MIN_PANE_SIZE wide) adjacent to a real pane must
    // not produce a boundary — it's filtered before adjacency analysis.
    let tiny = rect(0, 0, 20, 400); // 20px wide < MIN_PANE_SIZE
    let big = rect(24, 0, 500, 400);
    assert!(find_boundaries(&[tiny, big]).is_empty());
}

#[test]
fn duplicate_panes_collapse_to_one() {
    // Two copies of the same nav/content pair (as nested panes produce) must
    // dedup to a single boundary.
    let nav = rect(94, 290, 373, 913);
    let content = rect(377, 290, 1122, 913);
    let b = find_boundaries(&[nav, content, nav, content]);
    assert_eq!(b.len(), 1);
}

#[test]
fn insufficient_overlap_no_boundary() {
    // Edges within tolerance but cross-axis overlap < MIN_OVERLAP.
    let a = rect(0, 0, 200, 200);
    let b = rect(200, 180, 400, 400); // overlap y 180..200 = 20 < MIN_OVERLAP
    assert!(find_boundaries(&[a, b]).is_empty());
}

#[test]
fn horizontal_boundary_between_stacked_panes() {
    // Top pane's bottom edge meets bottom pane's top edge → horizontal bar.
    let top = rect(0, 0, 400, 300);
    let bottom = rect(0, 304, 400, 600); // 4px gap on the y axis
    let bs = find_boundaries(&[top, bottom]);
    assert_eq!(bs.len(), 1);
    assert_eq!(bs[0].orientation, Orientation::Horizontal);
    assert_eq!(bs[0].coord, 302); // (300 + 304) / 2
    assert_eq!(bs[0].span_start, 0);
    assert_eq!(bs[0].span_end, 400);
    assert_eq!(drag_point(&bs[0]), (200, 302));
}

#[test]
fn negative_coords_multi_monitor() {
    // Panes on a monitor left of the primary (negative x) still resolve.
    let nav = rect(-500, 0, -300, 400);
    let content = rect(-296, 0, 0, 400); // 4px gap
    let b = find_boundaries(&[nav, content]);
    assert_eq!(b.len(), 1);
    assert_eq!(b[0].orientation, Orientation::Vertical);
    assert_eq!(b[0].coord, -298); // (-300 + -296) / 2
}

#[test]
fn apply_drag_moves_only_the_drag_axis() {
    let v = Boundary {
        orientation: Orientation::Vertical,
        coord: 375,
        span_start: 290,
        span_end: 913,
    };
    // Vertical bar takes dx, ignores dy.
    assert_eq!(apply_drag(&v, 8, 99).coord, 383);
    let h = Boundary {
        orientation: Orientation::Horizontal,
        coord: 302,
        span_start: 0,
        span_end: 400,
    };
    // Horizontal bar takes dy, ignores dx.
    assert_eq!(apply_drag(&h, 99, -8).coord, 294);
}

#[test]
fn two_distinct_splitters_on_one_line_kept() {
    // Two vertical bars at the same x but non-overlapping spans (panes
    // stacked above/below a third on the right) must NOT merge.
    let left_top = rect(0, 0, 200, 200);
    let right_top = rect(204, 0, 400, 200);
    let left_bot = rect(0, 400, 200, 600);
    let right_bot = rect(204, 400, 400, 600);
    let bs = find_boundaries(&[left_top, right_top, left_bot, right_bot]);
    // Same coord (~202), two disjoint y-spans (0..200 and 400..600).
    assert_eq!(bs.len(), 2);
    assert!(bs.iter().all(|b| b.orientation == Orientation::Vertical));
}

#[test]
fn boundaries_are_sorted_with_vertical_bars_first() {
    let a = rect(0, 0, 200, 200);
    let b = rect(204, 0, 400, 200);
    let below = rect(0, 204, 400, 400);
    let bs = find_boundaries(&[below, b, a]);
    let kinds: Vec<Orientation> = bs.iter().map(|x| x.orientation).collect();
    assert_eq!(
        kinds,
        vec![Orientation::Vertical, Orientation::Horizontal, Orientation::Horizontal]
    );
    let spans: Vec<(i32, i32)> = bs.iter().map(|x| (x.span_start, x.span_end)).collect();
    assert_eq!(spans, vec![(0, 200), (0, 200), (204, 400)]);
    assert!(bs.iter().all(|x| x.coord == 202));
}

#[test]
fn edges_too_far_apart_do_not_touch() {
    let a = rect(0, 0, 200, 200);
    assert_eq!(find_boundaries(&[a, rect(208, 0, 400, 200)]).len(), 1);
    assert!(find_boundaries(&[a, rect(209, 0, 400, 200)]).is_empty());
}

#[test]
fn overlap_of_exactly_the_minimum_counts() {
    let a = rect(0, 0, 200, 200);
    assert_eq!(find_boundaries(&[a, rect(200, 160, 400, 400)]).len(), 1);
    assert!(find_boundaries(&[a, rect(200, 161, 400, 400)]).is_empty());
}

#[test]
fn near_duplicates_unite_their_spans() {
    let one = Boundary {
        orientation: Orientation::Vertical,
        coord: 100,
        span_start: 0,
        span_end: 100,
    };
    let two = Boundary { coord: 105, span_start: 60, span_end: 150, ..one };
    let out = dedup(vec![two, one]);
    assert_eq!(out.len(), 1);
    assert_eq!(out[0].coord, 100);
    assert_eq!((out[0].span_start, out[0].span_end), (0, 150));
    assert_eq!(dedup(vec![one, Boundary { coord: 109, ..two }]).len(), 2);
}

#[test]
fn orientations_never_unite() {
    let one = Boundary {
        orientation: Orientation::Vertical,
        coord: 100,
        span_start: 0,
        span_end: 50,
    };
    let two = Boundary { orientation: Orientation::Horizontal, ..one };
    assert_eq!(dedup(vec![two, one]), vec![one, two]);
    assert!(orient_key(Orientation::Vertical) < orient_key(Orientation::Horizontal));
}

#[test]
fn spans_overlap_from_the_minimum_on() {
    let one = Boundary {
        orientation: Orientation::Vertical,
        coord: 100,
        span_start: 0,
        span_end: 100,
    };
    let enough = Boundary { span_start: 60, span_end: 300, ..one };
    let little = Boundary { span_start: 61, span_end: 300, ..one };
    assert!(spans_overlap(&one, &enough));
    assert!(spans_overlap(&enough, &one));
    assert!(!spans_overlap(&one, &little));
    assert!(!spans_overlap(&little, &one));
}

#[test]
fn a_drag_moves_the_grip_along() {
    let bar = Boundary {
        orientation: Orientation::Horizontal,
        coord: 302,
        span_start: 0,
        span_end: 400,
    };
    assert_eq!(drag_point(&bar), (200, 302));
    assert_eq!(drag_point(&apply_drag(&bar, 0, -8)), (200, 294));
}

fn bar(coord: i32, span_start: i32, span_end: i32) -> Boundary {
    Boundary { orientation: Orientation::Vertical, coord, span_start, span_end }
}

#[test]
fn a_nested_pane_collapses_beside_another_bar_on_the_line() {
    let panes = [
        rect(0, 0, 200, 200),
        rect(200, 0, 400, 200),
        rect(0, 400, 200, 600),
        rect(200, 400, 400, 600),
        rect(208, 0, 400, 200),
    ];
    assert_eq!(find_boundaries(&panes), vec![bar(200, 0, 200), bar(200, 400, 600)]);
}

#[test]
fn near_bars_unite_across_another_one() {
    let out = dedup(vec![bar(100, 0, 200), bar(100, 400, 600), bar(104, 0, 200)]);
    assert_eq!(out, vec![bar(100, 0, 200), bar(100, 400, 600)]);
}

#[test]
fn uniting_goes_on_until_no_two_are_near() {
    let out = dedup(vec![bar(114, 150, 450), bar(107, 400, 600), bar(100, 0, 200)]);
    assert_eq!(out, vec![bar(100, 0, 600)]);
}

#[test]
fn a_line_far_from_the_first_stays() {
    let out = dedup(vec![bar(100, 0, 200), bar(107, 0, 200), bar(114, 0, 200)]);
    assert_eq!(out, vec![bar(100, 0, 200), bar(114, 0, 200)]);
}

#[test]
fn copies_and_order_change_nothing() {
    let (a, b, c) = (bar(100, 0, 200), bar(107, 400, 600), bar(114, 150, 450));
    let once = dedup(vec![a, b, c]);
    assert_eq!(dedup(vec![c, a, c, b, c]), once);
    assert_eq!(dedup(vec![a, a, a]), vec![a]);
}

#[test]
fn bars_too_short_to_overlap_are_kept_as_they_came() {
    let short = bar(100, 0, 39);
    assert_eq!(dedup(vec![short, short]), vec![short, short]);
    let (ten, five, long) = (bar(100, 0, 10), bar(100, 0, 5), bar(100, 0, 90));
    assert_eq!(dedup(vec![ten, five]), vec![ten, five]);
    assert_eq!(dedup(vec![five, ten]), vec![five, ten]);
    assert_eq!(dedup(vec![long, five]), vec![long, five]);
    assert_eq!(dedup(vec![five, long]), vec![five, long]);
}

#[test]
fn bars_from_one_point_on_become_the_longest() {
    let (a, b) = (bar(100, 0, 90), bar(100, 0, 200));
    assert_eq!(dedup(vec![a, b]), vec![b]);
    assert_eq!(dedup(vec![b, bar(100, 0, 5), a]), vec![b, bar(100, 0, 5)]);
}

#[test]
fn a_chain_of_overlaps_becomes_one_bar() {
    let out = dedup(vec![bar(100, 0, 100), bar(106, 80, 200), bar(112, 50, 150)]);
    assert_eq!(out, vec![bar(100, 0, 200)]);
}

#[test]
fn one_sweep_unites_each_bar_with_the_one_before() {
    let out = dedup(vec![bar(104, 20, 150), bar(300, 0, 100), bar(100, 0, 100), bar(108, 90, 180)]);
    assert_eq!(out, vec![bar(100, 0, 180), bar(300, 0, 100)]);
}

#[test]
fn a_second_copy_of_a_pane_changes_nothing() {
    let panes = vec![
        rect(0, 0, 200, 200),
        rect(204, 0, 400, 200),
        rect(0, 204, 400, 400),
        rect(208, 0, 400, 200),
    ];
    let once = find_boundaries(&panes);
    for k in 0..panes.len() {
        let mut more = panes.clone();
        more.push(panes[k]);
        assert_eq!(find_boundaries(&more), once);
    }
    let mut turned = panes.clone();
    turned.reverse();
    assert_eq!(find_boundaries(&turned), once);
}
