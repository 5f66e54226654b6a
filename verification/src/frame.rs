//! What the overlay shows in each mode.

use vstd::prelude::*;

use crate::geometry::Rect;
use crate::handle_labels::{
    glyph_of, handle_at, handle_letter, label_for_handle, orientation_glyph, splitter_label,
    splitter_letter,
};
use crate::matching::{
    badge_of, bottom_section, ints, top_matches, top_section, visible, HintEntry,
};
use crate::overlay::{ListRow, RenderItem, ResizeHandleItem, ResizeHud};
use crate::resize::{handle_positions, handle_x, handle_y, Handle};
use crate::session::{
    enter_entry, enter_target, lemma_visible_in_range, ordered_visible, shown, App, AppModel,
    ResizeModel, ResizeSelection, ResizeState, UiModel, UiState,
};
use crate::splitter::{drag_point, grip, Boundary};
use crate::text::{ascii_upper, upper_char};

verus! {

/// The picture of hint mode: floating labels over the elements, the query, the
/// mode, and the results list in two sections.
pub struct HintView {
    pub floating: Vec<RenderItem>,
    pub query: String,
    pub badge: &'static str,
    pub top: Vec<ListRow>,
    pub bottom: Vec<ListRow>,
}

/// The picture of resize mode: the handles and the size display.
pub struct ResizeView {
    pub handles: Vec<ResizeHandleItem>,
    pub hud: ResizeHud,
}

// ---------------------------------------------------------------------------
// Hint mode
// ---------------------------------------------------------------------------

/// The highlighted entry: what Enter acts on, once something is typed.
pub open spec fn highlighted(m: AppModel) -> Option<int> {
    if m.typed.len() == 0 {
        None
    } else {
        enter_entry(m)
    }
}

/// Is `item` the floating label of entry `i`? Labels of the top section have the
/// typed prefix colored; a label above its element hangs on the element's top
/// edge.
pub open spec fn floats(item: RenderItem, m: AppModel, i: int, in_top: bool) -> bool {
    let e = m.hints[i];
    &&& item.label@ == e.label
    &&& item.x == e.x
    &&& item.y == (if e.above {
        e.top
    } else {
        e.y
    })
    &&& item.above == e.above
    &&& item.typed == (if in_top {
        m.typed.len()
    } else {
        0
    })
    &&& item.selected == (highlighted(m) == Some(i))
}

/// Is `row` the results row of entry `i`?
pub open spec fn lists(row: ListRow, m: AppModel, i: int) -> bool {
    let e = m.hints[i];
    &&& row.label@ == e.label
    &&& row.name@ == e.name
    &&& row.selected == (highlighted(m) == Some(i))
}

/// Are the rows those of the listed entries, in their order?
pub open spec fn lists_all(rows: Seq<ListRow>, m: AppModel, indices: Seq<int>) -> bool {
    &&& rows.len() == indices.len()
    &&& forall|k: int| 0 <= k < rows.len() ==> lists(#[trigger] rows[k], m, indices[k])
}

/// Build a results-list row for element `i`, marking it selected if it is `sel`.
pub fn row(app: &App, i: usize, sel: Option<usize>) -> (row: ListRow)
    requires
        i < app@.hints.len(),
    ensures
        row.label@ == app@.hints[i as int].label,
        row.name@ == app@.hints[i as int].name,
        row.selected == (sel == Some(i)),
{
    let e: &HintEntry = &app.hints[i];
    assert(app@.hints[i as int] == e@);
    ListRow { label: e.label.clone(), name: e.name.clone(), selected: sel == Some(i) }
}

/// The rows of the entries `ordered[from..to]`.
fn rows_between(app: &App, ordered: &Vec<usize>, from: usize, to: usize, sel: Option<usize>) -> (rows:
    Vec<ListRow>)
    requires
        from <= to <= ordered@.len(),
        forall|k: int| 0 <= k < ordered@.len() ==> (#[trigger] ordered@[k]) < app@.hints.len(),
        (match sel {
            Some(s) => Some(s as int),
            None => None,
        }) == highlighted(app@),
    ensures
        lists_all(rows@, app@, ints(ordered@).subrange(from as int, to as int)),
{
    let ghost indices = ints(ordered@).subrange(from as int, to as int);
    let mut rows: Vec<ListRow> = Vec::new();
    let mut k: usize = from;
    while k < to
        invariant
            from <= k <= to <= ordered@.len(),
            forall|j: int| 0 <= j < ordered@.len() ==> (#[trigger] ordered@[j]) < app@.hints.len(),
            (match sel {
                Some(s) => Some(s as int),
                None => None,
            }) == highlighted(app@),
            indices == ints(ordered@).subrange(from as int, to as int),
            rows@.len() == k - from,
            forall|j: int| 0 <= j < rows@.len() ==> lists(#[trigger] rows@[j], app@, indices[j]),
        decreases to - k,
    {
        let i: usize = ordered[k];
        assert(indices[k - from] == i);
        rows.push(row(app, i, sel));
        k += 1;
    }
    rows
}

/// The current picture of hint mode. One ordering drives the floating labels, the
/// two sections of the results list, and the highlighted entry.
pub fn render_state(app: &App) -> (view: HintView)
    ensures
        view.query@ == app@.typed,
        view.badge@ == badge_of(app@.mode),
        view.floating@.len() == shown(app@).len(),
        forall|k: int|
            0 <= k < view.floating@.len() ==> floats(
                #[trigger] view.floating@[k],
                app@,
                shown(app@)[k],
                k < top_section(app@.hints, app@.mode, app@.typed).len(),
            ),
        app@.typed.len() == 0 ==> view.top@.len() == 0 && view.bottom@.len() == 0,
        app@.typed.len() > 0 ==> lists_all(
            view.top@,
            app@,
            top_section(app@.hints, app@.mode, app@.typed),
        ),
        app@.typed.len() > 0 ==> lists_all(
            view.bottom@,
            app@,
            bottom_section(app@.hints, app@.mode, app@.typed),
        ),
{
    let ghost m = app@;
    let ghost top_indices = top_section(m.hints, m.mode, m.typed);
    let ghost bottom_indices = bottom_section(m.hints, m.mode, m.typed);
    let typed_len: usize = app.typed.as_str().unicode_len();
    let has_typed: bool = typed_len > 0;
    let ordered: Vec<usize> = ordered_visible(app);
    let n_top: usize = top_matches(app.hints.as_slice(), app.mode, &app.typed).len();
    // With nothing typed there is no meaningful selection, and Enter does nothing.
    let sel: Option<usize> = if has_typed {
        enter_target(app)
    } else {
        None
    };
    proof {
        lemma_visible_in_range(m.hints, m.mode, m.typed);
        assert(ints(ordered@) == top_indices + bottom_indices);
        assert(n_top == top_indices.len());
        assert forall|k: int| 0 <= k < ordered@.len() implies (#[trigger] ordered@[k])
            < m.hints.len() by {
            assert(ints(ordered@)[k] == ordered@[k]);
            assert(visible(m.hints, m.mode, m.typed)[k] == ordered@[k]);
        }
    }

    let mut floating: Vec<RenderItem> = Vec::new();
    let mut k: usize = 0;
    while k < ordered.len()
        invariant
            k <= ordered@.len(),
            m == app@,
            typed_len == m.typed.len(),
            ints(ordered@) == shown(m),
            top_indices == top_section(m.hints, m.mode, m.typed),
            n_top == top_indices.len(),
            forall|j: int| 0 <= j < ordered@.len() ==> (#[trigger] ordered@[j]) < m.hints.len(),
            (match sel {
                Some(s) => Some(s as int),
                None => None,
            }) == highlighted(m),
            floating@.len() == k,
            forall|j: int|
                0 <= j < k ==> floats(
                    #[trigger] floating@[j],
                    m,
                    shown(m)[j],
                    j < top_indices.len(),
                ),
        decreases ordered@.len() - k,
    {
        let i: usize = ordered[k];
        let e: &HintEntry = &app.hints[i];
        assert(m.hints[i as int] == e@);
        assert(ints(ordered@)[k as int] == i);
        floating.push(
            RenderItem {
                label: e.label.clone(),
                x: e.x,
                y: if e.above {
                    e.top
                } else {
                    e.y
                },
                above: e.above,
                typed: if k < n_top {
                    typed_len
                } else {
                    0
                },
                selected: sel == Some(i),
            },
        );
        k += 1;
    }

    let mut top: Vec<ListRow> = Vec::new();
    let mut bottom: Vec<ListRow> = Vec::new();
    if has_typed {
        top = rows_between(app, &ordered, 0, n_top, sel);
        bottom = rows_between(app, &ordered, n_top, ordered.len(), sel);
        assert(ints(ordered@).subrange(0, n_top as int) =~= top_indices);
        assert(ints(ordered@).subrange(n_top as int, ordered@.len() as int) =~= bottom_indices);
    }
    HintView { floating, query: app.typed.clone(), badge: app.mode.badge(), top, bottom }
}

// ---------------------------------------------------------------------------
// Resize mode
// ---------------------------------------------------------------------------

/// Is `item` the pin of the window handle at place `i` of the order?
pub open spec fn pins_handle(item: ResizeHandleItem, rs: ResizeModel, i: int) -> bool {
    let handle = handle_at(i);
    &&& item.label@ == seq![handle_letter(handle)]
    &&& item.x == handle_x(rs.current_rect, handle)
    &&& item.y == handle_y(rs.current_rect, handle)
    &&& item.selected == (rs.selection == ResizeSelection::Window(handle))
    &&& !item.splitter
}

/// Is `item` the pin of splitter `i`?
pub open spec fn pins_splitter(item: ResizeHandleItem, rs: ResizeModel, i: int) -> bool {
    let b = rs.splitters[i];
    &&& item.label@ == seq![splitter_letter(i)] + glyph_of(b.orientation)
    &&& (item.x as int, item.y as int) == grip(b)
    &&& item.selected == (rs.selection == ResizeSelection::Splitter(i as usize))
    &&& item.splitter
}

/// The label of what is grabbed: the window handle in upper case (`A` to `H`), or
/// the splitter's label in upper case with its glyph.
pub open spec fn grabbed_label(rs: ResizeModel) -> Option<Seq<char>> {
    match rs.selection {
        ResizeSelection::Nothing => None,
        ResizeSelection::Window(handle) => Some(seq![ascii_upper(handle_letter(handle))]),
        ResizeSelection::Splitter(i) => Some(
            seq![ascii_upper(splitter_letter(i as int))] + glyph_of(
                rs.splitters[i as int].orientation,
            ),
        ),
    }
}

/// The label of what is grabbed, for the size display.
pub fn selected_hud_label(rs: &ResizeState) -> (label: Option<String>)
    requires
        rs.model().wf(),
    ensures
        (match label {
            Some(text) => Some(text@),
            None => None,
        }) == grabbed_label(rs.model()),
{
    match rs.selection {
        ResizeSelection::Nothing => None,
        ResizeSelection::Window(handle) => {
            let mut text: String = String::new();
            text.push(upper_char(label_for_handle(handle)));
            assert(text@ =~= seq![ascii_upper(handle_letter(handle))]);
            Some(text)
        },
        ResizeSelection::Splitter(idx) => {
            let mut text: String = String::new();
            text.push(upper_char(splitter_label(idx)));
            text.append(orientation_glyph(rs.splitters[idx].orientation));
            assert(text@ =~= seq![ascii_upper(splitter_letter(idx as int))] + glyph_of(
                rs.splitters@[idx as int].orientation,
            ));
            Some(text)
        },
    }
}

/// The current picture of resize mode: the eight window-handle pins, the splitter
/// pins, and the size display. `None` in any other mode.
pub fn render_resize_state(app: &App) -> (view: Option<ResizeView>)
    requires
        app@.wf(),
    ensures
        view is Some <==> app@.state is Resize,
        app@.state matches UiModel::Resize(rs) ==> ({
            let handles = view->0.handles@;
            let hud = view->0.hud;
            &&& handles.len() == 8 + rs.splitters.len()
            &&& forall|i: int| 0 <= i < 8 ==> pins_handle(#[trigger] handles[i], rs, i)
            &&& forall|i: int|
                8 <= i < handles.len() ==> pins_splitter(#[trigger] handles[i], rs, i - 8)
            &&& hud.width == rs.current_rect.spec_width()
            &&& hud.height == rs.current_rect.spec_height()
            &&& (match hud.selected_label {
                Some(text) => Some(text@),
                None => None,
            }) == grabbed_label(rs)
        }),
{
    let rs: &ResizeState = match &app.state {
        UiState::Resize(rs) => rs,
        _ => {
            return None;
        },
    };
    let ghost m = rs.model();
    let positions: [(Handle, i32, i32); 8] = handle_positions(rs.current_rect);
    let mut handles: Vec<ResizeHandleItem> = Vec::new();
    let mut i: usize = 0;
    while i < 8
        invariant
            i <= 8,
            m == rs.model(),
            positions@.len() == 8,
            forall|j: int|
                0 <= j < 8 ==> {
                    let (handle, x, y) = #[trigger] positions@[j];
                    &&& handle.index() == j
                    &&& x == handle_x(m.current_rect, handle)
                    &&& y == handle_y(m.current_rect, handle)
                },
            handles@.len() == i,
            forall|j: int| 0 <= j < i ==> pins_handle(#[trigger] handles@[j], m, j),
        decreases 8 - i,
    {
        let (handle, x, y) = positions[i];
        assert(handle == handle_at(i as int));
        let mut label: String = String::new();
        label.push(label_for_handle(handle));
        assert(label@ =~= seq![handle_letter(handle)]);
        let selected: bool = match rs.selection {
            ResizeSelection::Window(grabbed) => grabbed == handle,
            _ => false,
        };
        handles.push(ResizeHandleItem { label, x, y, selected, splitter: false });
        i += 1;
    }
    let mut k: usize = 0;
    while k < rs.splitters.len()
        invariant
            k <= rs.splitters@.len(),
            m == rs.model(),
            m.wf(),
            handles@.len() == 8 + k,
            forall|j: int| 0 <= j < 8 ==> pins_handle(#[trigger] handles@[j], m, j),
            forall|j: int| 8 <= j < handles@.len() ==> pins_splitter(
                #[trigger] handles@[j],
                m,
                j - 8,
            ),
        decreases rs.splitters@.len() - k,
    {
        let b: Boundary = rs.splitters[k];
        let (x, y) = drag_point(&b);
        let mut label: String = String::new();
        label.push(splitter_label(k));
        label.append(orientation_glyph(b.orientation));
        assert(label@ =~= seq![splitter_letter(k as int)] + glyph_of(b.orientation));
        let selected: bool = match rs.selection {
            ResizeSelection::Splitter(grabbed) => grabbed == k,
            _ => false,
        };
        handles.push(ResizeHandleItem { label, x, y, selected, splitter: true });
        k += 1;
    }
    let rect: Rect = rs.current_rect;
    let hud = ResizeHud {
        width: rect.width(),
        height: rect.height(),
        selected_label: selected_hud_label(rs),
    };
    Some(ResizeView { handles, hud })
}

} // verus!
