use winhint::overlay::{
    items_json, json_escape_str, push_handle, push_item, push_row, render, render_resize,
    resize_handles_json, rows_json, shell_html, ListRow, RenderItem, ResizeHandleItem, ResizeHud,
};

fn item(label: &str, x: i32, y: i32, typed: usize, selected: bool) -> RenderItem {
    RenderItem { label: label.to_string(), x, y, above: false, typed, selected }
}

fn row(label: &str, name: &str, selected: bool) -> ListRow {
    ListRow { label: label.to_string(), name: name.to_string(), selected }
}

fn handle(label: &str, selected: bool, splitter: bool) -> ResizeHandleItem {
    ResizeHandleItem { label: label.to_string(), x: 5, y: -6, selected, splitter }
}

#[test]
fn quotes_and_controls_are_escaped() {
    assert_eq!(json_escape_str("plain — text"), "plain — text");
    assert_eq!(json_escape_str("a\"b\\c"), "a\\\"b\\\\c");
    assert_eq!(json_escape_str("\n\r\t"), "\\n\\r\\t");
    assert_eq!(json_escape_str("\u{0}\u{1f} \u{7f}"), "\\u0000\\u001f \u{7f}");
    assert_eq!(json_escape_str("\u{b}"), "\\u000b");
    assert_eq!(json_escape_str(""), "");
}

#[test]
fn items_are_written_in_upper_case() {
    assert_eq!(items_json(&[]), "[]");
    assert_eq!(
        items_json(&[item("ab", 1, 2, 1, false), item("c", -30, 0, 0, true)]),
        "[{l:\"AB\",x:1,y:2,t:1,s:0},{l:\"C\",x:-30,y:0,t:0,s:1}]"
    );
}

#[test]
fn rows_carry_escaped_names() {
    assert_eq!(
        rows_json(&[row("aa", "save \"it\"", false), row("ab", "", true)]),
        "[{l:\"AA\",n:\"save \\\"it\\\"\",s:0},{l:\"AB\",n:\"\",s:1}]"
    );
}

#[test]
fn resize_handles_tell_splitters_apart() {
    assert_eq!(
        resize_handles_json(&[handle("a", true, false), handle("i↔", false, true)]),
        "[{l:\"A\",x:5,y:-6,s:1,p:0},{l:\"I↔\",x:5,y:-6,s:0,p:1}]"
    );
}

#[test]
fn single_entries_take_the_label_they_are_given() {
    let mut out = String::from("x");
    push_item(&mut out, &item("ab", 1, 2, 0, false), "Q");
    assert_eq!(out, "x{l:\"Q\",x:1,y:2,t:0,s:0}");
    let mut out = String::new();
    push_row(&mut out, &row("ab", "n", true), "R");
    assert_eq!(out, "{l:\"R\",n:\"n\",s:1}");
    let mut out = String::new();
    push_handle(&mut out, &handle("ab", false, false), "S");
    assert_eq!(out, "{l:\"S\",x:5,y:-6,s:0,p:0}");
}

#[test]
fn the_hint_script() {
    assert_eq!(
        render(&[item("a", 1, 2, 1, true)], "a\"", "BOTH", &[row("a", "x", true)], &[]),
        "render({float:[{l:\"A\",x:1,y:2,t:1,s:1}],q:\"a\\\"\",mode:\"BOTH\",\
         top:[{l:\"A\",n:\"x\",s:1}],bot:[]})"
    );
}

#[test]
fn the_resize_script() {
    let hud = ResizeHud { width: 640, height: 480, selected_label: Some("A".to_string()) };
    assert_eq!(
        render_resize(&[handle("a", true, false)], &hud),
        "renderResize({handles:[{l:\"A\",x:5,y:-6,s:1,p:0}],w:640,h:480,sel:\"A\"})"
    );
    let none = ResizeHud { width: 1, height: 2, selected_label: None };
    assert_eq!(render_resize(&[], &none), "renderResize({handles:[],w:1,h:2,sel:\"\"})");
}

#[test]
fn the_page_is_tinted_in_debug_mode_only() {
    let plain = shell_html(false);
    let tinted = shell_html(true);
    assert!(plain.starts_with("<!doctype html>"));
    assert!(plain.ends_with("</script></body></html>"));
    assert!(plain.contains("background:transparent;overflow:hidden"));
    assert!(tinted.contains("background:rgba(255,0,0,0.25);overflow:hidden"));
    assert_eq!(plain.replacen("transparent", "rgba(255,0,0,0.25)", 1), tinted);
    assert!(plain.contains("function render(state){"));
    assert!(!plain.contains("{{"));
}
