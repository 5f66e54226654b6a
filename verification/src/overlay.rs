//! What the overlay page is told to draw.
//!
//! The overlay is a web page. A static shell page is loaded once; after that each
//! change of state is pushed into it as a script that calls a function of the
//! page. This module writes that page and those scripts.

use vstd::prelude::*;

use crate::text::{chars_of, decimal, decimal_nat, push_int, push_nat, to_upper, uppered};

verus! {

/// One hint to draw: a label at a physical-pixel screen coordinate, how many of
/// its leading characters the typed code matches, and whether it is the selected
/// match.
pub struct RenderItem {
    pub label: String,
    pub x: i32,
    pub y: i32,
    /// The label belongs above the point rather than centered on it.
    pub above: bool,
    pub typed: usize,
    pub selected: bool,
}

/// One row in the results list: a hint code, the element's accessible name, and
/// whether it is what Enter acts on.
pub struct ListRow {
    pub label: String,
    pub name: String,
    pub selected: bool,
}

/// One resize handle to draw: a window handle or a splitter handle.
pub struct ResizeHandleItem {
    pub label: String,
    pub x: i32,
    pub y: i32,
    pub selected: bool,
    pub splitter: bool,
}

/// The size display of resize mode, with the label of what is grabbed.
pub struct ResizeHud {
    pub width: i32,
    pub height: i32,
    pub selected_label: Option<String>,
}

// ---------------------------------------------------------------------------
// Escaping
// ---------------------------------------------------------------------------

/// The lower-case hexadecimal digit of a number below 16.
pub open spec fn hex_digit(d: int) -> char {
    if d < 10 {
        (48 + d) as char
    } else {
        (87 + d) as char
    }
}

/// A character as it is written inside a double-quoted script string.
pub open spec fn escaped_char(c: char) -> Seq<char> {
    if c == '"' {
        seq!['\\', '"']
    } else if c == '\\' {
        seq!['\\', '\\']
    } else if c == '\n' {
        seq!['\\', 'n']
    } else if c == '\r' {
        seq!['\\', 'r']
    } else if c == '\t' {
        seq!['\\', 't']
    } else if (c as int) < 0x20 {
        seq!['\\', 'u', '0', '0', hex_digit(c as int / 16), hex_digit(c as int % 16)]
    } else {
        seq![c]
    }
}

/// Text as it is written inside a double-quoted script string.
pub open spec fn escaped(text: Seq<char>) -> Seq<char>
    decreases text.len(),
{
    if text.len() == 0 {
        Seq::empty()
    } else {
        escaped_char(text[0]) + escaped(text.drop_first())
    }
}

/// The lower-case hexadecimal digit of a number below 16.
fn hex_char(d: u8) -> (c: char)
    requires
        d < 16,
    ensures
        c == hex_digit(d as int),
{
    if d < 10 {
        (48u8 + d) as char
    } else {
        (87u8 + d) as char
    }
}

/// Append a character as it is written inside a double-quoted script string.
fn push_escaped(out: &mut String, c: char)
    ensures
        final(out)@ == old(out)@ + escaped_char(c),
{
    let ghost before = out@;
    if c == '"' {
        out.push('\\');
        out.push('"');
    } else if c == '\\' {
        out.push('\\');
        out.push('\\');
    } else if c == '\n' {
        out.push('\\');
        out.push('n');
    } else if c == '\r' {
        out.push('\\');
        out.push('r');
    } else if c == '\t' {
        out.push('\\');
        out.push('t');
    } else if (c as u32) < 0x20 {
        let code: u8 = c as u8;
        out.push('\\');
        out.push('u');
        out.push('0');
        out.push('0');
        out.push(hex_char(code / 16));
        out.push(hex_char(code % 16));
    } else {
        out.push(c);
    }
    assert(out@ =~= before + escaped_char(c));
}

/// Escape arbitrary text for embedding inside a double-quoted script string. The
/// search query and element names are free text: they can contain quotes,
/// backslashes and control characters.
pub fn json_escape_str(s: &str) -> (out: String)
    ensures
        out@ == escaped(s@),
{
    let chars: Vec<char> = chars_of(s);
    let mut out: String = String::new();
    let mut i: usize = 0;
    assert(chars@.skip(0) =~= chars@);
    assert(out@ + escaped(s@) =~= escaped(s@));
    while i < chars.len()
        invariant
            i <= chars@.len(),
            chars@ == s@,
            out@ + escaped(chars@.skip(i as int)) == escaped(s@),
        decreases chars@.len() - i,
    {
        let ghost before = out@;
        let c: char = chars[i];
        push_escaped(&mut out, c);
        proof {
            let rest = chars@.skip(i as int);
            assert(rest[0] == c);
            assert(rest.drop_first() =~= chars@.skip(i + 1));
            assert(before + (escaped_char(c) + escaped(chars@.skip(i + 1))) =~= out@ + escaped(
                chars@.skip(i + 1),
            ));
        }
        i += 1;
    }
    assert(chars@.skip(i as int) =~= Seq::<char>::empty());
    assert(out@ + escaped(chars@.skip(i as int)) =~= out@);
    out
}

// ---------------------------------------------------------------------------
// Lists
// ---------------------------------------------------------------------------

/// A flag as the page reads it.
pub open spec fn bit(set: bool) -> Seq<char> {
    if set {
        "1"@
    } else {
        "0"@
    }
}

/// The first `count` texts of a list with commas between them.
pub open spec fn comma_separated(texts: Seq<Seq<char>>, count: int) -> Seq<char>
    decreases count,
{
    if count <= 0 {
        Seq::empty()
    } else if count == 1 {
        texts[0]
    } else {
        comma_separated(texts, count - 1) + ","@ + texts[count - 1]
    }
}

/// A list of texts in brackets.
pub open spec fn bracketed(texts: Seq<Seq<char>>) -> Seq<char> {
    "["@ + comma_separated(texts, texts.len() as int) + "]"@
}

/// A floating label as the page reads it, with `label` for its text.
pub open spec fn item_text(it: RenderItem, label: Seq<char>) -> Seq<char> {
    "{l:\""@ + label + "\",x:"@ + decimal(it.x as int) + ",y:"@ + decimal(
        it.y as int,
    ) + ",t:"@ + decimal_nat(it.typed as nat) + ",s:"@ + bit(it.selected) + "}"@
}

/// The floating labels as the page reads them.
pub open spec fn items_text(items: Seq<RenderItem>) -> Seq<char> {
    bracketed(items.map_values(|it: RenderItem| item_text(it, uppered(it.label@))))
}

/// A results row as the page reads it, with `label` for its hint code.
pub open spec fn row_text(r: ListRow, label: Seq<char>) -> Seq<char> {
    "{l:\""@ + label + "\",n:\""@ + escaped(r.name@) + "\",s:"@ + bit(r.selected)
        + "}"@
}

/// The results rows as the page reads them.
pub open spec fn rows_text(rows: Seq<ListRow>) -> Seq<char> {
    bracketed(rows.map_values(|r: ListRow| row_text(r, uppered(r.label@))))
}

/// A resize handle as the page reads it, with `label` for its text.
pub open spec fn handle_text(it: ResizeHandleItem, label: Seq<char>) -> Seq<char> {
    "{l:\""@ + label + "\",x:"@ + decimal(it.x as int) + ",y:"@ + decimal(
        it.y as int,
    ) + ",s:"@ + bit(it.selected) + ",p:"@ + bit(it.splitter) + "}"@
}

/// The resize handles as the page reads them.
pub open spec fn handles_text(items: Seq<ResizeHandleItem>) -> Seq<char> {
    bracketed(items.map_values(|it: ResizeHandleItem| handle_text(it, uppered(it.label@))))
}

/// Append a flag as the page reads it.
fn push_bit(out: &mut String, set: bool)
    ensures
        final(out)@ == old(out)@ + bit(set),
{
    out.append(
        if set {
            "1"
        } else {
            "0"
        },
    );
}

/// Append a floating label with `label` for its text.
pub fn push_item(out: &mut String, it: &RenderItem, label: &str)
    ensures
        final(out)@ == old(out)@ + item_text(*it, label@),
{
    let ghost before = out@;
    out.append("{l:\"");
    out.append(label);
    out.append("\",x:");
    push_int(out, it.x as i64);
    out.append(",y:");
    push_int(out, it.y as i64);
    out.append(",t:");
    push_nat(out, it.typed as u64);
    out.append(",s:");
    push_bit(out, it.selected);
    out.append("}");
    assert(out@ =~= before + item_text(*it, label@));
}

/// Append a results row with `label` for its hint code.
pub fn push_row(out: &mut String, r: &ListRow, label: &str)
    ensures
        final(out)@ == old(out)@ + row_text(*r, label@),
{
    let ghost before = out@;
    out.append("{l:\"");
    out.append(label);
    out.append("\",n:\"");
    out.append(&json_escape_str(&r.name));
    out.append("\",s:");
    push_bit(out, r.selected);
    out.append("}");
    assert(out@ =~= before + row_text(*r, label@));
}

/// Append a resize handle with `label` for its text.
pub fn push_handle(out: &mut String, it: &ResizeHandleItem, label: &str)
    ensures
        final(out)@ == old(out)@ + handle_text(*it, label@),
{
    let ghost before = out@;
    out.append("{l:\"");
    out.append(label);
    out.append("\",x:");
    push_int(out, it.x as i64);
    out.append(",y:");
    push_int(out, it.y as i64);
    out.append(",s:");
    push_bit(out, it.selected);
    out.append(",p:");
    push_bit(out, it.splitter);
    out.append("}");
    assert(out@ =~= before + handle_text(*it, label@));
}

/// Serialize floating labels as `[{l:"AB",x:1,y:2,t:1,s:0},...]`. Labels are
/// letters only, so they need no escaping.
pub fn items_json(items: &[RenderItem]) -> (out: String)
    ensures
        out@ == items_text(items@),
{
    let ghost texts = items@.map_values(|it: RenderItem| item_text(it, uppered(it.label@)));
    let mut out: String = String::new();
    out.append("[");
    let mut i: usize = 0;
    assert(out@ =~= "["@ + comma_separated(texts, 0));
    while i < items.len()
        invariant
            i <= items@.len(),
            texts == items@.map_values(|it: RenderItem| item_text(it, uppered(it.label@))),
            out@ == "["@ + comma_separated(texts, i as int),
        decreases items@.len() - i,
    {
        if i > 0 {
            out.append(",");
        }
        let label: String = to_upper(&items[i].label);
        push_item(&mut out, &items[i], &label);
        assert(out@ =~= "["@ + comma_separated(texts, i + 1));
        i += 1;
    }
    out.append("]");
    out
}

/// Serialize results rows as `[{l:"AA",n:"save file",s:0},...]`. Names are free
/// text and are escaped.
pub fn rows_json(rows: &[ListRow]) -> (out: String)
    ensures
        out@ == rows_text(rows@),
{
    let ghost texts = rows@.map_values(|r: ListRow| row_text(r, uppered(r.label@)));
    let mut out: String = String::new();
    out.append("[");
    let mut i: usize = 0;
    assert(out@ =~= "["@ + comma_separated(texts, 0));
    while i < rows.len()
        invariant
            i <= rows@.len(),
            texts == rows@.map_values(|r: ListRow| row_text(r, uppered(r.label@))),
            out@ == "["@ + comma_separated(texts, i as int),
        decreases rows@.len() - i,
    {
        if i > 0 {
            out.append(",");
        }
        let label: String = to_upper(&rows[i].label);
        push_row(&mut out, &rows[i], &label);
        assert(out@ =~= "["@ + comma_separated(texts, i + 1));
        i += 1;
    }
    out.append("]");
    out
}

/// Serialize resize handles as `[{l:"A",x:1,y:2,s:0,p:0},...]`; `p` marks a
/// splitter handle.
pub fn resize_handles_json(items: &[ResizeHandleItem]) -> (out: String)
    ensures
        out@ == handles_text(items@),
{
    let ghost texts = items@.map_values(|it: ResizeHandleItem| handle_text(it, uppered(it.label@)));
    let mut out: String = String::new();
    out.append("[");
    let mut i: usize = 0;
    assert(out@ =~= "["@ + comma_separated(texts, 0));
    while i < items.len()
        invariant
            i <= items@.len(),
            texts == items@.map_values(|it: ResizeHandleItem| handle_text(it, uppered(it.label@))),
            out@ == "["@ + comma_separated(texts, i as int),
        decreases items@.len() - i,
    {
        if i > 0 {
            out.append(",");
        }
        let label: String = to_upper(&items[i].label);
        push_handle(&mut out, &items[i], &label);
        assert(out@ =~= "["@ + comma_separated(texts, i + 1));
        i += 1;
    }
    out.append("]");
    out
}

// ---------------------------------------------------------------------------
// Scripts
// ---------------------------------------------------------------------------

/// The script that draws hint mode.
pub open spec fn render_text(
    floating: Seq<RenderItem>,
    query: Seq<char>,
    mode_badge: Seq<char>,
    top: Seq<ListRow>,
    bottom: Seq<ListRow>,
) -> Seq<char> {
    "render({float:"@ + items_text(floating) + ",q:\""@ + escaped(query) + "\",mode:\""@
        + mode_badge + "\",top:"@ + rows_text(top) + ",bot:"@ + rows_text(bottom) + "})"@
}

/// The script that draws resize mode.
pub open spec fn render_resize_text(handles: Seq<ResizeHandleItem>, hud: ResizeHud) -> Seq<char> {
    "renderResize({handles:"@ + handles_text(handles) + ",w:"@ + decimal(hud.width as int) + ",h:"@
        + decimal(hud.height as int) + ",sel:\""@ + escaped(
        match hud.selected_label {
            Some(label) => label@,
            None => Seq::empty(),
        },
    ) + "\"})"@
}

/// The script that draws hint mode: the `floating` labels over the elements, the
/// `query` text, the `mode_badge`, and the results list in a `top` (hint) and a
/// `bottom` (name search) section.
pub fn render(
    floating: &[RenderItem],
    query: &str,
    mode_badge: &str,
    top: &[ListRow],
    bottom: &[ListRow],
) -> (script: String)
    ensures
        script@ == render_text(floating@, query@, mode_badge@, top@, bottom@),
{
    let mut out: String = String::new();
    out.append("render({float:");
    out.append(&items_json(floating));
    out.append(",q:\"");
    out.append(&json_escape_str(query));
    out.append("\",mode:\"");
    out.append(mode_badge);
    out.append("\",top:");
    out.append(&rows_json(top));
    out.append(",bot:");
    out.append(&rows_json(bottom));
    out.append("})");
    assert(out@ =~= render_text(floating@, query@, mode_badge@, top@, bottom@));
    out
}

/// The script that draws resize mode: the handles and the size display.
pub fn render_resize(handles: &[ResizeHandleItem], hud: &ResizeHud) -> (script: String)
    ensures
        script@ == render_resize_text(handles@, *hud),
{
    let mut out: String = String::new();
    out.append("renderResize({handles:");
    out.append(&resize_handles_json(handles));
    out.append(",w:");
    push_int(&mut out, hud.width as i64);
    out.append(",h:");
    push_int(&mut out, hud.height as i64);
    out.append(",sel:\"");
    match &hud.selected_label {
        Some(label) => {
            out.append(&json_escape_str(label));
        },
        None => {},
    }
    out.append("\"})");
    assert(out@ =~= render_resize_text(handles@, *hud));
    out
}

// ---------------------------------------------------------------------------
// The page
// ---------------------------------------------------------------------------

/// The shell page up to the background color of its body.
pub const SHELL_HEAD: &'static str = r#"<!doctype html><html><head><meta charset="utf-8"><style>
html,body{margin:0;padding:0;width:100%;height:100%;background:"#;

/// The shell page from behind the background color on: the styles, and the
/// function `render` that draws a state.
pub const SHELL_TAIL: &'static str = r#";overflow:hidden;
  font-family:'Cascadia Code','Cascadia Mono',Consolas,'Courier New',monospace;}
.hint{position:fixed;transform:translate(-50%,-50%);background:#0d1117;
  border:1px solid #00e5cc;color:#00e5cc;font-size:12px;font-weight:700;
  padding:1px 5px;border-radius:3px;white-space:nowrap;
  box-shadow:0 1px 5px rgba(0,0,0,.6);}
.hint.sel{background:#00e5cc;color:#0d1117;border-color:#fff;z-index:10;
  animation:hintpulse 1.1s ease-in-out infinite;}
@keyframes hintpulse{
  0%,100%{box-shadow:0 0 0 0 rgba(0,229,204,.75),0 1px 6px rgba(0,0,0,.6);}
  50%{box-shadow:0 0 0 6px rgba(0,229,204,0),0 1px 6px rgba(0,0,0,.6);}
}
.typed{color:#ff9500;}
.hint.sel .typed{color:#7a3d00;}
.palette{position:fixed;top:14px;left:50%;transform:translateX(-50%);
  background:#0d1117;border:1px solid #00e5cc;border-radius:8px;
  min-width:300px;max-width:520px;color:#e6edf3;overflow:hidden;
  box-shadow:0 4px 20px rgba(0,0,0,.6);}
.hdr{display:flex;align-items:center;padding:7px 12px;font-size:14px;white-space:nowrap;}
.hdr .mode{color:#0d1117;background:#00e5cc;font-weight:700;font-size:11px;
  padding:1px 7px;border-radius:3px;margin-right:10px;letter-spacing:.5px;}
.palette.search .mode{background:#7aa2ff;}
.palette.hints .mode{background:#ff9500;}
.hdr .q{color:#e6edf3;white-space:pre;}
.hdr .ph{color:#6b7681;}
.hdr .caret{color:#00e5cc;}
.list{max-height:60vh;overflow:hidden;padding-bottom:4px;}
.row{display:flex;align-items:center;padding:3px 12px;font-size:13px;}
.row .code{color:#00e5cc;font-weight:700;min-width:28px;}
.row .name{color:#c9d1d9;overflow:hidden;text-overflow:ellipsis;white-space:nowrap;}
.row.sel{background:#00e5cc;}
.row.sel .code,.row.sel .name{color:#0d1117;}
.divider{height:1px;margin:5px 16px;
  background:linear-gradient(to right,transparent,rgba(0,229,204,.55),transparent);}
</style></head><body><script>
const dpr=window.devicePixelRatio||1;
function mkRow(r){
  const d=document.createElement('div'); d.className='row'+(r.s?' sel':'');
  const c=document.createElement('span'); c.className='code'; c.textContent=r.l;
  const n=document.createElement('span'); n.className='name';
  n.textContent=(r.n&&r.n.length)?r.n:'—';
  d.appendChild(c); d.appendChild(n); return d;
}
function render(state){
  const b=document.body; b.innerHTML='';
  const fl=state.float||[], top=state.top||[], bot=state.bot||[];

  // --- palette (search bar + results list) ---
  const pal=document.createElement('div');
  pal.className='palette '+(state.mode||'BOTH').toLowerCase();
  const hdr=document.createElement('div'); hdr.className='hdr';
  const m=document.createElement('span'); m.className='mode';
  m.textContent=state.mode||'BOTH'; hdr.appendChild(m);
  const q=state.q||'';
  if(q.length>0){
    const qs=document.createElement('span'); qs.className='q'; qs.textContent=q;
    hdr.appendChild(qs);
  } else {
    const ph=document.createElement('span'); ph.className='ph';
    ph.textContent='type to search / hint'; hdr.appendChild(ph);
  }
  const car=document.createElement('span'); car.className='caret';
  car.textContent='▌'; hdr.appendChild(car);
  pal.appendChild(hdr);

  if(top.length || bot.length){
    const list=document.createElement('div'); list.className='list';
    for(const r of top) list.appendChild(mkRow(r));
    if(top.length && bot.length){
      const dv=document.createElement('div'); dv.className='divider'; list.appendChild(dv);
    }
    for(const r of bot) list.appendChild(mkRow(r));
    pal.appendChild(list);
  }
  b.appendChild(pal);

  // --- floating labels over each element ---
  for(const h of fl){
    const d=document.createElement('div'); d.className='hint'+(h.s?' sel':'');
    const t=h.t||0;
    if(t>0){
      const s=document.createElement('span'); s.className='typed';
      s.textContent=h.l.slice(0,t); d.appendChild(s);
      d.appendChild(document.createTextNode(h.l.slice(t)));
    } else { d.textContent=h.l; }
    d.style.left=(h.x/dpr)+'px'; d.style.top=(h.y/dpr)+'px';
    b.appendChild(d);
  }
}
</script></body></html>"#;

/// The background of the page: see-through, or tinted for debugging.
pub open spec fn page_background(debug: bool) -> Seq<char> {
    if debug {
        "rgba(255,0,0,0.25)"@
    } else {
        "transparent"@
    }
}

/// The static shell page: defines `render` and the styling. Coordinates are
/// physical pixels; the page divides by `devicePixelRatio`, so labels land
/// correctly under any display scaling. `debug` tints the whole page, to show
/// that the surface paints.
pub fn shell_html(debug: bool) -> (page: String)
    ensures
        page@ == SHELL_HEAD@ + page_background(debug) + SHELL_TAIL@,
{
    let mut page: String = SHELL_HEAD.to_owned();
    page.append(
        if debug {
            "rgba(255,0,0,0.25)"
        } else {
            "transparent"
        },
    );
    page.append(SHELL_TAIL);
    page
}

/// Gives the page its resize mode: yellow window handles, blue splitter handles and
/// the size display. Runs before each resize script and does nothing the second time.
pub const RESIZE_SETUP: &'static str = r#"if(!window.renderResize){
  const st=document.createElement('style');
  st.textContent='.hint.handle{border-color:#ffd60a;color:#ffd60a;}'
    +'.hint.handle.splitter{border-color:#7aa2ff;color:#7aa2ff;}'
    +'.hint.handle.sel{background:#ffd60a;color:#0d1117;border-color:#fff;}'
    +'.hint.handle.splitter.sel{background:#7aa2ff;}'
    +'.palette.resize .mode{background:#ffd60a;}'
    +'.chip{color:#6b7681;margin-left:10px;font-size:12px;}';
  document.head.appendChild(st);
  const span=function(cls,text){
    const s=document.createElement('span'); s.className=cls; s.textContent=text; return s;
  };
  window.renderResize=function(state){
    const b=document.body; b.innerHTML='';
    const pal=document.createElement('div'); pal.className='palette resize';
    const hdr=document.createElement('div'); hdr.className='hdr';
    hdr.appendChild(span('mode','RESIZE'));
    hdr.appendChild(span('q',state.w+' × '+state.h+(state.sel?'  '+state.sel:'')));
    hdr.appendChild(span('chip','a–h handle'));
    if(state.handles.some(function(h){return h.p;})) hdr.appendChild(span('chip','i… splitter'));
    pal.appendChild(hdr); b.appendChild(pal);
    for(const h of state.handles){
      const d=span('hint handle'+(h.p?' splitter':'')+(h.s?' sel':''),h.l);
      d.style.left=(h.x/dpr)+'px'; d.style.top=(h.y/dpr)+'px';
      b.appendChild(d);
    }
  };
}
"#;

} // verus!
