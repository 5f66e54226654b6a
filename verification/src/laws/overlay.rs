//! Laws of the scripts that are handed to the overlay page.

use vstd::prelude::*;

use crate::overlay::{
    bit, bracketed, comma_separated, escaped, escaped_char, handle_text, handles_text, hex_digit,
    item_text, items_text, render_resize_text, render_text, row_text, rows_text, ListRow,
    RenderItem, ResizeHandleItem, ResizeHud,
};
use crate::text::{decimal, uppered};

verus! {

/// The value of a hexadecimal digit.
pub open spec fn hex_value(c: char) -> Option<int> {
    if '0' <= c <= '9' {
        Some(c as int - 48)
    } else if 'a' <= c <= 'f' {
        Some(c as int - 87)
    } else if 'A' <= c <= 'F' {
        Some(c as int - 55)
    } else {
        None
    }
}

/// The character that an escape of four hexadecimal digits stands for, of those
/// below U+0100.
pub open spec fn hex_escape(a: char, b: char, c: char, d: char) -> Option<char> {
    match (hex_value(c), hex_value(d)) {
        (Some(high), Some(low)) => if a == '0' && b == '0' {
            Some((high * 16 + low) as char)
        } else {
            None
        },
        _ => None,
    }
}

/// What a script engine reads between the quotes of a double-quoted string.
/// `None` where the text would end the string early or not be a legal one.
pub open spec fn string_value(body: Seq<char>) -> Option<Seq<char>>
    decreases body.len(),
{
    if body.len() == 0 {
        Some(Seq::empty())
    } else if body[0] == '"' || (body[0] as int) < 0x20 {
        None
    } else if body[0] != '\\' {
        match string_value(body.skip(1)) {
            Some(rest) => Some(seq![body[0]] + rest),
            None => None,
        }
    } else if body.len() < 2 {
        None
    } else if body[1] == 'u' {
        if body.len() < 6 {
            None
        } else {
            match (hex_escape(body[2], body[3], body[4], body[5]), string_value(body.skip(6))) {
                (Some(c), Some(rest)) => Some(seq![c] + rest),
                _ => None,
            }
        }
    } else {
        match (simple_escape(body[1]), string_value(body.skip(2))) {
            (Some(c), Some(rest)) => Some(seq![c] + rest),
            _ => None,
        }
    }
}

/// The character that a one-letter escape stands for.
pub open spec fn simple_escape(c: char) -> Option<char> {
    if c == '"' {
        Some('"')
    } else if c == '\\' {
        Some('\\')
    } else if c == 'n' {
        Some('\n')
    } else if c == 'r' {
        Some('\r')
    } else if c == 't' {
        Some('\t')
    } else {
        None
    }
}

/// Is the character written as a one-letter escape?
spec fn simply_escaped(c: char) -> bool {
    c == '"' || c == '\\' || c == '\n' || c == '\r' || c == '\t'
}

/// A character's number is not negative.
proof fn lemma_scalar_value(c: char)
    ensures
        0 <= c as int,
{
}

/// Whatever the text holds, the page reads exactly that text back: no quote,
/// backslash or control character in it can end the string or change the script
/// around it.
pub proof fn law_escaped_text_reads_back(text: Seq<char>)
    ensures
        string_value(escaped(text)) == Some(text),
    decreases text.len(),
{
    if text.len() > 0 {
        let c = text[0];
        let rest = text.drop_first();
        law_escaped_text_reads_back(rest);
        let first = escaped_char(c);
        let body = first + escaped(rest);
        assert(seq![c] + rest =~= text);
        assert(body.skip(first.len() as int) =~= escaped(rest));
        assert(body[0] == first[0]);
        if simply_escaped(c) {
            assert(body[1] == first[1]);
        } else if (c as int) < 0x20 {
            let n = c as int;
            assert(body[1] == 'u' && body[2] == '0' && body[3] == '0');
            assert(body[4] == hex_digit(n / 16) && body[5] == hex_digit(n % 16));
            assert(n == 16 * (n / 16) + n % 16);
            lemma_scalar_value(c);
            assert(n / 16 == 0 || n / 16 == 1);
            assert(hex_value(body[4]) == Some(n / 16));
            assert(hex_value(body[5]) == Some(n % 16));
        }
    }
}

/// Two different texts are never written the same way.
pub proof fn law_escaping_is_injective(a: Seq<char>, b: Seq<char>)
    requires
        escaped(a) == escaped(b),
    ensures
        a == b,
{
    law_escaped_text_reads_back(a);
    law_escaped_text_reads_back(b);
}

// ---------------------------------------------------------------------------
// Lists and objects
// ---------------------------------------------------------------------------

/// The pairs of an object literal, `key:value` with commas between them.
pub open spec fn pairs_text(pairs: Seq<(Seq<char>, Seq<char>)>) -> Seq<char>
    decreases pairs.len(),
{
    if pairs.len() == 0 {
        Seq::empty()
    } else {
        let pair = pairs.last().0 + seq![':'] + pairs.last().1;
        if pairs.len() == 1 {
            pair
        } else {
            pairs_text(pairs.drop_last()) + seq![','] + pair
        }
    }
}

/// An object literal.
pub open spec fn object_text(pairs: Seq<(Seq<char>, Seq<char>)>) -> Seq<char> {
    seq!['{'] + pairs_text(pairs) + seq!['}']
}

/// A text in double quotes.
pub open spec fn quoted(text: Seq<char>) -> Seq<char> {
    seq!['"'] + text + seq!['"']
}

/// One pair more.
proof fn lemma_pairs_push(
    pairs: Seq<(Seq<char>, Seq<char>)>,
    key: Seq<char>,
    value: Seq<char>,
)
    ensures
        pairs_text(pairs.push((key, value))) == (if pairs.len() == 0 {
            key + seq![':'] + value
        } else {
            pairs_text(pairs) + seq![','] + (key + seq![':'] + value)
        }),
{
    assert(pairs.push((key, value)).drop_last() =~= pairs);
}

/// The pairs of an object with five of them.
proof fn lemma_five_pairs(
    a: (Seq<char>, Seq<char>),
    b: (Seq<char>, Seq<char>),
    c: (Seq<char>, Seq<char>),
    d: (Seq<char>, Seq<char>),
    e: (Seq<char>, Seq<char>),
)
    ensures
        object_text(seq![a, b, c, d, e]) == seq!['{'] + a.0 + seq![':'] + a.1 + seq![','] + b.0
            + seq![':'] + b.1 + seq![','] + c.0 + seq![':'] + c.1 + seq![','] + d.0 + seq![':']
            + d.1 + seq![','] + e.0 + seq![':'] + e.1 + seq!['}'],
{
    let none = Seq::<(Seq<char>, Seq<char>)>::empty();
    lemma_pairs_push(none, a.0, a.1);
    lemma_pairs_push(none.push(a), b.0, b.1);
    lemma_pairs_push(none.push(a).push(b), c.0, c.1);
    lemma_pairs_push(none.push(a).push(b).push(c), d.0, d.1);
    lemma_pairs_push(none.push(a).push(b).push(c).push(d), e.0, e.1);
    assert(seq![a, b, c, d, e] =~= none.push(a).push(b).push(c).push(d).push(e));
    assert(object_text(seq![a, b, c, d, e]) =~= seq!['{'] + a.0 + seq![':'] + a.1 + seq![','] + b.0
        + seq![':'] + b.1 + seq![','] + c.0 + seq![':'] + c.1 + seq![','] + d.0 + seq![':'] + d.1
        + seq![','] + e.0 + seq![':'] + e.1 + seq!['}']);
}

/// The pairs of an object with three of them.
proof fn lemma_three_pairs(
    a: (Seq<char>, Seq<char>),
    b: (Seq<char>, Seq<char>),
    c: (Seq<char>, Seq<char>),
)
    ensures
        object_text(seq![a, b, c]) == seq!['{'] + a.0 + seq![':'] + a.1 + seq![','] + b.0 + seq![':']
            + b.1 + seq![','] + c.0 + seq![':'] + c.1 + seq!['}'],
{
    let none = Seq::<(Seq<char>, Seq<char>)>::empty();
    lemma_pairs_push(none, a.0, a.1);
    lemma_pairs_push(none.push(a), b.0, b.1);
    lemma_pairs_push(none.push(a).push(b), c.0, c.1);
    assert(seq![a, b, c] =~= none.push(a).push(b).push(c));
    assert(object_text(seq![a, b, c]) =~= seq!['{'] + a.0 + seq![':'] + a.1 + seq![','] + b.0
        + seq![':'] + b.1 + seq![','] + c.0 + seq![':'] + c.1 + seq!['}']);
}

/// A flag is written as the digit that is true or false to the page.
proof fn lemma_bits(set: bool)
    ensures
        bit(set) == (if set {
            seq!['1']
        } else {
            seq!['0']
        }),
{
    reveal_strlit("1");
    reveal_strlit("0");
    assert("1"@ =~= seq!['1']);
    assert("0"@ =~= seq!['0']);
}

/// A floating label is an object: its text `l` in quotes, its place `x` and `y`, how many
/// characters are typed `t`, and whether it is selected `s`.
pub proof fn law_floating_labels_are_objects(it: RenderItem, label: Seq<char>)
    ensures
        item_text(it, label) == object_text(
            seq![
                (seq!['l'], quoted(label)),
                (seq!['x'], decimal(it.x as int)),
                (seq!['y'], decimal(it.y as int)),
                (seq!['t'], decimal(it.typed as int)),
                (
                    seq!['s'],
                    if it.selected {
                        seq!['1']
                    } else {
                        seq!['0']
                    },
                ),
            ],
        ),
{
    lemma_bits(it.selected);
    lemma_five_pairs(
        (seq!['l'], quoted(label)),
        (seq!['x'], decimal(it.x as int)),
        (seq!['y'], decimal(it.y as int)),
        (seq!['t'], decimal(it.typed as int)),
        (seq!['s'], bit(it.selected)),
    );
    reveal_strlit("{l:\"");
    reveal_strlit("\",x:");
    reveal_strlit(",y:");
    reveal_strlit(",t:");
    reveal_strlit(",s:");
    reveal_strlit("}");
    assert("{l:\""@ =~= seq!['{'] + seq!['l'] + seq![':'] + seq!['"']);
    assert("\",x:"@ =~= seq!['"'] + seq![','] + seq!['x'] + seq![':']);
    assert(",y:"@ =~= seq![','] + seq!['y'] + seq![':']);
    assert(",t:"@ =~= seq![','] + seq!['t'] + seq![':']);
    assert(",s:"@ =~= seq![','] + seq!['s'] + seq![':']);
    assert("}"@ =~= seq!['}']);
    assert(item_text(it, label) =~= seq!['{'] + seq!['l'] + seq![':'] + quoted(label) + seq![',']
        + seq!['x'] + seq![':'] + decimal(it.x as int) + seq![','] + seq!['y'] + seq![':'] + decimal(
        it.y as int,
    ) + seq![','] + seq!['t'] + seq![':'] + decimal(it.typed as int) + seq![','] + seq!['s']
        + seq![':'] + bit(it.selected) + seq!['}']);
}

/// A results row is an object: its code `l` and its name `n` in quotes, the name escaped,
/// and whether it is selected `s`.
pub proof fn law_rows_are_objects(r: ListRow, label: Seq<char>)
    ensures
        row_text(r, label) == object_text(
            seq![
                (seq!['l'], quoted(label)),
                (seq!['n'], quoted(escaped(r.name@))),
                (
                    seq!['s'],
                    if r.selected {
                        seq!['1']
                    } else {
                        seq!['0']
                    },
                ),
            ],
        ),
{
    lemma_bits(r.selected);
    lemma_three_pairs(
        (seq!['l'], quoted(label)),
        (seq!['n'], quoted(escaped(r.name@))),
        (seq!['s'], bit(r.selected)),
    );
    reveal_strlit("{l:\"");
    reveal_strlit("\",n:\"");
    reveal_strlit("\",s:");
    reveal_strlit("}");
    assert("{l:\""@ =~= seq!['{'] + seq!['l'] + seq![':'] + seq!['"']);
    assert("\",n:\""@ =~= seq!['"'] + seq![','] + seq!['n'] + seq![':'] + seq!['"']);
    assert("\",s:"@ =~= seq!['"'] + seq![','] + seq!['s'] + seq![':']);
    assert("}"@ =~= seq!['}']);
    assert(row_text(r, label) =~= seq!['{'] + seq!['l'] + seq![':'] + quoted(label) + seq![',']
        + seq!['n'] + seq![':'] + quoted(escaped(r.name@)) + seq![','] + seq!['s'] + seq![':']
        + bit(r.selected) + seq!['}']);
}

/// A resize handle is an object: its label `l` in quotes, its place `x` and `y`, whether it
/// is selected `s`, and whether it belongs to a splitter `p`.
pub proof fn law_handles_are_objects(it: ResizeHandleItem, label: Seq<char>)
    ensures
        handle_text(it, label) == object_text(
            seq![
                (seq!['l'], quoted(label)),
                (seq!['x'], decimal(it.x as int)),
                (seq!['y'], decimal(it.y as int)),
                (
                    seq!['s'],
                    if it.selected {
                        seq!['1']
                    } else {
                        seq!['0']
                    },
                ),
                (
                    seq!['p'],
                    if it.splitter {
                        seq!['1']
                    } else {
                        seq!['0']
                    },
                ),
            ],
        ),
{
    lemma_bits(it.selected);
    lemma_bits(it.splitter);
    lemma_five_pairs(
        (seq!['l'], quoted(label)),
        (seq!['x'], decimal(it.x as int)),
        (seq!['y'], decimal(it.y as int)),
        (seq!['s'], bit(it.selected)),
        (seq!['p'], bit(it.splitter)),
    );
    reveal_strlit("{l:\"");
    reveal_strlit("\",x:");
    reveal_strlit(",y:");
    reveal_strlit(",s:");
    reveal_strlit(",p:");
    reveal_strlit("}");
    assert("{l:\""@ =~= seq!['{'] + seq!['l'] + seq![':'] + seq!['"']);
    assert("\",x:"@ =~= seq!['"'] + seq![','] + seq!['x'] + seq![':']);
    assert(",y:"@ =~= seq![','] + seq!['y'] + seq![':']);
    assert(",s:"@ =~= seq![','] + seq!['s'] + seq![':']);
    assert(",p:"@ =~= seq![','] + seq!['p'] + seq![':']);
    assert("}"@ =~= seq!['}']);
    assert(handle_text(it, label) =~= seq!['{'] + seq!['l'] + seq![':'] + quoted(label) + seq![',']
        + seq!['x'] + seq![':'] + decimal(it.x as int) + seq![','] + seq!['y'] + seq![':'] + decimal(
        it.y as int,
    ) + seq![','] + seq!['s'] + seq![':'] + bit(it.selected) + seq![','] + seq!['p'] + seq![':']
        + bit(it.splitter) + seq!['}']);
}

/// The first texts of a list do not depend on what comes behind them.
proof fn lemma_commas_push(texts: Seq<Seq<char>>, more: Seq<char>, count: int)
    requires
        count <= texts.len(),
    ensures
        comma_separated(texts.push(more), count) == comma_separated(texts, count),
    decreases count,
{
    if count > 1 {
        lemma_commas_push(texts, more, count - 1);
    }
}

/// A list in brackets grows at its end, by the new text and a comma before it unless it is
/// the first; the empty list is the two brackets.
pub proof fn law_lists_grow_at_the_end(texts: Seq<Seq<char>>, more: Seq<char>)
    ensures
        bracketed(Seq::empty()) == seq!['[', ']'],
        texts.len() == 0 ==> bracketed(texts.push(more)) == seq!['['] + more + seq![']'],
        texts.len() > 0 ==> bracketed(texts.push(more)) == bracketed(texts).drop_last() + seq![',']
            + more + seq![']'],
{
    let n = texts.len() as int;
    reveal_strlit("[");
    reveal_strlit("]");
    reveal_strlit(",");
    assert("["@ =~= seq!['[']);
    assert("]"@ =~= seq![']']);
    assert(","@ =~= seq![',']);
    assert(bracketed(Seq::empty()) =~= seq!['[', ']']);
    lemma_commas_push(texts, more, n);
    if n == 0 {
        assert(texts.push(more)[0] == more);
        assert(bracketed(texts.push(more)) =~= seq!['['] + more + seq![']']);
    } else {
        assert(texts.push(more)[n] == more);
        assert(bracketed(texts.push(more)) =~= bracketed(texts).drop_last() + seq![','] + more
            + seq![']']);
    }
}

/// The lists that are handed to the page have one object for each label, row or handle, in
/// their order, with the label in capitals.
pub proof fn law_lists_hold_every_entry(
    items: Seq<RenderItem>,
    rows: Seq<ListRow>,
    handles: Seq<ResizeHandleItem>,
)
    ensures
        items_text(items) == bracketed(
            Seq::new(items.len(), |k: int| item_text(items[k], uppered(items[k].label@))),
        ),
        rows_text(rows) == bracketed(
            Seq::new(rows.len(), |k: int| row_text(rows[k], uppered(rows[k].label@))),
        ),
        handles_text(handles) == bracketed(
            Seq::new(handles.len(), |k: int| handle_text(handles[k], uppered(handles[k].label@))),
        ),
{
    assert(items.map_values(|it: RenderItem| item_text(it, uppered(it.label@))) =~= Seq::new(
        items.len(),
        |k: int| item_text(items[k], uppered(items[k].label@)),
    ));
    assert(rows.map_values(|r: ListRow| row_text(r, uppered(r.label@))) =~= Seq::new(
        rows.len(),
        |k: int| row_text(rows[k], uppered(rows[k].label@)),
    ));
    assert(handles.map_values(|it: ResizeHandleItem| handle_text(it, uppered(it.label@)))
        =~= Seq::new(
        handles.len(),
        |k: int| handle_text(handles[k], uppered(handles[k].label@)),
    ));
}

/// The script of hint mode calls `render` with one object: the floating labels `float`, the
/// query `q` and the badge `mode` in quotes, the query escaped, and the rows `top` and
/// `bot`.
pub proof fn law_hint_script_calls_render(
    floating: Seq<RenderItem>,
    query: Seq<char>,
    badge: Seq<char>,
    top: Seq<ListRow>,
    bottom: Seq<ListRow>,
)
    ensures
        render_text(floating, query, badge, top, bottom) == seq!['r', 'e', 'n', 'd', 'e', 'r', '(']
            + object_text(
            seq![
                (seq!['f', 'l', 'o', 'a', 't'], items_text(floating)),
                (seq!['q'], quoted(escaped(query))),
                (seq!['m', 'o', 'd', 'e'], quoted(badge)),
                (seq!['t', 'o', 'p'], rows_text(top)),
                (seq!['b', 'o', 't'], rows_text(bottom)),
            ],
        ) + seq![')'],
{
    lemma_five_pairs(
        (seq!['f', 'l', 'o', 'a', 't'], items_text(floating)),
        (seq!['q'], quoted(escaped(query))),
        (seq!['m', 'o', 'd', 'e'], quoted(badge)),
        (seq!['t', 'o', 'p'], rows_text(top)),
        (seq!['b', 'o', 't'], rows_text(bottom)),
    );
    let call = seq!['r', 'e', 'n', 'd', 'e', 'r', '('];
    assert("render({float:"@ =~= call + seq!['{'] + seq!['f', 'l', 'o', 'a', 't'] + seq![':']) by {
        reveal_strlit("render({float:");
    }
    assert(",q:\""@ =~= seq![','] + seq!['q'] + seq![':'] + seq!['"']) by {
        reveal_strlit(",q:\"");
    }
    assert("\",mode:\""@ =~= seq!['"'] + seq![','] + seq!['m', 'o', 'd', 'e'] + seq![':']
        + seq!['"']) by {
        reveal_strlit("\",mode:\"");
    }
    assert("\",top:"@ =~= seq!['"'] + seq![','] + seq!['t', 'o', 'p'] + seq![':']) by {
        reveal_strlit("\",top:");
    }
    assert(",bot:"@ =~= seq![','] + seq!['b', 'o', 't'] + seq![':']) by {
        reveal_strlit(",bot:");
    }
    assert("})"@ =~= seq!['}'] + seq![')']) by {
        reveal_strlit("})");
    }
    lemma_five_in_call(
        call,
        seq!['f', 'l', 'o', 'a', 't'],
        items_text(floating),
        seq!['q'],
        escaped(query),
        seq!['m', 'o', 'd', 'e'],
        badge,
        seq!['t', 'o', 'p'],
        rows_text(top),
        seq!['b', 'o', 't'],
        rows_text(bottom),
    );
}

/// The pieces of a call with five pairs, of which the second and the third are quoted,
/// put together in two ways.
proof fn lemma_five_in_call(
    call: Seq<char>,
    ka: Seq<char>,
    a: Seq<char>,
    kb: Seq<char>,
    b: Seq<char>,
    kc: Seq<char>,
    c: Seq<char>,
    kd: Seq<char>,
    d: Seq<char>,
    ke: Seq<char>,
    e: Seq<char>,
)
    ensures
        ({
            let open = seq!['{'];
            let colon = seq![':'];
            let comma = seq![','];
            let quote = seq!['"'];
            let close = seq!['}'];
            let end = seq![')'];
            (call + open + ka + colon) + a + (comma + kb + colon + quote) + b + (quote + comma + kc
                + colon + quote) + c + (quote + comma + kd + colon) + d + (comma + ke + colon) + e
                + (close + end) == call + (open + ka + colon + a + comma + kb + colon + quoted(b)
                + comma + kc + colon + quoted(c) + comma + kd + colon + d + comma + ke + colon + e
                + close) + end
        }),
{
    let open = seq!['{'];
    let colon = seq![':'];
    let comma = seq![','];
    let quote = seq!['"'];
    let close = seq!['}'];
    let end = seq![')'];
    let one = (call + open + ka + colon) + a + (comma + kb + colon + quote) + b;
    assert(one + quote =~= call + (open + ka + colon + a + comma + kb + colon + quoted(b)));
    let two = one + (quote + comma + kc + colon + quote) + c;
    assert(two =~= (one + quote) + (comma + kc + colon + quote) + c);
    assert(two + quote =~= call + (open + ka + colon + a + comma + kb + colon + quoted(b) + comma
        + kc + colon + quoted(c))) by {
        let left = open + ka + colon + a + comma + kb + colon + quoted(b);
        assert((call + left) + (comma + kc + colon + quote) + c + quote =~= call + (left + comma
            + kc + colon + quoted(c)));
    }
    let left = open + ka + colon + a + comma + kb + colon + quoted(b) + comma + kc + colon + quoted(
        c,
    );
    let three = two + (quote + comma + kd + colon) + d + (comma + ke + colon) + e + (close + end);
    assert(three =~= (two + quote) + (comma + kd + colon) + d + (comma + ke + colon) + e + (close
        + end));
    assert((call + left) + (comma + kd + colon) + d + (comma + ke + colon) + e + (close + end)
        =~= call + (left + comma + kd + colon + d + comma + ke + colon + e + close) + end);
}

/// The pairs of an object with four of them.
proof fn lemma_four_pairs(
    a: (Seq<char>, Seq<char>),
    b: (Seq<char>, Seq<char>),
    c: (Seq<char>, Seq<char>),
    d: (Seq<char>, Seq<char>),
)
    ensures
        object_text(seq![a, b, c, d]) == seq!['{'] + a.0 + seq![':'] + a.1 + seq![','] + b.0
            + seq![':'] + b.1 + seq![','] + c.0 + seq![':'] + c.1 + seq![','] + d.0 + seq![':']
            + d.1 + seq!['}'],
{
    let none = Seq::<(Seq<char>, Seq<char>)>::empty();
    lemma_pairs_push(none, a.0, a.1);
    lemma_pairs_push(none.push(a), b.0, b.1);
    lemma_pairs_push(none.push(a).push(b), c.0, c.1);
    lemma_pairs_push(none.push(a).push(b).push(c), d.0, d.1);
    assert(seq![a, b, c, d] =~= none.push(a).push(b).push(c).push(d));
    assert(object_text(seq![a, b, c, d]) =~= seq!['{'] + a.0 + seq![':'] + a.1 + seq![','] + b.0
        + seq![':'] + b.1 + seq![','] + c.0 + seq![':'] + c.1 + seq![','] + d.0 + seq![':'] + d.1
        + seq!['}']);
}

/// The script of resize mode calls `renderResize` with one object: the handles `handles`,
/// the width `w` and the height `h`, and the label `sel` of what is grabbed, in quotes and
/// escaped, empty if nothing is.
pub proof fn law_resize_script_calls_render_resize(
    handles: Seq<ResizeHandleItem>,
    hud: ResizeHud,
    grabbed: Seq<char>,
)
    requires
        hud.selected_label is None ==> grabbed.len() == 0,
        hud.selected_label matches Some(label) ==> grabbed == label@,
    ensures
        render_resize_text(handles, hud) == seq![
            'r',
            'e',
            'n',
            'd',
            'e',
            'r',
            'R',
            'e',
            's',
            'i',
            'z',
            'e',
            '(',
        ] + object_text(
            seq![
                (seq!['h', 'a', 'n', 'd', 'l', 'e', 's'], handles_text(handles)),
                (seq!['w'], decimal(hud.width as int)),
                (seq!['h'], decimal(hud.height as int)),
                (seq!['s', 'e', 'l'], quoted(escaped(grabbed))),
            ],
        ) + seq![')'],
{
    if hud.selected_label is None {
        assert(grabbed =~= Seq::empty());
    }
    lemma_four_pairs(
        (seq!['h', 'a', 'n', 'd', 'l', 'e', 's'], handles_text(handles)),
        (seq!['w'], decimal(hud.width as int)),
        (seq!['h'], decimal(hud.height as int)),
        (seq!['s', 'e', 'l'], quoted(escaped(grabbed))),
    );
    let call = seq!['r', 'e', 'n', 'd', 'e', 'r', 'R', 'e', 's', 'i', 'z', 'e', '('];
    let name = seq!['h', 'a', 'n', 'd', 'l', 'e', 's'];
    assert("renderResize({handles:"@ =~= call + seq!['{'] + name + seq![':']) by {
        reveal_strlit("renderResize({handles:");
    }
    assert(",w:"@ =~= seq![','] + seq!['w'] + seq![':']) by {
        reveal_strlit(",w:");
    }
    assert(",h:"@ =~= seq![','] + seq!['h'] + seq![':']) by {
        reveal_strlit(",h:");
    }
    assert(",sel:\""@ =~= seq![','] + seq!['s', 'e', 'l'] + seq![':'] + seq!['"']) by {
        reveal_strlit(",sel:\"");
    }
    assert("\"})"@ =~= seq!['"'] + seq!['}'] + seq![')']) by {
        reveal_strlit("\"})");
    }
    lemma_four_in_call(
        call,
        name,
        handles_text(handles),
        seq!['w'],
        decimal(hud.width as int),
        seq!['h'],
        decimal(hud.height as int),
        seq!['s', 'e', 'l'],
        escaped(grabbed),
    );
}

/// The pieces of a call with four pairs, of which the last is quoted, put together in two
/// ways.
proof fn lemma_four_in_call(
    call: Seq<char>,
    ka: Seq<char>,
    a: Seq<char>,
    kb: Seq<char>,
    b: Seq<char>,
    kc: Seq<char>,
    c: Seq<char>,
    kd: Seq<char>,
    d: Seq<char>,
)
    ensures
        ({
            let open = seq!['{'];
            let colon = seq![':'];
            let comma = seq![','];
            let quote = seq!['"'];
            let close = seq!['}'];
            let end = seq![')'];
            (call + open + ka + colon) + a + (comma + kb + colon) + b + (comma + kc + colon) + c + (
            comma + kd + colon + quote) + d + (quote + close + end) == call + (open + ka + colon + a
                + comma + kb + colon + b + comma + kc + colon + c + comma + kd + colon + quoted(d)
                + close) + end
        }),
{
    let open = seq!['{'];
    let colon = seq![':'];
    let comma = seq![','];
    let quote = seq!['"'];
    let close = seq!['}'];
    let end = seq![')'];
    let left = open + ka + colon + a + comma + kb + colon + b;
    assert((call + open + ka + colon) + a + (comma + kb + colon) + b =~= call + left);
    assert((call + left) + (comma + kc + colon) + c + (comma + kd + colon + quote) + d + (quote
        + close + end) =~= call + (left + comma + kc + colon + c + comma + kd + colon + quoted(d)
        + close) + end);
}

} // verus!
