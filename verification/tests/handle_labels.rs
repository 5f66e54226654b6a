use winhint::handle_labels::{
    handle_from_label, label_for_handle, orientation_glyph, splitter_from_label, splitter_label,
    MAX_SPLITTERS,
};
use winhint::resize::Handle;
use winhint::splitter::Orientation;

#[test]
fn handle_label_maps_to_all_order() {
    // a–h must map to Handle::all() by index (and back).
    for (i, h) in Handle::all().iter().enumerate() {
        let c = (b'a' + i as u8) as char;
        assert_eq!(handle_from_label(c), Some(*h));
        assert_eq!(label_for_handle(*h), c);
    }
}

#[test]
fn handle_label_rejects_out_of_range() {
    assert_eq!(handle_from_label('i'), None); // only 8 handles → a..h
    assert_eq!(handle_from_label('z'), None);
    assert_eq!(handle_from_label('A'), None); // uppercase not accepted
    assert_eq!(handle_from_label('1'), None);
}

#[test]
fn splitter_label_starts_at_i() {
    assert_eq!(splitter_label(0), 'i');
    assert_eq!(splitter_label(1), 'j');
    assert_eq!(splitter_label(MAX_SPLITTERS - 1), 'z'); // 18 labels → i..=z
}

#[test]
fn splitter_from_label_respects_range_and_count() {
    assert_eq!(splitter_from_label('i', 3), Some(0));
    assert_eq!(splitter_from_label('k', 3), Some(2));
    assert_eq!(splitter_from_label('l', 3), None); // within i..z but beyond count
    assert_eq!(splitter_from_label('h', 3), None); // window-handle range, not a splitter
    assert_eq!(splitter_from_label('z', MAX_SPLITTERS), Some(17));
    assert_eq!(splitter_from_label('I', 3), None); // only lowercase is forwarded
}

#[test]
fn handle_and_splitter_labels_are_disjoint() {
    // a–h never resolve to a splitter; i–z never resolve to a window handle.
    for c in 'a'..='h' {
        assert!(handle_from_label(c).is_some());
        assert_eq!(splitter_from_label(c, MAX_SPLITTERS), None);
    }
    for c in 'i'..='z' {
        assert_eq!(handle_from_label(c), None);
        assert!(splitter_from_label(c, MAX_SPLITTERS).is_some());
    }
}

#[test]
fn glyphs_show_the_way_of_the_drag() {
    assert_eq!(orientation_glyph(Orientation::Vertical), "↔");
    assert_eq!(orientation_glyph(Orientation::Horizontal), "↕");
}

#[test]
fn splitter_labels_read_back() {
    for i in 0..MAX_SPLITTERS {
        assert_eq!(splitter_from_label(splitter_label(i), MAX_SPLITTERS), Some(i));
    }
}
