use winhint::message::{
    decode, encode, Intent, Posted, WM_APP_KEY, WM_APP_NAV, WM_APP_NAV_H, WM_APP_TRAY, WM_COMMAND,
    WM_DESTROY,
};

#[test]
fn every_intent_reads_back() {
    let mut all = vec![Intent::Show, Intent::Cancel, Intent::Quit, Intent::Tab, Intent::Resize];
    for shift in [false, true] {
        all.push(Intent::Key { vk: 0x41, shift });
        all.push(Intent::Confirm { shift });
        for way in [false, true] {
            all.push(Intent::Nav { down: way, shift });
            all.push(Intent::NavH { right: way, shift });
        }
    }
    for intent in all {
        let Posted { msg, wparam, lparam } = encode(intent);
        assert_eq!(decode(msg, wparam, lparam), Some(intent));
    }
}

#[test]
fn messages_have_fixed_numbers_and_words() {
    assert_eq!(
        encode(Intent::Key { vk: 0x51, shift: true }),
        Posted { msg: 0x8002, wparam: 0x51, lparam: 1 }
    );
    assert_eq!(
        encode(Intent::Nav { down: true, shift: false }),
        Posted { msg: 0x8007, wparam: 1, lparam: 0 }
    );
    assert_eq!(encode(Intent::Resize), Posted { msg: 0x8008, wparam: 0, lparam: 0 });
    assert_eq!(WM_APP_TRAY, 0x800A);
}

#[test]
fn only_bit_zero_is_shift() {
    assert_eq!(decode(WM_APP_KEY, 0x41, 2), Some(Intent::Key { vk: 0x41, shift: false }));
    assert_eq!(decode(WM_APP_KEY, 0x41, -1), Some(Intent::Key { vk: 0x41, shift: true }));
}

#[test]
fn only_one_means_down_or_right() {
    assert_eq!(decode(WM_APP_NAV, 2, 0), Some(Intent::Nav { down: false, shift: false }));
    assert_eq!(decode(WM_APP_NAV_H, 1, 1), Some(Intent::NavH { right: true, shift: true }));
}

#[test]
fn a_destroyed_window_quits() {
    assert_eq!(decode(WM_DESTROY, 0, 0), Some(Intent::Quit));
}

#[test]
fn other_messages_carry_no_intent() {
    assert_eq!(decode(WM_APP_TRAY, 0, 0), None);
    assert_eq!(decode(WM_COMMAND, 1, 0), None);
    assert_eq!(decode(0x8000, 0, 0), None);
}
