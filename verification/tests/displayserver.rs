use hid_io_core::module::displayserver::quartz::{typing_plan, QuartzConnection, TypingStep, KEYCODE_RETURN, KEYCODE_TAB};
use hid_io_core::module::displayserver::winapi::{
    encode_utf16, keyboard_delay_ms, keyboard_speed_us, DisplayConnection, KeyboardEvent,
};
use hid_io_core::module::displayserver::x11::{
    classify_row, find_keycode, keycode_rounds, keysym_name, special_keysym, typed_symbols, RowState,
    XConnection,
};
use hid_io_core::module::displayserver::{
    release_held, symbols_to_release, DisplayOutput, DisplayOutputError, StubOutput,
};

fn chars(s: &str) -> Vec<char> {
    s.chars().collect()
}

#[test]
fn x11_classify_rows() {
    assert_eq!(classify_row(&vec![0, 0x61], 0x61), RowState::Found);
    assert_eq!(classify_row(&vec![0, 0x62, 0x61], 0x61), RowState::Taken);
    assert_eq!(classify_row(&vec![0, 0], 0x61), RowState::Empty);
    assert_eq!(classify_row(&vec![], 0x61), RowState::Empty);
    // A zero keysym is found at the first zero symbol
    assert_eq!(classify_row(&vec![0, 5], 0), RowState::Found);
}

#[test]
fn x11_find_keycode_prefers_first_empty_row() {
    let rows = vec![vec![0x61, 0x41], vec![0, 0], vec![0, 0]];
    assert_eq!(find_keycode(&rows, 8, 0x62), (true, Some(9)));
    // An empty row wins over a row that already holds the keysym
    assert_eq!(find_keycode(&rows, 8, 0x61), (true, Some(9)));
}

#[test]
fn x11_find_keycode_last_found_row() {
    let rows = vec![vec![0x61], vec![0x62], vec![0x61, 0]];
    assert_eq!(find_keycode(&rows, 8, 0x61), (false, Some(10)));
    assert_eq!(find_keycode(&rows, 8, 0x63), (false, None));
    assert_eq!(find_keycode(&vec![], 8, 0x63), (false, None));
}

#[test]
fn x11_special_keysyms_and_names() {
    assert_eq!(special_keysym('\n'), Some(0xFF0D));
    assert_eq!(special_keysym('\t'), Some(0xFF09));
    assert_eq!(special_keysym('a'), None);
    assert_eq!(keysym_name('a'), "U61");
    assert_eq!(keysym_name('\u{e9}'), "Ue9");
    assert_eq!(keysym_name('\u{1F600}'), "U1f600");
}

#[test]
fn x11_map_unmap_get() {
    let mut conn = XConnection::new();
    let rows = vec![vec![0x61, 0x41], vec![0, 0]];
    // An empty keycode must be bound and is remembered
    assert_eq!(conn.map_sym('z', &rows, 8, 0x7a), (Some(9), true));
    assert_eq!(conn.charmap.get('z'), Some(9));
    // A keycode that already holds the keysym is used as is
    let full = vec![vec![0x61, 0x41], vec![0x62, 0x42]];
    assert_eq!(conn.map_sym('a', &full, 8, 0x61), (Some(8), false));
    assert_eq!(conn.charmap.get('a'), None);
    // No keycode at all
    assert_eq!(conn.map_sym('c', &full, 8, 0x63), (None, false));
    assert_eq!(conn.unmap_sym('z'), Some(9));
    assert_eq!(conn.charmap.get('z'), None);
    assert_eq!(conn.unmap_sym('z'), None);
}

#[test]
fn x11_get_sym_looks_up_then_maps() {
    let mut conn = XConnection::new();
    let rows = vec![vec![0x61], vec![0, 0], vec![0]];
    // Not bound yet: mapped on the first empty keycode
    assert_eq!(conn.get_sym('z', &rows, 8, 0x7a), (Some(9), true));
    // Bound: the same keycode, nothing to bind, whatever the mapping says now
    let full = vec![vec![0x61], vec![0x7a], vec![0x62]];
    assert_eq!(conn.get_sym('z', &full, 8, 0x7a), (Some(9), false));
    // Not bound, keysym already on a keycode: that keycode, nothing remembered
    assert_eq!(conn.get_sym('a', &full, 8, 0x61), (Some(8), false));
    assert_eq!(conn.charmap.get('a'), None);
}

#[test]
fn x11_record_press_and_release() {
    let mut conn = XConnection::new();
    let rows = vec![vec![0, 0]];
    conn.map_sym('q', &rows, 20, 0x71);
    assert_eq!(conn.record_symbol('q', true), None);
    assert_eq!(conn.record_symbol('w', true), None);
    assert_eq!(conn.record_symbol('q', true), None);
    assert_eq!(conn.held, vec!['q', 'w', 'q']);
    // Releasing forgets the mapping and the first held copy
    assert_eq!(conn.record_symbol('q', false), Some(20));
    assert_eq!(conn.held, vec!['w', 'q']);
    assert_eq!(conn.charmap.get('q'), None);
}

#[test]
fn x11_keycode_rounds_split_on_repeats() {
    let codes: Vec<u32> = "The tall moose".chars().map(|c| c as u32).collect();
    let rounds = keycode_rounds(&codes);
    let expect: Vec<Vec<u32>> = vec!["The tal", "l mo", "ose"]
        .into_iter()
        .map(|s| s.chars().map(|c| c as u32).collect())
        .collect();
    assert_eq!(rounds, expect);
    assert_eq!(keycode_rounds(&vec![]), Vec::<Vec<u32>>::new());
    assert_eq!(keycode_rounds(&vec![5, 5, 5]), vec![vec![5], vec![5], vec![5]]);
}

#[test]
fn x11_pending_delays() {
    let mut conn = XConnection::new();
    conn.update_pending_delays(0);
    assert_eq!(conn.pending_delays, 1);
    conn.update_pending_delays(0);
    assert_eq!(conn.pending_delays, 2);
    conn.update_pending_delays(1);
    assert_eq!(conn.pending_delays, 2);
    conn.update_pending_delays(3);
    assert_eq!(conn.pending_delays, 0);
}

#[test]
fn held_symbols_to_release() {
    assert_eq!(symbols_to_release(&chars("abca"), &chars("b")), chars("aca"));
    assert_eq!(symbols_to_release(&chars("ab"), &chars("ba")), chars(""));
    let mut held = chars("abab");
    release_held(&mut held, 'b');
    assert_eq!(held, chars("aab"));
    release_held(&mut held, 'z');
    assert_eq!(held, chars("aab"));
}

#[test]
fn stub_output_is_unimplemented() {
    let mut s = StubOutput::new();
    assert!(matches!(s.get_layout(), Err(DisplayOutputError::Unimplemented)));
    assert!(matches!(s.set_layout("us"), Err(DisplayOutputError::Unimplemented)));
    assert!(matches!(s.type_string("hi"), Err(DisplayOutputError::Unimplemented)));
    assert!(matches!(s.press_symbol('a', true), Err(DisplayOutputError::Unimplemented)));
    assert!(matches!(s.get_held(), Err(DisplayOutputError::Unimplemented)));
    assert!(matches!(s.set_held("a"), Err(DisplayOutputError::Unimplemented)));
}

#[test]
fn winapi_utf16_and_events() {
    assert_eq!(encode_utf16('a'), vec![0x61]);
    assert_eq!(encode_utf16('\u{1F600}'), vec![0xD83D, 0xDE00]);
    assert_eq!(encode_utf16('\u{FFFF}'), vec![0xFFFF]);
    assert_eq!(encode_utf16('\u{10000}'), vec![0xD800, 0xDC00]);
    let conn = DisplayConnection::new();
    assert_eq!(conn.press_key('a', true), vec![KeyboardEvent { flags: 0x4, vk: 0, scan: 0x61 }]);
    assert_eq!(
        conn.press_key('\u{1F600}', false),
        vec![
            KeyboardEvent { flags: 0x6, vk: 0, scan: 0xD83D },
            KeyboardEvent { flags: 0x6, vk: 0, scan: 0xDE00 }
        ]
    );
}

#[test]
fn winapi_keyboard_timing() {
    assert_eq!(keyboard_delay_ms(0), 250);
    assert_eq!(keyboard_delay_ms(1), 500);
    assert_eq!(keyboard_delay_ms(3), 1000);
    assert_eq!(keyboard_speed_us(0), 500_000);
    assert_eq!(keyboard_speed_us(31), 33_333);
    assert_eq!(keyboard_speed_us(15), 1_000_000 / (2 + 15 * 28 / 31));
}

#[test]
fn winapi_held_symbols() {
    let mut conn = DisplayConnection::new();
    conn.record_symbol('x', true);
    conn.record_symbol('y', true);
    conn.record_symbol('x', false);
    assert_eq!(conn.held, vec!['y']);
}

#[test]
fn quartz_typing_plan_steps() {
    let plan = typing_plan(&chars("ab\ncd\tee"));
    assert_eq!(plan.len(), 6);
    assert!(matches!(&plan[0], TypingStep::Text(v) if *v == chars("ab")));
    assert!(matches!(&plan[1], TypingStep::Key { c: '\n', keycode } if *keycode == KEYCODE_RETURN));
    assert!(matches!(&plan[2], TypingStep::Text(v) if *v == chars("cd")));
    assert!(matches!(&plan[3], TypingStep::Key { c: '\t', keycode } if *keycode == KEYCODE_TAB));
    assert!(matches!(&plan[4], TypingStep::Text(v) if *v == chars("e")));
    assert!(matches!(&plan[5], TypingStep::Text(v) if *v == chars("e")));
    assert!(typing_plan(&chars("")).is_empty());
    let q = QuartzConnection::new();
    assert!(q.held.is_empty());
}

#[test]
fn x11_typed_symbols_skip_nul() {
    assert_eq!(typed_symbols(&chars("a\0b\0")), chars("ab"));
    assert_eq!(typed_symbols(&chars("")), chars(""));
}
