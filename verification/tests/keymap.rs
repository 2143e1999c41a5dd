use hid_io_core::module::displayserver::wayland::Keymap;
use hid_io_core::module::displayserver::DisplayOutputError;

fn chars(s: &str) -> Vec<char> {
    s.chars().collect()
}

fn keysyms(s: &str) -> Vec<Option<u32>> {
    s.chars().map(|c| Some(c as u32)).collect()
}

#[test]
fn keymap_allocates_and_reuses_keycodes() {
    let mut keymap = Keymap::new(false);
    let (codes, regen) = keymap.add(&chars("abc"), &keysyms("abc")).unwrap();
    assert_eq!(codes, vec![8, 9, 10]);
    assert!(!regen);
    let b = keymap.get('b').unwrap();
    assert_eq!(b.keycode, 9);
    assert_eq!(b.refcount, 1);
    assert!(!keymap.remove(&chars("abc")));
    assert!(keymap.get('b').is_none());

    // Freed keycodes go to the back: a new keycode is used for 'b'
    keymap.add(&chars("b"), &keysyms("b")).unwrap();
    keymap.add(&chars("b"), &keysyms("b")).unwrap();
    assert_eq!(keymap.get('b').unwrap().keycode, 11);
    assert_eq!(keymap.get('b').unwrap().refcount, 2);

    let (codes, _) = keymap.add(&chars("z🙊🐇🦜"), &keysyms("z🙊🐇🦜")).unwrap();
    assert_eq!(codes, vec![12, 13, 14, 15]);
    assert_eq!(keymap.get('🦜').unwrap().keysym, '🦜' as u32);
}

#[test]
fn keymap_repeated_symbol_in_one_add() {
    let mut keymap = Keymap::new(true);
    let (codes, regen) = keymap.add(&chars("aba"), &keysyms("aba")).unwrap();
    assert_eq!(codes, vec![8, 9, 8]);
    assert!(regen);
    assert_eq!(keymap.get('a').unwrap().refcount, 2);
    // Only an existing symbol: no new keycode, no regeneration
    let (codes, regen) = keymap.add(&chars("a"), &keysyms("a")).unwrap();
    assert_eq!(codes, vec![8]);
    assert!(!regen);
    // One removal leaves a user, the release of the last user regenerates
    assert!(!keymap.remove(&chars("a")));
    assert!(!keymap.remove(&chars("a")));
    assert!(keymap.remove(&chars("a")));
    assert!(keymap.get('a').is_none());
    // Unknown symbols are skipped
    assert!(!keymap.remove(&chars("q")));
}

#[test]
fn keymap_missing_keysym_changes_nothing() {
    let mut keymap = Keymap::new(false);
    let r = keymap.add(&chars("xy"), &vec![Some(0x78), None]);
    assert!(matches!(r, Err(DisplayOutputError::AllocationFailed('y'))));
    assert!(keymap.get('x').is_none());
    assert_eq!(keymap.unused_keycodes.len(), 248);
}

#[test]
fn keymap_exhaustion_changes_nothing() {
    let mut keymap = Keymap::new(false);
    let all: Vec<char> = (0..248u32).map(|i| char::from_u32(0x100 + i).unwrap()).collect();
    let syms: Vec<Option<u32>> = all.iter().map(|c| Some(*c as u32)).collect();
    let (codes, _) = keymap.add(&all, &syms).unwrap();
    assert_eq!(codes.len(), 248);
    assert_eq!(codes[247], 255);
    assert!(keymap.unused_keycodes.is_empty());
    // One more symbol has no keycode: nothing of this addition is kept
    let r = keymap.add(&chars("\u{100}!"), &keysyms("\u{100}!"));
    assert!(matches!(r, Err(DisplayOutputError::AllocationFailed('!'))));
    assert_eq!(keymap.get('\u{100}').unwrap().refcount, 1);
    assert!(keymap.get('!').is_none());
}

#[test]
fn keymap_event_keycodes() {
    let mut keymap = Keymap::new(false);
    keymap.add(&chars("ab"), &keysyms("ab")).unwrap();
    assert_eq!(keymap.event_keycode('b').unwrap(), 1);
    assert!(matches!(keymap.event_keycode('c'), Err(DisplayOutputError::NoKeycode)));
}

#[test]
fn keymap_layout_text() {
    let mut keymap = Keymap::new(false);
    keymap.add(&chars("a\n"), &vec![Some(0x61), Some(0xff0d)]).unwrap();
    let text = keymap.generate_keymap_string().unwrap();
    assert!(text.starts_with("xkb_keymap {\n\n        xkb_keycodes \"hidio\" {\n            minimum = 8;\n            maximum = 255;\n"));
    assert!(text.contains("\n            <I8> = 8; // a\n            <I9> = 9; // \n\n            indicator 1"));
    assert!(text.contains("xkb_symbols \"hidio\" {\n\n            key <I8> { [ U61 ] }; // a\n            key <I9> { [ Return ] }; // \\n\n        };"));
    assert!(text.ends_with("            };\n        };\n    };\n"));
}

#[test]
fn keymap_layout_masks_keysym() {
    let mut keymap = Keymap::new(false);
    keymap.add(&chars("🦜"), &vec![Some(0x0101F99C)]).unwrap();
    let text = keymap.generate_keymap_string().unwrap();
    assert!(text.contains("key <I8> { [ U1F99C ] }; // 🦜"));
}

#[test]
fn key_and_error_display_forms() {
    let mut keymap = Keymap::new(false);
    keymap.add(&chars("a"), &keysyms("a")).unwrap();
    assert_eq!(keymap.get('a').unwrap().to_string(), "keysym:97 keycode:8 refcount:1");
    assert_eq!(DisplayOutputError::AllocationFailed('x').to_string(), "Allocation failed: x");
    assert_eq!(DisplayOutputError::NoKeycode.to_string(), "No keycode mapped");
    assert_eq!(DisplayOutputError::SetLayoutFailed("us".to_string()).to_string(), "set_layout() failed: us");
    let io = std::io::Error::new(std::io::ErrorKind::Other, "disk");
    assert_eq!(DisplayOutputError::Format(io).to_string(), "Format: disk");
}

#[test]
fn keymap_typing_releases_keys() {
    let mut keymap = Keymap::new(true);
    keymap.add(&chars("b"), &keysyms("b")).unwrap();
    let t = keymap.type_string(&chars("abca"), &keysyms("abca")).unwrap();
    // b keeps keycode 8; a and c get 9 and 10; events count from keycode 8
    assert_eq!(t.keycodes, vec![1, 0, 2, 1]);
    assert!(t.layout_before.unwrap().contains("<I10> = 10; // c"));
    assert!(!t.layout_after.unwrap().contains("// c"));
    // Only 'b' is left, with its one user
    assert_eq!(keymap.get('b').unwrap().refcount, 1);
    assert!(keymap.get('a').is_none());
    assert!(keymap.get('c').is_none());
    assert_eq!(keymap.unused_keycodes.len(), 247);
    let r = keymap.type_string(&chars("x"), &vec![None]);
    assert!(matches!(r, Err(DisplayOutputError::AllocationFailed('x'))));
}
