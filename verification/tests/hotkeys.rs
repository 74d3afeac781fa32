use windows_gaming_driver::hotkeys::{Key, KeyBinding, KeyboardState, Modifier};
use windows_gaming_driver::hotkeys::linux;
use windows_gaming_driver::hotkeys::qcode;

#[test]
fn linux_codes_to_keys() {
    assert_eq!(linux::key_convert(1), Some(Key::Escape));
    assert_eq!(linux::key_convert(30), Some(Key::A));
    assert_eq!(linux::key_convert(29), Some(Key::LControlKey));
    assert_eq!(linux::key_convert(0), None);
    assert_eq!(linux::key_convert(100000), None);
}

#[test]
fn keys_to_qcodes() {
    assert_eq!(qcode::key_convert(Key::A), "a");
    assert_eq!(qcode::key_convert(Key::LControlKey), "ctrl");
    assert_eq!(qcode::key_convert(Key::Escape), "esc");
}

#[test]
fn virtual_key_codes() {
    assert_eq!(Key::A.code(), 0x41);
    assert_eq!(Key::Insert.code(), 0x2D);
    assert_eq!(Key::LControlKey.modifier(), Some(Modifier::Ctrl));
    assert_eq!(Key::A.modifier(), None);
}

#[test]
fn binding_to_windows_flags() {
    let b = KeyBinding::new(vec![Modifier::Ctrl, Modifier::Alt], Key::Insert, true);
    assert_eq!(b.to_windows(), (0x4000 | 0x2 | 0x1, 0x2D));
    let b = KeyBinding::new(vec![Modifier::Shift], Key::A, false);
    assert_eq!(b.to_windows(), (0x4, 0x41));
    assert_eq!(Modifier::Win.bits(), 0x8);
}

#[test]
fn binding_matches_held_modifiers() {
    let b = KeyBinding::new(vec![Modifier::Ctrl, Modifier::Alt], Key::Insert, true);
    assert!(b.matches(&[Modifier::Alt, Modifier::Shift, Modifier::Ctrl], Key::Insert));
    assert!(!b.matches(&[Modifier::Alt], Key::Insert));
    assert!(!b.matches(&[Modifier::Alt, Modifier::Ctrl], Key::A));
}

#[test]
fn keyboard_state_fires_bindings() {
    let bindings = vec![
        KeyBinding::new(vec![Modifier::Ctrl], Key::A, false),
        KeyBinding::new(vec![], Key::A, false),
        KeyBinding::new(vec![Modifier::Shift], Key::A, false),
    ];
    let mut kb = KeyboardState::new(&bindings);
    let (fired, q) = kb.input_linux(29, true).unwrap();
    assert!(fired.is_empty());
    assert_eq!(q, "ctrl");
    let (fired, q) = kb.input_linux(30, true).unwrap();
    assert_eq!(fired, vec![0, 1]);
    assert_eq!(q, "a");
    let (fired, _) = kb.input_linux(30, false).unwrap();
    assert!(fired.is_empty());
    kb.input_linux(29, false).unwrap();
    let (fired, _) = kb.input_linux(30, true).unwrap();
    assert_eq!(fired, vec![1]);
    assert!(kb.input_linux(0, true).is_none());
}

#[test]
fn modifier_tap_restores_state() {
    let bindings = vec![KeyBinding::new(vec![Modifier::Shift], Key::A, false)];
    let mut kb = KeyboardState::new(&bindings);
    kb.input_linux(42, true).unwrap();
    kb.input_linux(29, true).unwrap();
    kb.input_linux(29, false).unwrap();
    let (fired, _) = kb.input_linux(30, true).unwrap();
    assert_eq!(fired, vec![0]);
    kb.input_linux(42, false).unwrap();
    let (fired, _) = kb.input_linux(30, true).unwrap();
    assert!(fired.is_empty());
}

#[test]
fn held_modifier_counted_once() {
    let bindings = vec![KeyBinding::new(vec![Modifier::Ctrl], Key::A, false)];
    let mut kb = KeyboardState::new(&bindings);
    kb.input_linux(29, true).unwrap();
    kb.input_linux(97, true).unwrap();
    kb.input_linux(29, false).unwrap();
    let (fired, _) = kb.input_linux(30, true).unwrap();
    assert!(fired.is_empty());
}
