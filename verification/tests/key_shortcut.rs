use pike::key_shortcut::{
    KeyCode, KeyEvent, KeyEventKind, KeyModifiers, KeyShortcut, KeybindFault,
};

#[test]
fn from_event() {
    let events = [
        KeyEvent::new(KeyCode::Char('q'), KeyModifiers::empty()),
        KeyEvent::new(KeyCode::Char('s'), KeyModifiers::shift()),
        KeyEvent::new(KeyCode::Char('p'), KeyModifiers::shift() | KeyModifiers::control()),
        KeyEvent::new(
            KeyCode::Char('y'),
            KeyModifiers::shift() | KeyModifiers::control() | KeyModifiers::alt(),
        ),
        KeyEvent::new(
            KeyCode::Null,
            KeyModifiers::shift() | KeyModifiers::control() | KeyModifiers::alt(),
        ),
        KeyEvent::new(KeyCode::Esc, KeyModifiers::shift()),
        KeyEvent::new(KeyCode::F(1), KeyModifiers::shift()),
    ];

    let shortcuts = events.map(|event| KeyShortcut::from_key_event(&event));

    for (event, shortcut) in events.iter().zip(shortcuts.iter()) {
        assert_eq!(
            shortcut.code, event.code,
            "Keycode {:?} does not match {:?}",
            event.code, shortcut.code
        );
        assert_eq!(
            shortcut.modifiers, event.modifiers,
            "Modifier {:?} does not match {:?}",
            event.modifiers, shortcut.modifiers
        );
    }
}

#[test]
fn from_string_valid_test_cases() {
    let strings_and_keymaps = vec![
        ("q", KeyShortcut::new(KeyCode::Char('q'), KeyModifiers::empty())),
        ("shift+s", KeyShortcut::new(KeyCode::Char('s'), KeyModifiers::shift())),
        (
            "ctrl+shift+Y",
            KeyShortcut::new(KeyCode::Char('y'), KeyModifiers::shift() | KeyModifiers::control()),
        ),
        (
            "y+shift+Ctrl",
            KeyShortcut::new(KeyCode::Char('y'), KeyModifiers::shift() | KeyModifiers::control()),
        ),
        (
            "Ctrl+Shift+Alt",
            KeyShortcut::new(
                KeyCode::Null,
                KeyModifiers::shift() | KeyModifiers::control() | KeyModifiers::alt(),
            ),
        ),
        ("esc+shift", KeyShortcut::new(KeyCode::Esc, KeyModifiers::shift())),
        ("shift+f1", KeyShortcut::new(KeyCode::F(1), KeyModifiers::shift())),
    ];

    let actual = strings_and_keymaps
        .iter()
        .map(|(s, _)| KeyShortcut::from_string(s).expect("Failed to parse valid keybind"))
        .collect::<Vec<KeyShortcut>>();

    for i in 0..actual.len() {
        assert_eq!(strings_and_keymaps[i].1, actual[i]);
    }
}

#[test]
fn from_string_invalid_cases() {
    let invalid_strings = vec!["", "a+b", "abc", "ctrl+shift+alt+del+ctrl"];
    for s in invalid_strings {
        assert!(KeyShortcut::from_string(s).is_err());
    }
}

#[test]
fn from_string_names_the_fault_and_the_text() {
    let two_keys = KeyShortcut::from_string("a+b").unwrap_err();
    assert_eq!(two_keys.fault, KeybindFault::MultipleKeycodes);
    assert_eq!(two_keys.keybind, "a+b");
    assert_eq!(
        two_keys.message(),
        "More than one non-modifier keycode in keybind: a+b"
    );

    let unknown = KeyShortcut::from_string("ctrl+abc").unwrap_err();
    assert_eq!(unknown.fault, KeybindFault::UnknownKey);
    assert_eq!(unknown.keybind, "ctrl+abc");

    let empty = KeyShortcut::from_string("").unwrap_err();
    assert_eq!(empty.fault, KeybindFault::UnknownKey);

    let none: Vec<String> = Vec::new();
    assert_eq!(KeyShortcut::from_elements(&none), Err(KeybindFault::Empty));
}

#[test]
fn from_string_folds_case_before_it_reads() {
    // Would fail if the elements were read as written.
    assert_eq!(
        KeyShortcut::from_string("CTRL+ENTER").expect("a chord"),
        KeyShortcut::new(KeyCode::Enter, KeyModifiers::control())
    );
    let upper: Vec<String> = vec!["CTRL".to_string(), "x".to_string()];
    assert_eq!(
        KeyShortcut::from_elements(&upper),
        Err(KeybindFault::UnknownKey)
    );
}

#[test]
fn from_string_reads_every_named_key() {
    let named = [
        ("esc", KeyCode::Esc),
        ("backspace", KeyCode::Backspace),
        ("enter", KeyCode::Enter),
        ("left", KeyCode::Left),
        ("right", KeyCode::Right),
        ("up", KeyCode::Up),
        ("down", KeyCode::Down),
        ("home", KeyCode::Home),
        ("end", KeyCode::End),
        ("pageup", KeyCode::PageUp),
        ("pagedown", KeyCode::PageDown),
        ("tab", KeyCode::Tab),
        ("backtab", KeyCode::BackTab),
        ("delete", KeyCode::Delete),
        ("insert", KeyCode::Insert),
        ("f1", KeyCode::F(1)),
        ("f2", KeyCode::F(2)),
        ("f3", KeyCode::F(3)),
        ("f4", KeyCode::F(4)),
        ("f5", KeyCode::F(5)),
        ("f6", KeyCode::F(6)),
        ("f7", KeyCode::F(7)),
        ("f8", KeyCode::F(8)),
        ("f9", KeyCode::F(9)),
        ("f10", KeyCode::F(10)),
        ("f11", KeyCode::F(11)),
        ("f12", KeyCode::F(12)),
        ("ę", KeyCode::Char('ę')),
    ];
    for (text, code) in named {
        let parsed = KeyShortcut::from_string(text).expect("a named key");
        assert_eq!(parsed, KeyShortcut::new(code, KeyModifiers::none()));
    }
    assert!(KeyShortcut::from_string("f13").is_err());
}

#[test]
fn modifiers_gather_whatever_their_order_and_number() {
    let once = KeyShortcut::from_string("ctrl+alt+x").expect("a chord");
    let twice = KeyShortcut::from_string("alt+x+ctrl+alt+ctrl").expect("a chord");
    assert_eq!(once, twice);
    assert!(once.modifiers.contains(KeyModifiers::control()));
    assert!(once.modifiers.contains(KeyModifiers::alt()));
    assert!(!once.modifiers.contains(KeyModifiers::shift()));
    assert!(!once.is_empty());
    assert!(KeyShortcut::new(KeyCode::Null, KeyModifiers::none()).is_empty());
    assert!(KeyModifiers::none().is_empty());
    assert_eq!(
        KeyModifiers::shift().union(KeyModifiers::alt()),
        KeyModifiers::shift() | KeyModifiers::alt()
    );
}

#[test]
fn key_events_are_presses() {
    let event = KeyEvent::new(KeyCode::Tab, KeyModifiers::none());
    assert_eq!(event.kind, KeyEventKind::Press);
}

#[test]
fn chords_are_written_as_a_configuration_writes_them() {
    let all = KeyModifiers {
        shift: true,
        control: true,
        alt: true,
        super_key: true,
        hyper: true,
        meta: true,
    };
    assert_eq!(
        KeyShortcut::new(KeyCode::F(12), all).describe(),
        "ctrl+shift+alt+super+hyper+meta+f12"
    );
    assert_eq!(
        KeyShortcut::new(KeyCode::Char('ę'), KeyModifiers::none()).describe(),
        "ę"
    );
    assert_eq!(
        KeyShortcut::new(KeyCode::Null, KeyModifiers::shift() | KeyModifiers::alt()).describe(),
        "shift+alt"
    );
    assert_eq!(
        KeyShortcut::new(KeyCode::Null, KeyModifiers::none()).describe(),
        ""
    );
    assert_eq!(
        KeyShortcut::new(KeyCode::F(40), KeyModifiers::control()).describe(),
        "ctrl+f"
    );
    // What is written is read back.
    for text in ["ctrl+shift+x", "alt+pagedown", "esc", "ctrl+alt+f7", "shift+backtab"] {
        let chord = KeyShortcut::from_string(text).expect("a chord");
        assert_eq!(chord.describe(), text);
        assert_eq!(
            KeyShortcut::from_string(&chord.describe()).expect("a chord"),
            chord
        );
    }
}
