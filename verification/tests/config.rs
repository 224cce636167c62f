use pike::config::{Config, ConfigError};
use pike::key_shortcut::{KeyCode, KeyModifiers, KeyShortcut};
use pike::operations::Operation;

fn ctrl(c: char) -> KeyShortcut {
    KeyShortcut::new(KeyCode::Char(c), KeyModifiers::control())
}

fn ctrl_shift(c: char) -> KeyShortcut {
    KeyShortcut::new(KeyCode::Char(c), KeyModifiers::shift() | KeyModifiers::control())
}

#[test]
fn from_toml_keymap_section_valid_case() {
    let keymap_section = r#"
            [keymaps]
            "ctrl+shift+x" = "open_file"
            "#;

    let actual = Config::from_toml_representation(keymap_section)
        .expect("Failed to parse a valid keymap section");
    let expected = Config {
        key_mappings: vec![
            (ctrl_shift('x'), Operation::OpenFile),
            (ctrl('s'), Operation::SaveBufferToFile),
            (ctrl('n'), Operation::CreateNewBuffer),
            (ctrl('h'), Operation::SwitchToNextBuffer),
            (ctrl('l'), Operation::SwitchToPreviousBuffer),
            (ctrl('b'), Operation::OpenBufferPicker),
            (ctrl('f'), Operation::SearchInCurrentBuffer),
            (ctrl('j'), Operation::SearchAndReplaceInCurrentBuffer),
            (ctrl('z'), Operation::Undo),
            (ctrl('y'), Operation::Redo),
            (ctrl_shift('f'), Operation::FindFilesInCWD),
            (ctrl_shift('p'), Operation::FindTextInCWD),
            (ctrl('q'), Operation::Quit),
        ],
    };
    assert_eq!(expected, actual);
    assert_eq!(actual.len(), 13);
    for (shortcut, op) in expected.key_mappings.iter() {
        assert_eq!(actual.get(shortcut), Some(*op));
    }
    assert_eq!(actual.get(&ctrl('o')), None);
}

#[test]
fn from_toml_representation_keymap_section_duplicates() {
    let representations = [
        r#"
                [keymaps]
                "ctrl+s" = "open_file"
                "ctrl+y" = "open_file"
                "#,
        r#"
                [keymaps]
                "ctrl+s" = "save"
                "ctrl+s" = "open_file"
                "#,
    ];

    for s in representations {
        assert!(
            Config::from_toml_representation(s).is_err(),
            "Failed for: {s}"
        );
    }
}

#[test]
fn from_toml_representation_invalid_keymap_section() {
    let invalid_representations = [
        "keymaps = {invalid}",
        r#"
                [keymaps]
                ctrl+s="nonexisting_action"
                "#,
    ];

    for s in invalid_representations {
        assert!(
            Config::from_toml_representation(s).is_err(),
            "Failed for: {s}"
        );
    }
}

#[test]
fn test_from_file_valid_case() {
    let toml_content = r#"
        [keymaps]
        "ctrl+s" = "save"
    "#;

    let config = Config::from_file(Some(toml_content)).expect("Failed to parse config from file");

    assert_eq!(config.get(&ctrl('s')), Some(Operation::SaveBufferToFile));
}

#[test]
fn test_from_file_no_path() {
    let config = Config::from_file(None).expect("Failed to parse config from file");
    assert_eq!(config, Config::default());
}

#[test]
fn default_table_is_a_bijection() {
    let table = Config::default();
    assert_eq!(table.len(), 13);
    for (i, a) in table.key_mappings.iter().enumerate() {
        for b in table.key_mappings.iter().skip(i + 1) {
            assert_ne!(a.0, b.0);
            assert_ne!(a.1, b.1);
        }
    }
    assert_eq!(table.get(&ctrl('q')), Some(Operation::Quit));
    assert_eq!(table.get(&ctrl_shift('f')), Some(Operation::FindFilesInCWD));
    assert_eq!(table.get(&ctrl('f')), Some(Operation::SearchInCurrentBuffer));
    assert_eq!(table.get(&ctrl('x')), None);
}

#[test]
fn each_fault_of_a_configuration_is_told_apart() {
    let no_document = Config::from_toml_representation("keymaps = {invalid}").unwrap_err();
    assert!(matches!(no_document, ConfigError::Parse(_)));
    assert!(no_document
        .message()
        .starts_with("Error parsing configuration file: "));

    let bad_chord = Config::from_toml_representation("[keymaps]\n\"a+b\" = \"save\"").unwrap_err();
    assert!(matches!(bad_chord, ConfigError::InvalidKeybind(_)));

    let bad_name =
        Config::from_toml_representation("[keymaps]\n\"ctrl+a\" = \"nonexisting_action\"")
            .unwrap_err();
    match bad_name {
        ConfigError::UnknownOperation(e) => {
            assert_eq!(e.name, "nonexisting_action");
            assert_eq!(e.message(), "Invalid operation in config: nonexisting_action");
        }
        other => panic!("unexpected {:?}", other),
    }

    let no_text = Config::from_toml_representation("[keymaps]\n\"ctrl+a\" = 3").unwrap_err();
    match no_text {
        ConfigError::ValueNotText(keybind) => assert_eq!(keybind, "ctrl+a"),
        other => panic!("unexpected {:?}", other),
    }

    // The same chord, written in two ways.
    let twice_chord =
        Config::from_toml_representation("[keymaps]\n\"ctrl+a\" = \"save\"\n\"a+ctrl\" = \"quit\"")
            .unwrap_err();
    assert_eq!(
        twice_chord.message(),
        "Duplicate keybinding found: ctrl+a"
    );
    match twice_chord {
        ConfigError::DuplicateShortcut(shortcut) => assert_eq!(shortcut, ctrl('a')),
        other => panic!("unexpected {:?}", other),
    }

    let twice_operation =
        Config::from_toml_representation("[keymaps]\n\"ctrl+a\" = \"save\"\n\"ctrl+e\" = \"save\"")
            .unwrap_err();
    assert_eq!(
        twice_operation.message(),
        "Duplicate keymap operation found: save"
    );
    match twice_operation {
        ConfigError::DuplicateOperation(op) => assert_eq!(op, Operation::SaveBufferToFile),
        other => panic!("unexpected {:?}", other),
    }
}

#[test]
fn a_conflict_leaves_the_defaults_as_they_are() {
    let defaults = Config::default();
    let overrides = vec![
        (ctrl('a'), Operation::OpenFile),
        (ctrl('a'), Operation::Quit),
    ];
    assert!(Config::build(&defaults, &overrides).is_err());
    let overrides = vec![
        (ctrl('a'), Operation::OpenFile),
        (ctrl('e'), Operation::OpenFile),
    ];
    assert!(Config::build(&defaults, &overrides).is_err());
    assert_eq!(defaults, Config::default());
}

#[test]
fn an_override_takes_the_place_of_what_it_binds_anew() {
    let defaults = Config::default();
    // A swap of two chords is no conflict.
    let swapped = Config::build(
        &defaults,
        &vec![
            (ctrl('s'), Operation::OpenFile),
            (ctrl('o'), Operation::SaveBufferToFile),
        ],
    )
    .expect("a table");
    assert_eq!(swapped.len(), 13);
    assert_eq!(swapped.get(&ctrl('s')), Some(Operation::OpenFile));
    assert_eq!(swapped.get(&ctrl('o')), Some(Operation::SaveBufferToFile));

    // An override that takes the chord of another default displaces it.
    let taken = Config::build(&defaults, &vec![(ctrl('s'), Operation::OpenFile)]).expect("a table");
    assert_eq!(taken.len(), 12);
    assert_eq!(taken.get(&ctrl('s')), Some(Operation::OpenFile));
    assert_eq!(taken.get(&ctrl('o')), None);
    assert_ne!(taken, defaults);

    let merged = defaults.merge(&vec![(ctrl('a'), Operation::Quit)]);
    assert_eq!(merged.get(&ctrl('a')), Some(Operation::Quit));
    assert_eq!(merged.get(&ctrl('q')), None);
}

#[test]
fn a_document_without_keymaps_gives_the_defaults() {
    let config = Config::from_toml_representation("title = \"x\"").expect("a table");
    assert_eq!(config, Config::default());
    let config = Config::from_toml_representation("").expect("a table");
    assert_eq!(config, Config::default());
}

#[test]
fn entries_are_read_in_order() {
    let entries = vec![
        ("ctrl+a".to_string(), Some("save".to_string())),
        ("shift+f2".to_string(), Some("quit".to_string())),
    ];
    let pairs = Config::keymap_pairs_from_toml_table(&entries).expect("pairs");
    assert_eq!(
        pairs,
        vec![
            (ctrl('a'), Operation::SaveBufferToFile),
            (
                KeyShortcut::new(KeyCode::F(2), KeyModifiers::shift()),
                Operation::Quit
            ),
        ]
    );
    let table = Config::from_entries(&entries).expect("a table");
    assert_eq!(table.get(&ctrl('a')), Some(Operation::SaveBufferToFile));
    assert_eq!(table.get(&ctrl('s')), None);
}

#[test]
fn operations_are_read_by_their_names() {
    let names = [
        ("open_file", Operation::OpenFile),
        ("new_buffer", Operation::CreateNewBuffer),
        ("previous_buffer", Operation::SwitchToPreviousBuffer),
        ("next_buffer", Operation::SwitchToNextBuffer),
        ("open_buffer_picker", Operation::OpenBufferPicker),
        ("search_in_current_buffer", Operation::SearchInCurrentBuffer),
        ("replace_in_current_buffer", Operation::SearchAndReplaceInCurrentBuffer),
        ("save", Operation::SaveBufferToFile),
        ("undo", Operation::Undo),
        ("redo", Operation::Redo),
        ("find_files_in_cwd", Operation::FindFilesInCWD),
        ("find_text_in_cwd", Operation::FindTextInCWD),
        ("quit", Operation::Quit),
    ];
    for (name, op) in names {
        assert_eq!(Operation::from_string(name).expect("an operation"), op);
    }
    for (name, op) in names {
        assert_eq!(op.name(), name);
    }
    assert!(Operation::from_string("Save").is_err());
    assert!(Operation::from_string("").is_err());
}
