use pike::config::Config;
use pike::field::InputRequest;
use pike::key_shortcut::{KeyCode, KeyEvent, KeyEventKind, KeyModifiers};
use pike::operations::Operation;
use pike::pike::Pike;
use pike::position::Position;
use pike::session::{key_event_to_input_request, App, Effect};
use pike::ui::{BufferDisplayOffset, FileInputRole, FileInputState, InputMode, Rect};
use std::path::{Path, PathBuf};

fn workspace() -> scribe::Workspace {
    scribe::Workspace::new(Path::new(".")).expect("Failed to build a workspace")
}

/// Builds an app with the default configuration and no open file
fn build_default() -> App {
    App::new(Pike::new(workspace(), Config::default()))
}

/// Create an App instance with a buffer that holds the given contents and
/// is bound to a path
fn app_with_file_contents(contents: &str) -> App {
    let mut workspace = workspace();
    let mut buffer = scribe::Buffer::new();
    buffer.insert(contents);
    buffer.path = Some(PathBuf::from("contents.txt"));
    workspace.add_buffer(buffer);
    App::new(Pike::new(workspace, Config::default()))
}

/// Create an App instance with a given config
fn app_with_config(config_contents: &str) -> App {
    let config = Config::from_toml_representation(config_contents).expect("Failed to load config");
    App::new(Pike::new(workspace(), config))
}

/// The kind of field that is open, if any.
fn file_input_role(app: &App) -> Option<FileInputRole> {
    match &app.ui_state.mode {
        InputMode::FileInput(state) => Some(state.role),
        _ => None,
    }
}

/// The position to render the cursor at in an area of this size, after the
/// offsets have followed the cursor.
fn cursor_render_pos(app: &mut App, area: Rect) -> (u16, u16) {
    let cursor_position = app.backend.cursor_position();
    if let Some(cp) = cursor_position {
        // Scroll horizontally
        app.ui_state.buffer_state.update_x_offset(area, cp.offset);
        // Scroll vertically
        app.ui_state.buffer_state.update_y_offset(area, cp.line);
    }
    let at = app.ui_state.calculate_cursor_for_buffer(area, cursor_position);
    (at.x, at.y)
}

/// The position to render the cursor of the file input at.
fn file_input_render_pos(app: &App, area: Rect) -> (u16, u16) {
    match &app.ui_state.mode {
        InputMode::FileInput(state) => {
            let at = app
                .ui_state
                .calculate_cursor_for_file_input(&state.input, area);
            (at.x, at.y)
        }
        _ => panic!("A file input should be open when testing cursor in file input"),
    }
}

/// What is painted of the buffer in an area of this size: the shifted
/// contents, cut to the area.
fn painted(app: &App, area: Rect) -> Vec<String> {
    let contents = app.backend.current_buffer_contents();
    let shifted = app.ui_state.buffer_state.shift_contents(&contents);
    let mut lines: Vec<String> = shifted
        .split('\n')
        .take(area.height as usize)
        .map(|line| line.chars().take(area.width as usize).collect())
        .collect();
    while lines.len() < area.height as usize {
        lines.push(String::new());
    }
    lines
}

/// Verifies the cursor position and what is painted of the buffer.
fn assert_cursor_and_buffer(
    app: &mut App,
    area: Rect,
    expected_cursor_pos: (u16, u16),
    expected_lines: Vec<&str>,
) {
    assert_eq!(cursor_render_pos(app, area), expected_cursor_pos);
    assert_eq!(painted(app, area), expected_lines);
}

fn handle_file_input(app: &mut App, request: InputRequest) {
    match &mut app.ui_state.mode {
        InputMode::FileInput(state) => state.handle(request),
        _ => panic!("A file input has been opened, it can't be none"),
    }
}

/// The cursor should not move past the bounds of the buffer
#[test]
fn test_cant_move_cursor_too_far_right() {
    let mut app = app_with_file_contents("t");
    let area = Rect::new(0, 0, 10, 1);

    // Starts at (0, 0)
    assert_eq!(cursor_render_pos(&mut app, area), (0, 0));

    app.backend.move_cursor_right();
    assert_eq!(cursor_render_pos(&mut app, area), (1, 0));

    app.backend.move_cursor_right();
    assert_eq!(cursor_render_pos(&mut app, area), (1, 0));
}

#[test]
fn test_cant_move_cursor_too_far_down() {
    let mut app = app_with_file_contents("123");
    let area = Rect::new(0, 0, 10, 10);

    app.backend.move_cursor_down();
    assert_eq!(cursor_render_pos(&mut app, area), (0, 0));

    app.backend.move_cursor_down();
    assert_eq!(cursor_render_pos(&mut app, area), (0, 0));
}

/// The buffer contents should shift right so that lines that
/// are too long to render can be inspected by moving further right.
#[test]
fn test_buffer_shifts_when_moving_outside_visible_chars() {
    let mut app = app_with_file_contents("123\n456");
    let area = Rect::new(0, 0, 1, 2);

    // Verify initial buffer rendering after the first cursor move.
    app.backend.move_cursor_right();
    assert_cursor_and_buffer(&mut app, area, (0, 0), vec!["2", "5"]);

    // Verify buffer rendering after the second cursor move.
    app.backend.move_cursor_right();
    assert_cursor_and_buffer(&mut app, area, (0, 0), vec!["3", "6"]);
}

/// When the buffer gets shifted right, it should not shift back
/// left until the first displayed char is reached, only the visible
/// cursor should be moved to the left
#[test]
fn test_buffer_does_not_shift_left_until_necessary() {
    let mut app = app_with_file_contents("1234");
    let area = Rect::new(0, 0, 2, 1);
    assert_cursor_and_buffer(&mut app, area, (0, 0), vec!["12"]);

    // Move the cursor to the last char, shifting the buffer
    app.backend.move_cursor_right();
    app.backend.move_cursor_right();
    app.backend.move_cursor_right();

    // Verify initial buffer rendering after the first cursor move.
    assert_cursor_and_buffer(&mut app, area, (1, 0), vec!["34"]);

    // Move left
    app.backend.move_cursor_left();

    // The cursor should now point at 3 and be at (0, 0)
    assert_cursor_and_buffer(&mut app, area, (0, 0), vec!["34"]);

    // Move left, the buffer should shift left
    app.backend.move_cursor_left();
    assert_cursor_and_buffer(&mut app, area, (0, 0), vec!["23"]);
}

/// The buffer contents should shift down so that lines that
/// are too long to render can be inspected by moving further down.
#[test]
fn test_buffer_shifts_when_moving_outside_visible_lines() {
    let mut app = app_with_file_contents("123\n456\n789");
    let area = Rect::new(0, 0, 3, 1);

    // Verify initial buffer rendering after the first cursor move.
    app.backend.move_cursor_down();
    assert_cursor_and_buffer(&mut app, area, (0, 0), vec!["456"]);

    // Verify buffer rendering after the second cursor move.
    app.backend.move_cursor_down();
    assert_cursor_and_buffer(&mut app, area, (0, 0), vec!["789"]);
}

/// When the buffer gets shifted down, it should not shift back
/// up until the first displayed line is reached, only the visible
/// cursor should be moved up
#[test]
fn test_buffer_does_not_shift_up_until_necessary() {
    let mut app = app_with_file_contents("123\n456\n789");
    let area = Rect::new(0, 0, 3, 2);
    assert_cursor_and_buffer(&mut app, area, (0, 0), vec!["123", "456"]);

    // Move the cursor to the last line, shifting the buffer
    app.backend.move_cursor_down();
    app.backend.move_cursor_down();

    // Verify initial buffer rendering after the first cursor move.
    assert_cursor_and_buffer(&mut app, area, (0, 1), vec!["456", "789"]);

    // Move up
    app.backend.move_cursor_up();

    // The cursor should now point at 4 and be at (0, 0)
    assert_cursor_and_buffer(&mut app, area, (0, 0), vec!["456", "789"]);

    // Move up, the buffer should shift up
    app.backend.move_cursor_up();
    assert_cursor_and_buffer(&mut app, area, (0, 0), vec!["123", "456"]);
}

#[test]
fn test_cursor_position_file_input() {
    let mut app = app_with_file_contents("");
    let area = Rect::new(0, 0, 10, 3);

    app.ui_state.mode = InputMode::FileInput(FileInputState::new("", FileInputRole::GetOpenPath));
    assert_eq!(file_input_render_pos(&app, area), (1, 1));

    // Insert a char
    handle_file_input(&mut app, InputRequest::InsertChar('h'));

    assert_eq!(file_input_render_pos(&app, area), (2, 1));

    // Move cursor left
    handle_file_input(&mut app, InputRequest::GoToPrevChar);

    assert_eq!(file_input_render_pos(&app, area), (1, 1));

    // And right, then delete a char
    handle_file_input(&mut app, InputRequest::GoToNextChar);

    handle_file_input(&mut app, InputRequest::DeletePrevChar);

    assert_eq!(file_input_render_pos(&app, area), (1, 1));

    // Now some overflow
    let area = Rect::new(0, 0, 4, 1);
    app.ui_state.mode = InputMode::FileInput(FileInputState::new(
        "hello, world!",
        FileInputRole::GetOpenPath,
    ));
    // Does not reach (3, 1) because of the border
    assert_eq!(file_input_render_pos(&app, area), (2, 1));
}

#[test]
fn test_app_handles_keybinds() {
    let config = r#"
            [keymaps]
            "ctrl+a" = "open_file"
            "#;
    let mut app = app_with_config(config);

    // A custom and a default keybind
    let open_file_event = KeyEvent::new(KeyCode::Char('a'), KeyModifiers::control());
    let close_event = KeyEvent::new(KeyCode::Char('q'), KeyModifiers::control());

    app.handle_key_event(open_file_event);
    assert_eq!(file_input_role(&app), Some(FileInputRole::GetOpenPath));

    app.handle_key_event(close_event);
    assert!(app.exit);
    assert!(app.should_exit());
}

#[test]
fn app_does_not_ask_for_save_path_if_there_is_one() {
    let mut app = app_with_file_contents("hello, world!");

    let effect = app.handle_operation(Operation::SaveBufferToFile);

    assert!(matches!(app.ui_state.mode, InputMode::Normal));
    assert!(matches!(effect, Effect::SaveBuffer));
}

#[test]
fn app_asks_for_save_path_if_there_is_none() {
    let mut app = build_default();

    let effect = app.handle_operation(Operation::SaveBufferToFile);

    assert_eq!(file_input_role(&app), Some(FileInputRole::GetSavePath));
    assert!(matches!(effect, Effect::Nothing));
}

#[test]
fn app_does_not_write_to_file_when_key_is_pressed_with_ctrl() {
    let mut app = app_with_file_contents("");
    let event = KeyEvent::new(KeyCode::Char('u'), KeyModifiers::control());
    app.handle_key_event(event);
    assert_eq!(app.backend.current_buffer_contents(), "");
}

#[test]
fn app_inserts_spaces_when_tab_pressed() {
    let mut app = app_with_file_contents("");
    let event = KeyEvent::new(KeyCode::Tab, KeyModifiers::none());
    app.handle_key_event(event);
    assert_eq!(app.backend.current_buffer_contents(), "    ");
}

#[test]
fn test_app_does_not_write_when_banner_open() {
    let mut app = build_default();
    assert!(app.backend.current_buffer().is_none());
    let effect = app.handle_key_event(KeyEvent::new(KeyCode::Char('a'), KeyModifiers::none()));
    assert!(matches!(effect, Effect::Nothing));
    assert!(app.backend.current_buffer().is_none());
}

#[test]
fn handles_navigation_keys() {
    let mut app = app_with_file_contents("line1\nline2\nline3");
    let area = Rect::new(0, 0, 10, 3);

    // Test cases for navigation
    let navigation_cases = vec![
        (KeyEvent::new(KeyCode::Left, KeyModifiers::none()), (0, 0)),
        (KeyEvent::new(KeyCode::Right, KeyModifiers::none()), (1, 0)),
        (KeyEvent::new(KeyCode::Up, KeyModifiers::none()), (1, 0)), // Should remain at the top
        (KeyEvent::new(KeyCode::Down, KeyModifiers::none()), (1, 1)), // Moves to the second line
        (KeyEvent::new(KeyCode::End, KeyModifiers::none()), (5, 1)), // End of second line
        (KeyEvent::new(KeyCode::Home, KeyModifiers::none()), (0, 1)), // Start of second line
        (
            KeyEvent::new(KeyCode::Left, KeyModifiers::control()),
            (0, 0), // Move left by word (should go to line start)
        ),
        (
            KeyEvent::new(KeyCode::Right, KeyModifiers::control()),
            (5, 0), // Move right by word (end of line)
        ),
    ];

    for (event, expected_pos) in navigation_cases {
        assert!(
            app.try_handle_navigation(event),
            "Navigation event {:?} was not handled",
            event
        );
        assert_eq!(cursor_render_pos(&mut app, area), expected_pos);
    }
}

#[test]
fn doesnt_handle_navigation_events_unrelated_to_navigation() {
    let mut app = app_with_file_contents("line1\nline2\nline3");
    let area = Rect::new(0, 0, 10, 3);

    let event = KeyEvent::new(KeyCode::Char('a'), KeyModifiers::none());
    assert!(
        !app.try_handle_navigation(event),
        "Navigation event {:?} was handled",
        event
    );
    assert_eq!(cursor_render_pos(&mut app, area), (0, 0));
}

#[test]
fn handle_events_with_file_input_write_and_close() {
    let mut app = build_default();
    let open_file_event = KeyEvent::new(KeyCode::Char('o'), KeyModifiers::control());
    let close_event = KeyEvent::new(KeyCode::Esc, KeyModifiers::none());

    app.handle_key_event(open_file_event);
    assert!(matches!(app.ui_state.mode, InputMode::FileInput(_)));

    app.handle_key_event(close_event);
    assert!(matches!(app.ui_state.mode, InputMode::Normal));
}

#[test]
fn write_events_change_buffer_contents() {
    let mut app = app_with_file_contents("");
    let hello = [
        KeyEvent::new(KeyCode::Char('H'), KeyModifiers::none()),
        KeyEvent::new(KeyCode::Char('e'), KeyModifiers::none()),
        KeyEvent::new(KeyCode::Char('l'), KeyModifiers::none()),
        KeyEvent::new(KeyCode::Char('l'), KeyModifiers::none()),
        KeyEvent::new(KeyCode::Char('o'), KeyModifiers::none()),
    ];

    for event in hello.iter() {
        app.handle_key_event(*event);
    }

    assert_eq!(app.backend.current_buffer_contents(), "Hello");
}

#[test]
fn clicking_backspace_removes_characters() {
    let mut app = app_with_file_contents("Hello");
    let backspace = KeyEvent::new(KeyCode::Backspace, KeyModifiers::none());

    app.backend.move_cursor_right_by_word();
    app.handle_key_event(backspace);

    assert_eq!(app.backend.current_buffer_contents(), "Hell");
}

#[test]
fn app_handles_arrow_navigation() {
    let mut app = app_with_file_contents("line1\nline2\nline3");
    let area = Rect::new(0, 0, 10, 3);

    let navigation_cases = vec![
        (KeyEvent::new(KeyCode::Left, KeyModifiers::none()), (0, 0)),
        (KeyEvent::new(KeyCode::Right, KeyModifiers::none()), (1, 0)),
        (KeyEvent::new(KeyCode::Up, KeyModifiers::none()), (1, 0)),
        (KeyEvent::new(KeyCode::Down, KeyModifiers::none()), (1, 1)),
        (KeyEvent::new(KeyCode::End, KeyModifiers::none()), (5, 1)),
        (KeyEvent::new(KeyCode::Home, KeyModifiers::none()), (0, 1)),
    ];

    for (event, expected_pos) in navigation_cases {
        app.handle_key_event(event);
        assert_eq!(cursor_render_pos(&mut app, area), expected_pos);
    }
}

#[test]
fn app_handles_navigation_by_words() {
    let mut app = app_with_file_contents("word1 and word2");
    let area = Rect::new(0, 0, 20, 1);

    let navigation_cases = vec![
        (KeyEvent::new(KeyCode::Right, KeyModifiers::control()), (5, 0)),
        (KeyEvent::new(KeyCode::Right, KeyModifiers::control()), (9, 0)),
        (
            KeyEvent::new(KeyCode::Right, KeyModifiers::control()),
            (15, 0),
        ),
        (KeyEvent::new(KeyCode::Left, KeyModifiers::control()), (10, 0)),
        (KeyEvent::new(KeyCode::Left, KeyModifiers::control()), (6, 0)),
    ];

    for (event, expected_pos) in navigation_cases {
        app.handle_key_event(event);
        assert_eq!(cursor_render_pos(&mut app, area), expected_pos);
    }
}

#[test]
fn app_handles_up_down_navigation() {
    let mut app = app_with_file_contents("line1\nline2\nline3");
    let area = Rect::new(0, 0, 10, 3);

    let navigation_cases = vec![
        (KeyEvent::new(KeyCode::Up, KeyModifiers::none()), (0, 0)),
        (KeyEvent::new(KeyCode::Down, KeyModifiers::none()), (0, 1)),
        (KeyEvent::new(KeyCode::Down, KeyModifiers::none()), (0, 2)),
        (KeyEvent::new(KeyCode::Up, KeyModifiers::none()), (0, 1)),
        (KeyEvent::new(KeyCode::Down, KeyModifiers::none()), (0, 2)),
    ];

    for (event, expected_pos) in navigation_cases {
        assert!(app.try_handle_navigation(event));
        assert_eq!(cursor_render_pos(&mut app, area), expected_pos);
    }
}

fn press(app: &mut App, code: KeyCode) -> Effect {
    app.handle_key_event(KeyEvent::new(code, KeyModifiers::none()))
}

fn type_text(app: &mut App, text: &str) {
    for c in text.chars() {
        press(app, KeyCode::Char(c));
    }
}

fn focused(app: &App) -> usize {
    app.ui_state.buffer_state.highlight_state.focused
}

fn highlight_count(app: &App) -> usize {
    app.ui_state.buffer_state.highlight_state.highlights.len()
}

#[test]
fn a_search_jumps_to_the_first_match_and_cycles() {
    let mut app = app_with_file_contents("Hello, world! Goodbye, world!\nworld");
    app.handle_key_event(KeyEvent::new(KeyCode::Char('f'), KeyModifiers::control()));
    assert!(matches!(app.ui_state.mode, InputMode::SearchInput(_)));

    // Left and Right edit the field while there is no highlight.
    type_text(&mut app, "wod");
    press(&mut app, KeyCode::Left);
    press(&mut app, KeyCode::Char('r'));
    press(&mut app, KeyCode::Right);
    assert_eq!(app.backend.current_buffer_contents(), "Hello, world! Goodbye, world!\nworld");
    match &app.ui_state.mode {
        InputMode::SearchInput(input) => assert_eq!(input.value(), "word"),
        _ => panic!("the search field should be open"),
    }
    press(&mut app, KeyCode::Backspace);
    press(&mut app, KeyCode::Backspace);
    type_text(&mut app, "rld");

    press(&mut app, KeyCode::Enter);
    assert!(matches!(app.ui_state.mode, InputMode::SearchInput(_)));
    assert_eq!(highlight_count(&app), 3);
    assert_eq!(focused(&app), 0);
    assert_eq!(
        app.backend.cursor_position(),
        Some(Position { line: 0, offset: 7 })
    );

    press(&mut app, KeyCode::Right);
    assert_eq!(focused(&app), 1);
    assert_eq!(
        app.backend.cursor_position(),
        Some(Position { line: 0, offset: 23 })
    );
    press(&mut app, KeyCode::Right);
    press(&mut app, KeyCode::Right);
    assert_eq!(focused(&app), 0);
    assert_eq!(
        app.backend.cursor_position(),
        Some(Position { line: 0, offset: 7 })
    );
    // Going back moves the focus and leaves the cursor.
    press(&mut app, KeyCode::Left);
    assert_eq!(focused(&app), 2);
    assert_eq!(
        app.backend.cursor_position(),
        Some(Position { line: 0, offset: 7 })
    );
    let marks: Vec<bool> = app
        .ui_state
        .buffer_state
        .highlight_state
        .highlights
        .iter()
        .map(|h| h.is_selected)
        .collect();
    assert_eq!(marks, vec![false, false, true]);

    // A query without a match clears the highlights and keeps the field.
    type_text(&mut app, "x");
    press(&mut app, KeyCode::Enter);
    assert_eq!(highlight_count(&app), 0);
    assert!(matches!(app.ui_state.mode, InputMode::SearchInput(_)));

    press(&mut app, KeyCode::Backspace);
    press(&mut app, KeyCode::Enter);
    assert_eq!(highlight_count(&app), 3);
    press(&mut app, KeyCode::Esc);
    assert_eq!(highlight_count(&app), 0);
    assert!(matches!(app.ui_state.mode, InputMode::Normal));
}

#[test]
fn a_file_field_hands_out_what_is_to_be_done() {
    let mut app = build_default();
    app.handle_operation(Operation::OpenFile);
    type_text(&mut app, "a.txt");
    // A keybind is not shadowed, but typing does not reach the buffer.
    let effect = press(&mut app, KeyCode::Enter);
    match effect {
        Effect::OpenFile(path) => assert_eq!(path, PathBuf::from("a.txt")),
        _ => panic!("a file should be asked for"),
    }
    assert!(matches!(app.ui_state.mode, InputMode::Normal));

    // Saving an unbound buffer asks for a path, binds it and asks to save.
    app.backend.open_new_buffer();
    app.handle_key_event(KeyEvent::new(KeyCode::Char('s'), KeyModifiers::control()));
    assert_eq!(file_input_role(&app), Some(FileInputRole::GetSavePath));
    type_text(&mut app, "B");
    app.handle_key_event(KeyEvent::new(KeyCode::Char('c'), KeyModifiers::shift()));
    assert_eq!(app.backend.current_buffer_contents(), "");
    let effect = press(&mut app, KeyCode::Enter);
    assert!(matches!(effect, Effect::SaveBuffer));
    assert!(matches!(app.ui_state.mode, InputMode::Normal));
    assert!(app
        .backend
        .current_buffer_path()
        .expect("a path")
        .ends_with("Bc"));

    // Without a buffer there is nothing to bind and nothing to save.
    let mut app = build_default();
    app.handle_operation(Operation::SaveBufferToFile);
    type_text(&mut app, "c");
    let effect = press(&mut app, KeyCode::Enter);
    assert!(matches!(effect, Effect::Nothing));
    assert!(matches!(app.ui_state.mode, InputMode::Normal));
}

#[test]
fn keys_take_their_routes_in_order() {
    // A bound chord triggers its operation though it could type.
    let mut app = app_with_config("[keymaps]\n\"x\" = \"quit\"\n\"left\" = \"undo\"");
    app.backend.open_new_buffer();
    press(&mut app, KeyCode::Char('y'));
    assert_eq!(app.backend.current_buffer_contents(), "y");
    press(&mut app, KeyCode::Left);
    assert_eq!(app.backend.current_buffer_contents(), "");
    assert!(!app.exit);
    press(&mut app, KeyCode::Char('x'));
    assert!(app.exit);
    assert_eq!(app.backend.current_buffer_contents(), "");

    // An open field takes the key before the keybinding does.
    let mut app = app_with_config("[keymaps]\n\"x\" = \"quit\"");
    app.handle_operation(Operation::SearchInCurrentBuffer);
    press(&mut app, KeyCode::Char('x'));
    assert!(!app.exit);
    // A chord that the field does not take still reaches the keybindings.
    app.handle_key_event(KeyEvent::new(KeyCode::Char('o'), KeyModifiers::control()));
    assert_eq!(file_input_role(&app), Some(FileInputRole::GetOpenPath));
    assert!(!app.exit);

    // Only presses count.
    let mut app = app_with_file_contents("");
    let release = KeyEvent {
        code: KeyCode::Char('a'),
        modifiers: KeyModifiers::none(),
        kind: KeyEventKind::Release,
    };
    app.handle_key_event(release);
    assert_eq!(app.backend.current_buffer_contents(), "");
    press(&mut app, KeyCode::Enter);
    press(&mut app, KeyCode::Char('a'));
    assert_eq!(app.backend.current_buffer_contents(), "\na");
    press(&mut app, KeyCode::F(5));
    assert_eq!(app.backend.current_buffer_contents(), "\na");
}

#[test]
fn operations_do_what_they_name() {
    let mut app = app_with_file_contents("one");
    app.ui_state.buffer_state.offset = BufferDisplayOffset::new(2, 2);
    press(&mut app, KeyCode::Char('x'));
    assert_eq!(app.backend.current_buffer_contents(), "xone");
    app.handle_operation(Operation::Undo);
    assert_eq!(app.backend.current_buffer_contents(), "one");
    app.handle_operation(Operation::Redo);
    assert_eq!(app.backend.current_buffer_contents(), "xone");
    assert_eq!(app.ui_state.buffer_state.offset, BufferDisplayOffset::new(2, 2));

    app.handle_operation(Operation::CreateNewBuffer);
    assert_eq!(app.backend.current_buffer_contents(), "");
    assert_eq!(app.ui_state.buffer_state.offset, BufferDisplayOffset::new(0, 0));
    app.ui_state.buffer_state.offset = BufferDisplayOffset::new(1, 1);
    app.handle_operation(Operation::SwitchToPreviousBuffer);
    assert_eq!(app.backend.current_buffer_contents(), "xone");
    assert_eq!(app.ui_state.buffer_state.offset, BufferDisplayOffset::new(0, 0));
    app.handle_operation(Operation::SwitchToNextBuffer);
    assert_eq!(app.backend.current_buffer_contents(), "");

    for op in [
        Operation::OpenBufferPicker,
        Operation::SearchAndReplaceInCurrentBuffer,
        Operation::FindFilesInCWD,
        Operation::FindTextInCWD,
    ] {
        let effect = app.handle_operation(op);
        assert!(matches!(effect, Effect::Nothing));
        assert!(matches!(app.ui_state.mode, InputMode::Normal));
    }
    assert!(!app.exit);
    app.handle_operation(Operation::Quit);
    assert!(app.exit);

    app.handle_operation(Operation::SwitchToPreviousBuffer);
    press(&mut app, KeyCode::Char('z'));
    app.backend.move_cursor_to(Position { line: 0, offset: 3 });
    app.ui_state.buffer_state.offset = BufferDisplayOffset::new(2, 0);
    assert_eq!(app.backend.cursor_history.undo_stack.len(), 1);
    app.file_opened();
    assert_eq!(app.ui_state.buffer_state.offset, BufferDisplayOffset::new(0, 0));
    assert_eq!(
        app.backend.cursor_position(),
        Some(Position { line: 0, offset: 0 })
    );
    assert!(app.backend.cursor_history.undo_stack.is_empty());
    assert!(app.backend.cursor_history.redo_stack.is_empty());
    assert_eq!(app.backend.current_buffer_contents(), "xzone");

    // Without a buffer to go from, switching changes nothing.
    let mut app = build_default();
    app.ui_state.buffer_state.offset = BufferDisplayOffset::new(2, 2);
    app.handle_operation(Operation::SwitchToNextBuffer);
    app.handle_operation(Operation::SwitchToPreviousBuffer);
    assert_eq!(app.ui_state.buffer_state.offset, BufferDisplayOffset::new(2, 2));
}

#[test]
fn highlights_go_when_a_file_field_takes_the_place_of_the_search() {
    let mut app = app_with_file_contents("abc abc");
    app.handle_operation(Operation::SearchInCurrentBuffer);
    type_text(&mut app, "abc");
    press(&mut app, KeyCode::Enter);
    assert_eq!(highlight_count(&app), 2);
    // Asking for a search again keeps what is highlighted.
    app.handle_key_event(KeyEvent::new(KeyCode::Char('f'), KeyModifiers::control()));
    assert!(matches!(app.ui_state.mode, InputMode::SearchInput(_)));
    assert_eq!(highlight_count(&app), 2);
    app.handle_key_event(KeyEvent::new(KeyCode::Char('o'), KeyModifiers::control()));
    assert_eq!(file_input_role(&app), Some(FileInputRole::GetOpenPath));
    assert_eq!(highlight_count(&app), 0);
    assert_eq!(focused(&app), 0);
}

#[test]
fn a_backspace_at_the_very_start_changes_nothing() {
    let mut app = app_with_file_contents("ab");
    press(&mut app, KeyCode::Char('x'));
    app.handle_operation(Operation::Undo);
    app.backend.move_cursor_to(Position { line: 0, offset: 0 });
    press(&mut app, KeyCode::Backspace);
    assert_eq!(app.backend.current_buffer_contents(), "ab");
    assert!(app.backend.cursor_history.undo_stack.is_empty());
    assert_eq!(app.backend.cursor_history.redo_stack.len(), 1);
    app.handle_operation(Operation::Redo);
    assert_eq!(app.backend.current_buffer_contents(), "xab");
}

#[test]
fn keys_ask_fields_for_edits() {
    let key = |code, modifiers| KeyEvent::new(code, modifiers);
    assert_eq!(
        key_event_to_input_request(key(KeyCode::Char('a'), KeyModifiers::none())),
        Some(InputRequest::InsertChar('a'))
    );
    assert_eq!(
        key_event_to_input_request(key(KeyCode::Char('A'), KeyModifiers::shift())),
        Some(InputRequest::InsertChar('A'))
    );
    assert_eq!(
        key_event_to_input_request(key(KeyCode::Char('a'), KeyModifiers::control())),
        None
    );
    assert_eq!(
        key_event_to_input_request(key(KeyCode::Backspace, KeyModifiers::none())),
        Some(InputRequest::DeletePrevChar)
    );
    assert_eq!(
        key_event_to_input_request(key(KeyCode::Delete, KeyModifiers::none())),
        Some(InputRequest::DeleteNextChar)
    );
    assert_eq!(
        key_event_to_input_request(key(KeyCode::Left, KeyModifiers::none())),
        Some(InputRequest::GoToPrevChar)
    );
    assert_eq!(
        key_event_to_input_request(key(KeyCode::Right, KeyModifiers::none())),
        Some(InputRequest::GoToNextChar)
    );
    assert_eq!(
        key_event_to_input_request(key(KeyCode::Right, KeyModifiers::shift())),
        None
    );
    assert_eq!(
        key_event_to_input_request(key(KeyCode::Tab, KeyModifiers::none())),
        None
    );
}
