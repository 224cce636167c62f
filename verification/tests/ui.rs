use pike::field::InputRequest;
use pike::position::Position;
use pike::ui::{
    BufferDisplayOffset, BufferDisplayState, CursorCalculationMode, FileInputRole,
    FileInputState, Highlight, HighlightState, Rect, SpanStyle, TerminalPosition, UIState,
};

fn spans_of(lines: &Vec<Vec<pike::ui::Span>>) -> Vec<Vec<(String, SpanStyle)>> {
    lines
        .iter()
        .map(|line| {
            line.iter()
                .map(|span| (span.content.clone(), span.style))
                .collect::<Vec<_>>()
        })
        .collect()
}

#[test]
fn test_add_highlights_single_line_unselected() {
    // Setup a default display state with no offset.
    let state = BufferDisplayState::new(BufferDisplayOffset::default());

    let content = "Hello world";
    let highlight = Highlight {
        start: Position { line: 0, offset: 6 },
        length: 5,
        is_selected: false,
    };

    let text = state.add_highlights(content, &vec![highlight]);
    let lines = spans_of(&text);

    // We expect one line with two spans: unhighlighted "Hello " and highlighted "world".
    assert_eq!(lines.len(), 1);
    let spans = &lines[0];
    assert_eq!(spans.len(), 2);

    // First span: "Hello " with default style.
    assert_eq!(spans[0].0, "Hello ");
    assert_eq!(spans[0].1, SpanStyle::Plain);

    // Second span: "world" with highlighted style.
    assert_eq!(spans[1].0, "world");
    assert_eq!(spans[1].1, SpanStyle::Highlighted);
}

#[test]
fn test_add_highlights_single_line_selected() {
    // Test with a selected highlight which uses a different background color.
    let state = BufferDisplayState::new(BufferDisplayOffset::default());

    let content = "Hello world";
    let highlight = Highlight {
        start: Position { line: 0, offset: 6 },
        length: 5,
        is_selected: true,
    };

    let text = state.add_highlights(content, &vec![highlight]);
    let lines = spans_of(&text);

    assert_eq!(lines.len(), 1);
    let spans = &lines[0];
    assert_eq!(spans.len(), 2);

    // First span: "Hello " with default style.
    assert_eq!(spans[0].0, "Hello ");
    assert_eq!(spans[0].1, SpanStyle::Plain);

    // Second span: "world" with selected highlight style.
    assert_eq!(spans[1].0, "world");
    assert_eq!(spans[1].1, SpanStyle::HighlightedSelected);
}

#[test]
fn test_add_highlights_multiple_lines_and_highlights() {
    let state = BufferDisplayState::new(BufferDisplayOffset::default());

    let content = "Line one\nLine two\nLine three";
    let highlights = vec![
        Highlight {
            start: Position { line: 0, offset: 5 },
            length: 3,
            is_selected: false,
        },
        Highlight {
            start: Position { line: 1, offset: 5 },
            length: 3,
            is_selected: true,
        },
    ];

    let text = state.add_highlights(content, &highlights);
    let lines = spans_of(&text);

    // Check first line spans.
    // "Line one" with a highlight on "one"
    assert!(lines.len() >= 2);
    let first_line = &lines[0];
    // Expected spans for first line: ["Line ", highlighted("one")]
    assert_eq!(first_line.len(), 2);
    assert_eq!(first_line[0].0, "Line ");
    assert_eq!(first_line[0].1, SpanStyle::Plain);
    assert_eq!(first_line[1].0, "one");
    assert_eq!(first_line[1].1, SpanStyle::Highlighted);

    // Check second line spans.
    // "Line two" with a selected highlight on "two"
    let second_line = &lines[1];
    assert_eq!(second_line.len(), 2);
    assert_eq!(second_line[0].0, "Line ");
    assert_eq!(second_line[0].1, SpanStyle::Plain);
    assert_eq!(second_line[1].0, "two");
    assert_eq!(second_line[1].1, SpanStyle::HighlightedSelected);

    // The third line holds no highlight.
    assert_eq!(lines.len(), 3);
    assert_eq!(lines[2], vec![("Line three".to_string(), SpanStyle::Plain)]);
}

#[test]
fn highlights_follow_the_scroll_offsets() {
    let state = BufferDisplayState::new(BufferDisplayOffset::new(2, 1));
    // What is shown of "zero\nabcdefgh": the second line, from its third column.
    let shown = state.shift_contents("zero\nabcdefgh");
    assert_eq!(shown, "cdefgh");
    let highlights = vec![
        Highlight {
            start: Position { line: 0, offset: 2 },
            length: 2,
            is_selected: false,
        },
        Highlight {
            start: Position { line: 1, offset: 4 },
            length: 2,
            is_selected: false,
        },
        Highlight {
            start: Position { line: 1, offset: 7 },
            length: 9,
            is_selected: true,
        },
    ];
    let lines = spans_of(&state.add_highlights(&shown, &highlights));
    assert_eq!(
        lines,
        vec![vec![
            ("cd".to_string(), SpanStyle::Plain),
            ("ef".to_string(), SpanStyle::Highlighted),
            ("g".to_string(), SpanStyle::Plain),
            ("h".to_string(), SpanStyle::HighlightedSelected),
        ]]
    );
    // A highlight that starts behind the end of the line is an empty span.
    let beyond = vec![Highlight {
        start: Position { line: 1, offset: 40 },
        length: 2,
        is_selected: false,
    }];
    let lines = spans_of(&state.add_highlights(&shown, &beyond));
    assert_eq!(
        lines,
        vec![vec![
            ("cdefgh".to_string(), SpanStyle::Plain),
            ("".to_string(), SpanStyle::Highlighted),
        ]]
    );
}

#[test]
fn highlights_in_order_lose_no_text() {
    let state = BufferDisplayState::new(BufferDisplayOffset::new(1, 0));
    let contents = "e\u{301}a bc\n\nxyz";
    let highlights = vec![
        Highlight {
            start: Position { line: 0, offset: 1 },
            length: 1,
            is_selected: false,
        },
        Highlight {
            start: Position { line: 2, offset: 4 },
            length: 7,
            is_selected: false,
        },
        Highlight {
            start: Position { line: 0, offset: 3 },
            length: 2,
            is_selected: true,
        },
    ];
    let lines = spans_of(&state.add_highlights(contents, &highlights));
    let texts: Vec<String> = lines
        .iter()
        .map(|line| line.iter().map(|span| span.0.as_str()).collect::<String>())
        .collect();
    assert_eq!(texts, vec!["e\u{301}a bc", "", "xyz"]);
    assert_eq!(lines[0].len(), 4);
    assert_eq!(lines[0][0], ("e\u{301}".to_string(), SpanStyle::Highlighted));
    assert_eq!(lines[0][2], (" b".to_string(), SpanStyle::HighlightedSelected));
}

#[test]
fn offsets_never_pass_the_cursor() {
    for width in 0u16..6 {
        for start in 0usize..8 {
            for cursor in 0usize..12 {
                let mut state = BufferDisplayState::new(BufferDisplayOffset::new(start, start));
                let area = Rect::new(0, 0, width, width);
                state.update_x_offset(area, cursor);
                state.update_y_offset(area, cursor);
                assert!(state.offset.x <= cursor);
                assert!(state.offset.y <= cursor);
                if width > 0 {
                    assert!(cursor < state.offset.x + width as usize);
                    assert!(cursor < state.offset.y + width as usize);
                }
                if start <= cursor && cursor < start + width as usize {
                    assert_eq!(state.offset.x, start);
                    assert_eq!(state.offset.y, start);
                }
            }
        }
    }
}

#[test]
fn offsets_follow_the_formula() {
    let mut state = BufferDisplayState::new(BufferDisplayOffset::new(0, 0));
    state.update_x_offset(Rect::new(0, 0, 2, 1), 3);
    assert_eq!(state.offset.x, 2);
    state.update_x_offset(Rect::new(0, 0, 2, 1), 2);
    assert_eq!(state.offset.x, 2);
    state.update_x_offset(Rect::new(0, 0, 2, 1), 1);
    assert_eq!(state.offset.x, 1);
    state.update_y_offset(Rect::new(0, 0, 2, 4), 10);
    assert_eq!(state.offset.y, 7);
    state.update_y_offset(Rect::new(0, 0, 2, 0), 10);
    assert_eq!(state.offset.y, 10);
    state.update_x_offset(Rect::new(0, 0, 1, 1), usize::MAX);
    assert_eq!(state.offset.x, usize::MAX);
}

#[test]
fn contents_are_clipped_by_lines_and_clusters() {
    let state = BufferDisplayState::new(BufferDisplayOffset::new(1, 1));
    assert_eq!(state.shift_contents_down("123\n456\n789"), "456\n789");
    assert_eq!(state.shift_contents_right("123\n456\n789"), "23\n56\n89");
    assert_eq!(state.shift_contents("123\n456\n789"), "56\n89");
    // A cluster of two characters is one column.
    assert_eq!(state.shift_contents_right("e\u{301}x\r\ny"), "x\n");
    let far = BufferDisplayState::new(BufferDisplayOffset::new(9, 9));
    assert_eq!(far.shift_contents("123\n456"), "");
    let none = BufferDisplayState::new(BufferDisplayOffset::new(0, 0));
    assert_eq!(none.shift_contents("123\n456\n"), "123\n456");
    // An empty line at the end is a line like any other.
    assert_eq!(none.shift_contents("a\n\n"), "a\n");
    assert_eq!(state.shift_contents("x\nab\n\n"), "b\n");
    assert_eq!(state.shift_contents("x\na\n\nbc"), "\n\nc");
}

#[test]
fn the_buffer_cursor_is_drawn_inside_the_area() {
    let mut state = UIState::new();
    let area = Rect::new(3, 5, 4, 2);
    assert_eq!(
        state.calculate_cursor_for_buffer(area, None),
        TerminalPosition::new(0, 0)
    );
    assert_eq!(
        state.calculate_cursor_for_buffer(area, Some(Position { line: 1, offset: 2 })),
        TerminalPosition::new(5, 6)
    );
    assert_eq!(
        state.calculate_cursor_for_buffer(area, Some(Position { line: 9, offset: 9 })),
        TerminalPosition::new(6, 6)
    );
    state.buffer_state.offset = BufferDisplayOffset::new(8, 8);
    assert_eq!(
        state.calculate_cursor_for_buffer(area, Some(Position { line: 9, offset: 9 })),
        TerminalPosition::new(4, 6)
    );
    assert_eq!(
        state.calculate_cursor_for_buffer(area, Some(Position { line: 2, offset: 2 })),
        TerminalPosition::new(3, 5)
    );
    let edge = Rect::new(u16::MAX, 0, 3, 0);
    assert_eq!(
        state.calculate_cursor_for_buffer(edge, Some(Position { line: 9, offset: 9 })),
        TerminalPosition::new(u16::MAX, 0)
    );
    let layout = vec![area, Rect::new(0, 7, 10, 3)];
    assert_eq!(
        state.calculate_cursor_position(
            CursorCalculationMode::Buffer,
            &layout,
            Some(Position { line: 9, offset: 9 })
        ),
        TerminalPosition::new(4, 6)
    );
    // In buffer mode the first area is all that is read.
    assert_eq!(
        state.calculate_cursor_position(
            CursorCalculationMode::Buffer,
            &vec![area],
            Some(Position { line: 9, offset: 9 })
        ),
        TerminalPosition::new(4, 6)
    );
    let field = FileInputState::new("ab", FileInputRole::GetOpenPath);
    assert_eq!(
        state.calculate_cursor_position(CursorCalculationMode::FileInput(&field.input), &layout, None),
        TerminalPosition::new(3, 8)
    );
}

#[test]
fn a_field_takes_requests() {
    let mut field = FileInputState::new("hello", FileInputRole::GetSavePath);
    assert_eq!(field.input.value(), "hello");
    assert_eq!(field.input.cursor(), 5);
    field.handle(InputRequest::InsertChar(','));
    assert_eq!(field.input.value(), "hello,");
    field.handle(InputRequest::GoToPrevChar);
    field.handle(InputRequest::GoToPrevChar);
    field.handle(InputRequest::InsertChar('!'));
    assert_eq!(field.input.value(), "hell!o,");
    assert_eq!(field.input.cursor(), 5);
    field.handle(InputRequest::DeletePrevChar);
    assert_eq!(field.input.value(), "hello,");
    field.handle(InputRequest::DeleteNextChar);
    assert_eq!(field.input.value(), "hell,");
    field.handle(InputRequest::GoToNextChar);
    field.handle(InputRequest::GoToNextChar);
    assert_eq!(field.input.cursor(), 5);
    assert_eq!(field.role, FileInputRole::GetSavePath);
    assert_eq!(field.to_path(), std::path::PathBuf::from("hell,"));
}

fn three_highlights() -> Vec<Highlight> {
    vec![
        Highlight {
            start: Position { line: 0, offset: 1 },
            length: 2,
            is_selected: false,
        },
        Highlight {
            start: Position { line: 1, offset: 3 },
            length: 2,
            is_selected: true,
        },
        Highlight {
            start: Position { line: 2, offset: 5 },
            length: 2,
            is_selected: true,
        },
    ]
}

fn selected(state: &HighlightState) -> Vec<bool> {
    state.highlights.iter().map(|h| h.is_selected).collect()
}

#[test]
fn focus_comes_round_after_as_many_steps_as_there_are_highlights() {
    let mut ui = UIState::new();
    assert_eq!(ui.focused_highlight_position(), None);
    ui.focus_next_highlight();
    ui.focus_prev_highlight();
    assert_eq!(ui.buffer_state.highlight_state.focused, 0);

    ui.update_highlights(three_highlights());
    assert_eq!(ui.buffer_state.highlight_state.focused, 0);
    assert_eq!(
        selected(&ui.buffer_state.highlight_state),
        vec![true, false, false]
    );
    assert_eq!(
        ui.focused_highlight_position(),
        Some(Position { line: 0, offset: 1 })
    );

    ui.focus_prev_highlight();
    assert_eq!(ui.buffer_state.highlight_state.focused, 2);
    assert_eq!(
        selected(&ui.buffer_state.highlight_state),
        vec![false, false, true]
    );
    ui.focus_next_highlight();
    assert_eq!(ui.buffer_state.highlight_state.focused, 0);

    for start in 0..3 {
        while ui.buffer_state.highlight_state.focused != start {
            ui.focus_next_highlight();
        }
        for _ in 0..3 {
            ui.focus_next_highlight();
        }
        assert_eq!(ui.buffer_state.highlight_state.focused, start);
        for _ in 0..3 {
            ui.focus_prev_highlight();
        }
        assert_eq!(ui.buffer_state.highlight_state.focused, start);
        let marks = selected(&ui.buffer_state.highlight_state);
        assert_eq!(marks.iter().filter(|m| **m).count(), 1);
        assert!(marks[start]);
    }

    assert!(ui.is_well_formed());
    ui.buffer_state.highlight_state.focused = 3;
    assert!(!ui.is_well_formed());
    ui.buffer_state.highlight_state.focused = 1;
    assert!(!ui.is_well_formed());
    ui.buffer_state.highlight_state.highlights[2].is_selected = false;
    ui.buffer_state.highlight_state.highlights[1].is_selected = true;
    assert!(ui.is_well_formed());

    ui.clear_highlights();
    assert!(ui.buffer_state.highlight_state.highlights.is_empty());
    assert_eq!(ui.buffer_state.highlight_state.focused, 0);
    assert!(ui.is_well_formed());
    ui.buffer_state.highlight_state.focused = 1;
    assert!(!ui.is_well_formed());
}
