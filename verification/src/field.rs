//! The one-line text field of the status bar, kept by the `tui-input`
//! crate, and the requests the editor sends to it.

use vstd::prelude::*;
use vstd::string::*;
use tui_input::Input;

verus! {

/// The state of a one-line text field, from the `tui-input` crate.
#[verifier::external_type_specification]
#[verifier::external_body]
pub struct ExInput(Input);

/// A path of the file system, from `std::path`.
#[verifier::external_type_specification]
#[verifier::external_body]
pub struct ExPathBuf(std::path::PathBuf);

/// The characters that a field holds.
pub uninterp spec fn field_value(input: Input) -> Seq<char>;

/// The place of a field's cursor, as a number of characters from the start.
pub uninterp spec fn field_cursor(input: Input) -> nat;

/// The text that a path was made from, where it was made from one.
pub uninterp spec fn path_text(path: std::path::PathBuf) -> Seq<char>;

/// What a key can ask of a text field.
#[derive(Debug, PartialEq, Eq, Clone, Copy, Structural)]
pub enum InputRequest {
    InsertChar(char),
    DeletePrevChar,
    DeleteNextChar,
    GoToPrevChar,
    GoToNextChar,
}

/// The characters of a field after a request.
pub open spec fn value_after(value: Seq<char>, cursor: nat, request: InputRequest) -> Seq<char> {
    match request {
        InputRequest::InsertChar(c) => if cursor >= value.len() {
            value.push(c)
        } else {
            value.insert(cursor as int, c)
        },
        InputRequest::DeletePrevChar => if 0 < cursor <= value.len() {
            value.remove(cursor - 1)
        } else {
            value
        },
        InputRequest::DeleteNextChar => if cursor < value.len() {
            value.remove(cursor as int)
        } else {
            value
        },
        InputRequest::GoToPrevChar => value,
        InputRequest::GoToNextChar => value,
    }
}

/// The place of a field's cursor after a request.
pub open spec fn cursor_after(value: Seq<char>, cursor: nat, request: InputRequest) -> nat {
    match request {
        InputRequest::InsertChar(_) => cursor + 1,
        InputRequest::DeletePrevChar => if cursor == 0 {
            cursor
        } else {
            (cursor - 1) as nat
        },
        InputRequest::DeleteNextChar => cursor,
        InputRequest::GoToPrevChar => if cursor == 0 {
            cursor
        } else {
            (cursor - 1) as nat
        },
        InputRequest::GoToNextChar => if cursor == value.len() {
            cursor
        } else {
            cursor + 1
        },
    }
}

/// Makes a field that holds `text`, through `Input::new`, which puts the
/// cursor behind the last character.
#[verifier::external_body]
pub(crate) fn new_field(text: &str) -> (input: Input)
    ensures
        field_value(input) == text@,
        field_cursor(input) == text@.len(),
{
    Input::new(text.to_string())
}

/// Sends a request to a field, through `Input::handle`. Inserting puts the
/// character at the cursor and moves the cursor behind it; deleting takes
/// out the character before or at the cursor; moving goes one character to
/// the left or right and stops at either end. The crate keeps the cursor
/// at or before the end of the text, so its arithmetic stays in range.
#[verifier::external_body]
pub(crate) fn handle_field(input: &mut Input, request: InputRequest)
    ensures
        field_value(*final(input)) == value_after(
            field_value(*old(input)),
            field_cursor(*old(input)),
            request,
        ),
        field_cursor(*final(input)) == cursor_after(
            field_value(*old(input)),
            field_cursor(*old(input)),
            request,
        ),
{
    input.handle(
        match request {
            InputRequest::InsertChar(c) => tui_input::InputRequest::InsertChar(c),
            InputRequest::DeletePrevChar => tui_input::InputRequest::DeletePrevChar,
            InputRequest::DeleteNextChar => tui_input::InputRequest::DeleteNextChar,
            InputRequest::GoToPrevChar => tui_input::InputRequest::GoToPrevChar,
            InputRequest::GoToNextChar => tui_input::InputRequest::GoToNextChar,
        },
    );
}

/// The characters that a field holds, through `Input::value`.
#[verifier::external_body]
pub(crate) fn field_text(input: &Input) -> (text: String)
    ensures
        text@ == field_value(*input),
{
    input.value().to_string()
}

/// The place of a field's cursor, through `Input::cursor`.
#[verifier::external_body]
pub(crate) fn field_cursor_at(input: &Input) -> (cursor: usize)
    ensures
        cursor == field_cursor(*input),
{
    input.cursor()
}

/// Makes a path from a text, through `PathBuf::from`.
#[verifier::external_body]
pub(crate) fn path_from_text(text: &str) -> (path: std::path::PathBuf)
    ensures
        path_text(path) == text@,
{
    std::path::PathBuf::from(text)
}

} // verus!
