//! The input-mode manager: one session of the editor, and the route that
//! every key press takes through it. A key goes first to the field that is
//! open, if any; then to the keybindings; then, unless Control is held, into
//! the buffer as text; and last to the cursor as a motion.

use vstd::prelude::*;
use vstd::string::*;
use tui_input::Input;
use crate::config::resolve;
use crate::engine::{buffer_text, cursor_of, has_buffer, has_path};
use crate::field::{
    cursor_after, field_cursor, field_text, field_value, handle_field, new_field, path_text,
    value_after, InputRequest,
};
use crate::key_shortcut::{KeyCode, KeyEvent, KeyEventKind, KeyModifiers, KeyShortcut};
use crate::operations::Operation;
use crate::navigation::Motion;
use crate::pike::{found, Pike};
use crate::ui::{
    marked, next_focus, prev_focus, BufferDisplayOffset, FileInputRole, FileInputState,
    Highlight, InputMode, UIState,
};

verus! {

/// One session of the editor: its backend, the state of its user interface,
/// and whether it was asked to end.
pub struct App {
    pub exit: bool,
    pub backend: Pike,
    pub ui_state: UIState,
}

/// Work on files that a key press asks for. The session decides; whoever
/// runs the session does the work.
pub enum Effect {
    /// Nothing.
    Nothing,
    /// Open the file at this path, creating it if it is not there.
    OpenFile(std::path::PathBuf),
    /// Write the current buffer to its file.
    SaveBuffer,
}

/// Text that a key types into the buffer.
#[derive(Debug, PartialEq, Eq, Clone, Copy, Structural)]
pub enum Typed {
    Char(char),
    NewLine,
    Tab,
    Backspace,
}

/// What a key press in an open field means.
#[derive(Debug, PartialEq, Eq, Clone, Copy, Structural)]
pub enum FieldKey {
    /// Take the field's text and act on it.
    Submit,
    /// Close the field.
    Cancel,
    /// Put the next highlight in focus.
    FocusNext,
    /// Put the highlight before in focus.
    FocusPrev,
    /// Edit the field's text.
    Edit(InputRequest),
}

/// The route of a key press.
#[derive(Debug, PartialEq, Eq, Clone, Copy, Structural)]
pub enum Route {
    Field(FieldKey),
    Keybind(Operation),
    Type(Typed),
    Navigate(Motion),
    Ignored,
}

/// Which kind of field is open, if any.
#[derive(Debug, PartialEq, Eq, Clone, Copy, Structural)]
pub enum ModeKind {
    Normal,
    FileInput(FileInputRole),
    SearchInput,
}

/// The kind of an input mode.
pub open spec fn kind_of(mode: InputMode) -> ModeKind {
    match mode {
        InputMode::Normal => ModeKind::Normal,
        InputMode::FileInput(state) => ModeKind::FileInput(state.role),
        InputMode::SearchInput(_) => ModeKind::SearchInput,
    }
}

/// The field that an input mode types into, if any.
pub open spec fn field_of(mode: InputMode) -> Option<Input> {
    match mode {
        InputMode::Normal => None,
        InputMode::FileInput(state) => Some(state.input),
        InputMode::SearchInput(input) => Some(input),
    }
}

/// The request that a key makes of a text field, if it makes one.
pub open spec fn request_of(key: KeyEvent) -> Option<InputRequest> {
    if key.modifiers == KeyModifiers::none() {
        match key.code {
            KeyCode::Char(c) => Some(InputRequest::InsertChar(c)),
            KeyCode::Backspace => Some(InputRequest::DeletePrevChar),
            KeyCode::Delete => Some(InputRequest::DeleteNextChar),
            KeyCode::Left => Some(InputRequest::GoToPrevChar),
            KeyCode::Right => Some(InputRequest::GoToNextChar),
            _ => None,
        }
    } else if key.modifiers == KeyModifiers::shift() {
        match key.code {
            KeyCode::Char(c) => Some(InputRequest::InsertChar(c)),
            _ => None,
        }
    } else {
        None
    }
}

/// What a key means to the open field, if it means anything to it. With
/// `highlights` the search has matches on show.
pub open spec fn field_key(kind: ModeKind, highlights: bool, key: KeyEvent) -> Option<FieldKey> {
    let plain = key.modifiers == KeyModifiers::none();
    match kind {
        ModeKind::Normal => None,
        ModeKind::FileInput(_) => if plain && key.code == KeyCode::Enter {
            Some(FieldKey::Submit)
        } else if plain && key.code == KeyCode::Esc {
            Some(FieldKey::Cancel)
        } else {
            match request_of(key) {
                Some(request) => Some(FieldKey::Edit(request)),
                None => None,
            }
        },
        ModeKind::SearchInput => if plain && key.code == KeyCode::Enter {
            Some(FieldKey::Submit)
        } else if plain && key.code == KeyCode::Right && highlights {
            Some(FieldKey::FocusNext)
        } else if plain && key.code == KeyCode::Left && highlights {
            Some(FieldKey::FocusPrev)
        } else if plain && key.code == KeyCode::Esc {
            Some(FieldKey::Cancel)
        } else {
            match request_of(key) {
                Some(request) => Some(FieldKey::Edit(request)),
                None => None,
            }
        },
    }
}

/// What a key types into the buffer, if it types anything.
pub open spec fn typed_by(key: KeyEvent) -> Option<Typed> {
    match key.code {
        KeyCode::Char(c) => Some(Typed::Char(c)),
        KeyCode::Enter => Some(Typed::NewLine),
        KeyCode::Tab => Some(Typed::Tab),
        KeyCode::Backspace => Some(Typed::Backspace),
        _ => None,
    }
}

/// The motion that a key asks of the cursor, if it asks for one.
pub open spec fn motion_of(key: KeyEvent) -> Option<Motion> {
    match key.code {
        KeyCode::Left => if key.modifiers.control {
            Some(Motion::WordLeft)
        } else {
            Some(Motion::Left)
        },
        KeyCode::Right => if key.modifiers.control {
            Some(Motion::WordRight)
        } else {
            Some(Motion::Right)
        },
        KeyCode::Up => Some(Motion::Up),
        KeyCode::Down => Some(Motion::Down),
        KeyCode::End => Some(Motion::End),
        KeyCode::Home => Some(Motion::Home),
        _ => None,
    }
}

/// The route of a key press. `binding` is what the keybinding table holds
/// for the key's chord, and `buffer` says whether a buffer is open.
pub open spec fn route_of(
    kind: ModeKind,
    highlights: bool,
    binding: Option<Operation>,
    buffer: bool,
    key: KeyEvent,
) -> Route {
    match field_key(kind, highlights, key) {
        Some(meaning) => Route::Field(meaning),
        None => match binding {
            Some(op) => Route::Keybind(op),
            None => if !key.modifiers.control && buffer && typed_by(key) is Some {
                Route::Type(typed_by(key)->0)
            } else {
                match motion_of(key) {
                    Some(motion) => Route::Navigate(motion),
                    None => Route::Ignored,
                }
            },
        },
    }
}

/// The text that a key types.
pub open spec fn text_of(typed: Typed) -> Seq<char> {
    match typed {
        Typed::Char(c) => seq![c],
        Typed::NewLine => seq!['\n'],
        Typed::Tab => seq![' ', ' ', ' ', ' '],
        Typed::Backspace => Seq::<char>::empty(),
    }
}

/// A string of one character.
fn char_text(c: char) -> (text: String)
    ensures
        text@ == seq![c],
{
    let mut text = String::new();
    crate::text::push_char(&mut text, c);
    assert(text@ == seq![c]);
    text
}

/// The request that a key makes of a text field, if it makes one.
pub fn key_event_to_input_request(key: KeyEvent) -> (request: Option<InputRequest>)
    ensures
        request == request_of(key),
{
    if key.modifiers.is_empty() {
        match key.code {
            KeyCode::Char(c) => Some(InputRequest::InsertChar(c)),
            KeyCode::Backspace => Some(InputRequest::DeletePrevChar),
            KeyCode::Delete => Some(InputRequest::DeleteNextChar),
            KeyCode::Left => Some(InputRequest::GoToPrevChar),
            KeyCode::Right => Some(InputRequest::GoToNextChar),
            _ => None,
        }
    } else if key.modifiers == KeyModifiers::shift() {
        match key.code {
            KeyCode::Char(c) => Some(InputRequest::InsertChar(c)),
            _ => None,
        }
    } else {
        None
    }
}

impl App {
    /// The highlights are well-formed.
    pub open spec fn wf(&self) -> bool {
        self.ui_state.wf()
    }

    /// Whether the search has matches on show.
    pub open spec fn highlights_shown(&self) -> bool {
        self.ui_state.buffer_state.highlight_state.highlights@.len() > 0
    }

    /// The route that a key press takes through this session.
    pub open spec fn route(&self, key: KeyEvent) -> Route {
        route_of(
            kind_of(self.ui_state.mode),
            self.highlights_shown(),
            resolve(
                self.backend.config.key_mappings@,
                KeyShortcut { code: key.code, modifiers: key.modifiers },
            ),
            has_buffer(self.backend.workspace),
            key,
        )
    }

    /// Nothing changed but the input mode, which is now `mode`.
    pub open spec fn mode_became(&self, mode: InputMode, after: App) -> bool {
        &&& after.exit == self.exit
        &&& after.backend == self.backend
        &&& after.ui_state.buffer_state == self.ui_state.buffer_state
        &&& after.ui_state.mode == mode
    }

    /// Nothing changed but the open field, which took `request`.
    pub open spec fn field_edited(&self, request: InputRequest, after: App) -> bool {
        &&& after.exit == self.exit
        &&& after.backend == self.backend
        &&& after.ui_state.buffer_state == self.ui_state.buffer_state
        &&& kind_of(after.ui_state.mode) == kind_of(self.ui_state.mode)
        &&& field_of(self.ui_state.mode) matches Some(before)
        &&& field_of(after.ui_state.mode) matches Some(now)
        &&& field_value(now) == value_after(field_value(before), field_cursor(before), request)
        &&& field_cursor(now) == cursor_after(field_value(before), field_cursor(before), request)
    }

    /// The field was submitted. A path to open is handed out to be opened; a
    /// path to save to is bound to the buffer, which is then to be saved;
    /// either way the field is closed. A query is searched for: without a
    /// match, or without a buffer, no highlight is left; else the matches
    /// are the highlights, the first is in focus and the cursor is sent to
    /// it, and the field stays open.
    pub open spec fn field_submitted(&self, after: App, effect: Effect) -> bool {
        match self.ui_state.mode {
            InputMode::Normal => after == *self && effect is Nothing,
            InputMode::FileInput(state) => {
                &&& after.exit == self.exit
                &&& after.ui_state.buffer_state == self.ui_state.buffer_state
                &&& after.ui_state.mode is Normal
                &&& match state.role {
                    FileInputRole::GetOpenPath => {
                        &&& after.backend == self.backend
                        &&& effect matches Effect::OpenFile(path)
                        &&& path_text(path) == field_value(state.input)
                    },
                    FileInputRole::GetSavePath => if has_buffer(self.backend.workspace) {
                        &&& effect is SaveBuffer
                        &&& after.backend.config == self.backend.config
                        &&& after.backend.cursor_history == self.backend.cursor_history
                        &&& has_buffer(after.backend.workspace)
                        &&& has_path(after.backend.workspace)
                        &&& crate::engine::bound_path(after.backend.workspace) == field_value(
                            state.input,
                        )
                        &&& buffer_text(after.backend.workspace) == buffer_text(
                            self.backend.workspace,
                        )
                        &&& cursor_of(after.backend.workspace) == cursor_of(self.backend.workspace)
                    } else {
                        after.backend == self.backend && effect is Nothing
                    },
                }
            },
            InputMode::SearchInput(input) => {
                let matches = if has_buffer(self.backend.workspace) {
                    found(buffer_text(self.backend.workspace), field_value(input))
                } else {
                    Seq::<Highlight>::empty()
                };
                &&& effect is Nothing
                &&& after.exit == self.exit
                &&& after.ui_state.mode == self.ui_state.mode
                &&& after.ui_state.buffer_state.offset == self.ui_state.buffer_state.offset
                &&& after.ui_state.buffer_state.highlight_state.focused == 0
                &&& if matches.len() == 0 {
                    &&& after.ui_state.buffer_state.highlight_state.highlights@.len() == 0
                    &&& after.backend == self.backend
                } else {
                    &&& after.ui_state.buffer_state.highlight_state.highlights@ == marked(
                        matches,
                        0,
                    )
                    &&& self.backend.cursor_sent(matches[0].start, after.backend)
                }
            },
        }
    }

    /// The field was closed, and with a search field the highlights went.
    pub open spec fn field_cancelled(&self, after: App) -> bool {
        &&& after.exit == self.exit
        &&& after.backend == self.backend
        &&& after.ui_state.mode is Normal
        &&& after.ui_state.buffer_state.offset == self.ui_state.buffer_state.offset
        &&& if self.ui_state.mode is SearchInput {
            &&& after.ui_state.buffer_state.highlight_state.highlights@.len() == 0
            &&& after.ui_state.buffer_state.highlight_state.focused == 0
        } else {
            after.ui_state.buffer_state == self.ui_state.buffer_state
        }
    }

    /// The focus went on to the next highlight, and the cursor was sent to
    /// it.
    pub open spec fn focus_advanced(&self, after: App) -> bool {
        let highlights = self.ui_state.buffer_state.highlight_state.highlights@;
        let focused = next_focus(
            self.ui_state.buffer_state.highlight_state.focused as int,
            highlights.len() as int,
        );
        &&& after.exit == self.exit
        &&& after.ui_state.mode == self.ui_state.mode
        &&& after.ui_state.buffer_state.offset == self.ui_state.buffer_state.offset
        &&& after.ui_state.buffer_state.highlight_state.focused == focused
        &&& after.ui_state.buffer_state.highlight_state.highlights@ == marked(highlights, focused)
        &&& self.backend.cursor_sent(highlights[focused].start, after.backend)
    }

    /// The focus went back to the highlight before; the cursor stayed.
    pub open spec fn focus_retreated(&self, after: App) -> bool {
        let highlights = self.ui_state.buffer_state.highlight_state.highlights@;
        let focused = prev_focus(
            self.ui_state.buffer_state.highlight_state.focused as int,
            highlights.len() as int,
        );
        &&& after.exit == self.exit
        &&& after.backend == self.backend
        &&& after.ui_state.mode == self.ui_state.mode
        &&& after.ui_state.buffer_state.offset == self.ui_state.buffer_state.offset
        &&& after.ui_state.buffer_state.highlight_state.focused == focused
        &&& after.ui_state.buffer_state.highlight_state.highlights@ == marked(highlights, focused)
    }

    /// What a key that the open field takes does to the session.
    pub open spec fn field_key_handled(&self, meaning: FieldKey, after: App, effect: Effect) -> bool {
        match meaning {
            FieldKey::Submit => self.field_submitted(after, effect),
            FieldKey::Cancel => self.field_cancelled(after) && effect is Nothing,
            FieldKey::FocusNext => self.focus_advanced(after) && effect is Nothing,
            FieldKey::FocusPrev => self.focus_retreated(after) && effect is Nothing,
            FieldKey::Edit(request) => self.field_edited(request, after) && effect is Nothing,
        }
    }

    /// Another buffer may have become current: the backend has switched, and
    /// the view is scrolled back to the start.
    pub open spec fn buffer_changed(&self, after: App) -> bool {
        &&& after.exit == self.exit
        &&& after.ui_state.mode == self.ui_state.mode
        &&& after.ui_state.buffer_state.highlight_state
            == self.ui_state.buffer_state.highlight_state
        &&& after.ui_state.buffer_state.offset == (BufferDisplayOffset { x: 0, y: 0 })
    }

    /// Only the backend changed.
    pub open spec fn only_backend_changed(&self, after: App) -> bool {
        &&& after.exit == self.exit
        &&& after.ui_state == self.ui_state
    }

    /// An empty field that asks for a path is open and nothing else has
    /// changed, but that the highlights went if it was the search field that
    /// the new field has taken the place of.
    pub open spec fn file_field_opened(&self, role: FileInputRole, after: App) -> bool {
        &&& after.exit == self.exit
        &&& after.backend == self.backend
        &&& after.ui_state.buffer_state.offset == self.ui_state.buffer_state.offset
        &&& if self.ui_state.mode is SearchInput {
            &&& after.ui_state.buffer_state.highlight_state.highlights@.len() == 0
            &&& after.ui_state.buffer_state.highlight_state.focused == 0
        } else {
            after.ui_state.buffer_state == self.ui_state.buffer_state
        }
        &&& after.ui_state.mode matches InputMode::FileInput(state)
        &&& state.role == role
        &&& field_value(state.input) == Seq::<char>::empty()
        &&& field_cursor(state.input) == 0
    }

    /// What an operation does to the session.
    pub open spec fn operated(&self, op: Operation, after: App, effect: Effect) -> bool {
        match op {
            Operation::OpenFile => {
                &&& effect is Nothing
                &&& self.file_field_opened(FileInputRole::GetOpenPath, after)
            },
            Operation::SearchInCurrentBuffer => {
                &&& effect is Nothing
                &&& after.exit == self.exit
                &&& after.backend == self.backend
                &&& after.ui_state.buffer_state == self.ui_state.buffer_state
                &&& after.ui_state.mode matches InputMode::SearchInput(input)
                &&& field_value(input) == Seq::<char>::empty()
                &&& field_cursor(input) == 0
            },
            Operation::SaveBufferToFile => if has_buffer(self.backend.workspace) && has_path(
                self.backend.workspace,
            ) {
                after == *self && effect is SaveBuffer
            } else {
                &&& effect is Nothing
                &&& self.file_field_opened(FileInputRole::GetSavePath, after)
            },
            Operation::Quit => {
                &&& effect is Nothing
                &&& after.exit
                &&& after.backend == self.backend
                &&& after.ui_state == self.ui_state
            },
            Operation::CreateNewBuffer => if self.backend.takes_new_buffer() {
                &&& effect is Nothing
                &&& self.buffer_changed(after)
                &&& self.backend.opened_new(after.backend)
            } else {
                after == *self && effect is Nothing
            },
            Operation::SwitchToPreviousBuffer => if crate::engine::has_index(
                self.backend.workspace,
            ) {
                &&& effect is Nothing
                &&& self.buffer_changed(after)
                &&& self.backend.switched_back(after.backend)
            } else {
                after == *self && effect is Nothing
            },
            Operation::SwitchToNextBuffer => if crate::engine::has_index(self.backend.workspace) {
                &&& effect is Nothing
                &&& self.buffer_changed(after)
                &&& self.backend.switched_on(after.backend)
            } else {
                after == *self && effect is Nothing
            },
            Operation::Undo => {
                &&& effect is Nothing
                &&& self.only_backend_changed(after)
                &&& self.backend.undid(after.backend)
            },
            Operation::Redo => {
                &&& effect is Nothing
                &&& self.only_backend_changed(after)
                &&& self.backend.redid(after.backend)
            },
            _ => after == *self && effect is Nothing,
        }
    }

    /// What typing does to the session, where a buffer is open.
    pub open spec fn typed(&self, typed: Typed, after: App) -> bool {
        &&& self.only_backend_changed(after)
        &&& match typed {
            Typed::Backspace => self.backend.deleted_backwards(after.backend),
            _ => self.backend.wrote(text_of(typed), after.backend),
        }
    }

    /// What a motion does to the session: the backend's cursor is sent on
    /// its way, and nothing else changes.
    pub open spec fn navigated(&self, motion: Motion, after: App) -> bool {
        &&& self.only_backend_changed(after)
        &&& self.backend.cursor_moved(motion, after.backend)
    }

    /// What a key press does to the session, by its route.
    pub open spec fn pressed(&self, key: KeyEvent, after: App, effect: Effect) -> bool {
        match self.route(key) {
            Route::Field(meaning) => self.field_key_handled(meaning, after, effect),
            Route::Keybind(op) => self.operated(op, after, effect),
            Route::Type(typed) => self.typed(typed, after) && effect is Nothing,
            Route::Navigate(motion) => self.navigated(motion, after) && effect is Nothing,
            Route::Ignored => after == *self && effect is Nothing,
        }
    }

    /// A session over a backend: in normal mode, unscrolled, without
    /// highlights.
    pub fn new(backend: Pike) -> (app: App)
        ensures
            !app.exit,
            app.backend == backend,
            app.ui_state.mode is Normal,
            app.ui_state.buffer_state.offset == (BufferDisplayOffset { x: 0, y: 0 }),
            !app.highlights_shown(),
            app.wf(),
    {
        App { exit: false, backend, ui_state: UIState::new() }
    }

    /// Whether the session was asked to end.
    pub fn should_exit(&self) -> (exit: bool)
        ensures
            exit == self.exit,
    {
        self.exit
    }

    /// Tells the session that the file it asked for is open and current:
    /// the cursor goes to the start, the cursor's history begins anew, and
    /// the view is scrolled back to the start.
    pub fn file_opened(&mut self)
        ensures
            old(self).buffer_changed(*final(self)),
            final(self).backend.config == old(self).backend.config,
            crate::engine::same_contents(old(self).backend.workspace, final(self).backend.workspace),
            final(self).backend.cursor_history@ == (crate::history::Stacks {
                undo: Seq::<crate::position::Position>::empty(),
                redo: Seq::<crate::position::Position>::empty(),
            }),
            has_buffer(old(self).backend.workspace) ==> cursor_of(final(self).backend.workspace)
                == crate::engine::moved_to(
                old(self).backend.workspace,
                crate::position::Position { line: 0, offset: 0 },
            ),
            !has_buffer(old(self).backend.workspace) ==> final(self).backend.workspace == old(self).backend.workspace,
    {
        self.backend.enter_opened_buffer(0, 0);
        self.ui_state.buffer_state.offset = BufferDisplayOffset::new(0, 0);
    }

    /// Open a search field with the given contents.
    fn open_search_input(&mut self, contents: &str)
        ensures
            final(self).exit == old(self).exit,
            final(self).backend == old(self).backend,
            final(self).ui_state.buffer_state == old(self).ui_state.buffer_state,
            final(self).ui_state.mode matches InputMode::SearchInput(input) && field_value(input)
                == contents@ && field_cursor(input) == contents@.len(),
    {
        self.ui_state.mode = InputMode::SearchInput(new_field(contents));
    }

    /// Open an empty file input. Where it takes the place of the search
    /// field, the highlights of the search go with that field.
    fn open_file_input(&mut self, role: FileInputRole)
        ensures
            old(self).file_field_opened(role, *final(self)),
    {
        proof {
            reveal_strlit("");
            assert(""@ == Seq::<char>::empty());
        }
        match self.ui_state.mode {
            InputMode::SearchInput(_) => {
                self.ui_state.clear_highlights();
            },
            _ => {},
        }
        self.ui_state.mode = InputMode::FileInput(FileInputState::new("", role));
    }

    /// Close the field that is open, if any.
    fn close_input(&mut self)
        ensures
            old(self).mode_became(InputMode::Normal, *final(self)),
    {
        self.ui_state.mode = InputMode::Normal;
    }

    /// Handles a key event: a press takes its route, anything else is
    /// passed over.
    pub fn handle_key_event(&mut self, event: KeyEvent) -> (effect: Effect)
        requires
            old(self).wf(),
        ensures
            final(self).wf(),
            event.kind == KeyEventKind::Press ==> old(self).pressed(event, *final(self), effect),
            event.kind != KeyEventKind::Press ==> *final(self) == *old(self) && effect is Nothing,
    {
        match event.kind {
            KeyEventKind::Press => self.handle_key_press(event),
            _ => Effect::Nothing,
        }
    }

    /// Try to handle the key press using a file input. Returns whether the
    /// event has been handled, and what is left to do on files.
    pub fn try_handle_key_press_with_file_input(&mut self, key: KeyEvent) -> (outcome: (
        bool,
        Effect,
    ))
        requires
            old(self).wf(),
        ensures
            final(self).wf(),
            outcome.0 == (old(self).ui_state.mode is FileInput && field_key(
                kind_of(old(self).ui_state.mode),
                old(self).highlights_shown(),
                key,
            ) is Some),
            outcome.0 ==> old(self).field_key_handled(
                field_key(kind_of(old(self).ui_state.mode), old(self).highlights_shown(), key)->0,
                *final(self),
                outcome.1,
            ),
            !outcome.0 ==> *final(self) == *old(self) && outcome.1 is Nothing,
    {
        let plain = key.modifiers.is_empty();
        match &mut self.ui_state.mode {
            InputMode::FileInput(input) => {
                if plain && key.code == KeyCode::Enter {
                    let path = input.to_path();
                    let role = input.role;
                    let effect = match role {
                        FileInputRole::GetOpenPath => Effect::OpenFile(path),
                        FileInputRole::GetSavePath => {
                            self.backend.bind_current_buffer_to_path(path);
                            if self.backend.current_buffer_path().is_some() {
                                Effect::SaveBuffer
                            } else {
                                Effect::Nothing
                            }
                        },
                    };
                    self.close_input();
                    return (true, effect);
                }
                if plain && key.code == KeyCode::Esc {
                    self.close_input();
                    return (true, Effect::Nothing);
                }
                match key_event_to_input_request(key) {
                    Some(request) => {
                        input.handle(request);
                        (true, Effect::Nothing)
                    },
                    None => (false, Effect::Nothing),
                }
            },
            _ => (false, Effect::Nothing),
        }
    }

    /// Try to handle key input when the search input is open: searching,
    /// going through the matches, and closing. Returns whether the event has
    /// been handled.
    pub fn try_handle_key_press_with_search_input(&mut self, key: KeyEvent) -> (handled: bool)
        requires
            old(self).wf(),
        ensures
            final(self).wf(),
            handled == (old(self).ui_state.mode is SearchInput && field_key(
                kind_of(old(self).ui_state.mode),
                old(self).highlights_shown(),
                key,
            ) is Some),
            handled ==> old(self).field_key_handled(
                field_key(kind_of(old(self).ui_state.mode), old(self).highlights_shown(), key)->0,
                *final(self),
                Effect::Nothing,
            ),
            !handled ==> *final(self) == *old(self),
    {
        let plain = key.modifiers.is_empty();
        let shown = self.ui_state.buffer_state.highlight_state.highlights.len() > 0;
        match &mut self.ui_state.mode {
            InputMode::SearchInput(input) => {
                if plain && key.code == KeyCode::Enter {
                    let query = field_text(input);
                    let highlights = match self.backend.search_in_current_buffer(query.as_str()) {
                        Ok(highlights) => highlights,
                        Err(_) => Vec::new(),
                    };
                    if highlights.len() == 0 {
                        self.ui_state.clear_highlights();
                        return true;
                    }
                    self.ui_state.update_highlights(highlights);
                    match self.ui_state.focused_highlight_position() {
                        Some(position) => {
                            self.backend.move_cursor_to(position);
                        },
                        None => {},
                    }
                    return true;
                }
                if plain && key.code == KeyCode::Right && shown {
                    self.ui_state.focus_next_highlight();
                    match self.ui_state.focused_highlight_position() {
                        Some(position) => {
                            self.backend.move_cursor_to(position);
                        },
                        None => {},
                    }
                    return true;
                }
                if plain && key.code == KeyCode::Left && shown {
                    self.ui_state.focus_prev_highlight();
                    return true;
                }
                if plain && key.code == KeyCode::Esc {
                    self.ui_state.clear_highlights();
                    self.close_input();
                    return true;
                }
                match key_event_to_input_request(key) {
                    Some(request) => {
                        handle_field(input, request);
                        true
                    },
                    None => false,
                }
            },
            _ => false,
        }
    }

    /// Tries to match the given key event to a registered keybind and
    /// handle it.
    pub fn try_handle_keybind(&mut self, key: KeyEvent) -> (outcome: (bool, Effect))
        requires
            old(self).wf(),
        ensures
            final(self).wf(),
            outcome.0 == resolve(
                old(self).backend.config.key_mappings@,
                KeyShortcut { code: key.code, modifiers: key.modifiers },
            ) is Some,
            outcome.0 ==> old(self).operated(
                resolve(
                    old(self).backend.config.key_mappings@,
                    KeyShortcut { code: key.code, modifiers: key.modifiers },
                )->0,
                *final(self),
                outcome.1,
            ),
            !outcome.0 ==> *final(self) == *old(self) && outcome.1 is Nothing,
    {
        match self.backend.get_keymap(&KeyShortcut::from_key_event(&key)) {
            Some(op) => {
                let effect = self.handle_operation(op);
                (true, effect)
            },
            None => (false, Effect::Nothing),
        }
    }

    /// Types a key into the buffer, if a buffer is open and the key types
    /// anything.
    pub fn try_handle_input_key(&mut self, key: KeyEvent) -> (handled: bool)
        requires
            old(self).wf(),
        ensures
            final(self).wf(),
            handled == (has_buffer(old(self).backend.workspace) && typed_by(key) is Some),
            handled ==> old(self).typed(typed_by(key)->0, *final(self)),
            !handled ==> *final(self) == *old(self),
    {
        if self.backend.cursor_position().is_none() {
            return false;
        }
        match key.code {
            KeyCode::Char(ch) => {
                let text = char_text(ch);
                let _ = self.backend.write_to_current_buffer(text.as_str());
                true
            },
            KeyCode::Enter => {
                proof {
                    reveal_strlit("\n");
                    assert("\n"@ == seq!['\n']);
                }
                let _ = self.backend.write_to_current_buffer("\n");
                true
            },
            KeyCode::Tab => {
                proof {
                    reveal_strlit("    ");
                    assert("    "@ == seq![' ', ' ', ' ', ' ']);
                }
                let _ = self.backend.write_to_current_buffer("    ");
                true
            },
            KeyCode::Backspace => {
                self.backend.delete_character_from_current_buffer();
                true
            },
            _ => false,
        }
    }

    /// Moves the cursor as a key asks, if it asks for a motion.
    pub fn try_handle_navigation(&mut self, key: KeyEvent) -> (handled: bool)
        requires
            old(self).wf(),
        ensures
            final(self).wf(),
            handled == motion_of(key) is Some,
            handled ==> old(self).navigated(motion_of(key)->0, *final(self)),
            !handled ==> *final(self) == *old(self),
    {
        match key.code {
            KeyCode::Left => {
                if key.modifiers.contains(KeyModifiers::control()) {
                    self.backend.move_cursor_left_by_word();
                } else {
                    self.backend.move_cursor_left();
                }
                true
            },
            KeyCode::Right => {
                if key.modifiers.contains(KeyModifiers::control()) {
                    self.backend.move_cursor_right_by_word();
                } else {
                    self.backend.move_cursor_right();
                }
                true
            },
            KeyCode::Up => {
                self.backend.move_cursor_up();
                true
            },
            KeyCode::Down => {
                self.backend.move_cursor_down();
                true
            },
            KeyCode::End => {
                self.backend.move_cursor_to_end_of_line();
                true
            },
            KeyCode::Home => {
                self.backend.move_cursor_to_start_of_line();
                true
            },
            _ => false,
        }
    }

    /// Handles a key press: the first of the handlers that takes the key
    /// wins, in the order of the routes.
    pub fn handle_key_press(&mut self, key: KeyEvent) -> (effect: Effect)
        requires
            old(self).wf(),
        ensures
            final(self).wf(),
            old(self).pressed(key, *final(self), effect),
    {
        let (handled, effect) = self.try_handle_key_press_with_file_input(key);
        if handled {
            return effect;
        }
        if self.try_handle_key_press_with_search_input(key) {
            return Effect::Nothing;
        }
        let (handled, effect) = self.try_handle_keybind(key);
        if handled {
            return effect;
        }
        if !key.modifiers.contains(KeyModifiers::control()) && self.try_handle_input_key(key) {
            return Effect::Nothing;
        }
        self.try_handle_navigation(key);
        Effect::Nothing
    }

    /// Carries out an operation.
    pub fn handle_operation(&mut self, op: Operation) -> (effect: Effect)
        requires
            old(self).wf(),
        ensures
            final(self).wf(),
            old(self).operated(op, *final(self), effect),
    {
        match op {
            Operation::OpenFile => {
                self.open_file_input(FileInputRole::GetOpenPath);
                Effect::Nothing
            },
            Operation::Quit => {
                self.exit = true;
                Effect::Nothing
            },
            Operation::CreateNewBuffer => {
                if self.backend.open_new_buffer() {
                    self.ui_state.buffer_state.offset = BufferDisplayOffset::new(0, 0);
                }
                Effect::Nothing
            },
            Operation::SwitchToPreviousBuffer => {
                if self.backend.previous_buffer() {
                    self.ui_state.buffer_state.offset = BufferDisplayOffset::new(0, 0);
                }
                Effect::Nothing
            },
            Operation::SwitchToNextBuffer => {
                if self.backend.next_buffer() {
                    self.ui_state.buffer_state.offset = BufferDisplayOffset::new(0, 0);
                }
                Effect::Nothing
            },
            Operation::SaveBufferToFile => self.handle_save_operation(),
            Operation::SearchInCurrentBuffer => {
                proof {
                    reveal_strlit("");
                    assert(""@ == Seq::<char>::empty());
                }
                self.open_search_input("");
                Effect::Nothing
            },
            Operation::Undo => {
                self.backend.undo();
                Effect::Nothing
            },
            Operation::Redo => {
                self.backend.redo();
                Effect::Nothing
            },
            _ => Effect::Nothing,
        }
    }

    /// Saves the buffer if it is bound to a path, and asks for a path if it
    /// is not.
    pub fn handle_save_operation(&mut self) -> (effect: Effect)
        requires
            old(self).wf(),
        ensures
            final(self).wf(),
            old(self).operated(Operation::SaveBufferToFile, *final(self), effect),
    {
        if self.backend.current_buffer_path().is_some() {
            Effect::SaveBuffer
        } else {
            self.open_file_input(FileInputRole::GetSavePath);
            Effect::Nothing
        }
    }
}

/// A key that the open field takes goes to the field, whatever the
/// keybindings hold for it.
pub proof fn lemma_field_comes_first(
    kind: ModeKind,
    highlights: bool,
    binding: Option<Operation>,
    buffer: bool,
    key: KeyEvent,
)
    requires
        field_key(kind, highlights, key) is Some,
    ensures
        route_of(kind, highlights, binding, buffer, key) == Route::Field(
            field_key(kind, highlights, key)->0,
        ),
{
}

/// In normal mode a key that is bound triggers its operation, though it
/// could type a character or move the cursor.
pub proof fn lemma_keybind_before_typing(
    highlights: bool,
    op: Operation,
    buffer: bool,
    key: KeyEvent,
)
    ensures
        route_of(ModeKind::Normal, highlights, Some(op), buffer, key) == Route::Keybind(op),
{
}

/// A key pressed with Control never types into the buffer, and without an
/// open buffer no key does.
pub proof fn lemma_typing_needs_buffer_and_no_control(
    kind: ModeKind,
    highlights: bool,
    binding: Option<Operation>,
    buffer: bool,
    key: KeyEvent,
)
    requires
        key.modifiers.control || !buffer,
    ensures
        !(route_of(kind, highlights, binding, buffer, key) is Type),
{
}

} // verus!
