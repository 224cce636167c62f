//! The editor's backend: the engine's buffers together with the keybinding
//! table and the cursor's history, and the compound operations on them.

use vstd::prelude::*;
use vstd::string::*;
use scribe::Workspace;
use crate::config::{resolve, Config};
use crate::engine::{
    buffer_text, cursor_line, cursor_of, cursor_offset, engine_bind, engine_buffer,
    engine_cursor, engine_delete, engine_has_plain_syntax, engine_index, engine_insert, engine_modified, engine_move_down,
    engine_move_left, engine_move_right, engine_move_to, engine_move_to_end_of_line,
    engine_move_to_start_of_line, engine_move_up, engine_new_buffer, engine_next_buffer,
    engine_path, engine_previous_buffer, engine_redo, engine_search, engine_text, engine_undo,
    bound_path, cursor_line_after_next, cursor_line_after_previous, cursor_offset_after_next,
    cursor_offset_after_previous, has_buffer, has_index, has_path, has_plain_syntax, in_bounds,
    shown_path, text_after_next, text_after_previous, is_modified, line_length, matches_of, moved_onto, moved_to,
    same_contents, same_cursor, text_after_redo, text_after_undo, text_with, text_without,
};
use crate::field::path_text;
use crate::grapheme::{
    cluster_offset, clusters_within, grapheme_clusters, grapheme_count, graphemes,
};
use crate::history::{recorded, redone, undone, CursorHistory, Stacks};
use crate::key_shortcut::KeyShortcut;
use crate::navigation::{
    line_flags, word_left, word_left_target, word_right, word_right_target, Motion,
};
use crate::operations::Operation;
use crate::position::Position;
use crate::text::{lemma_split_on_nonempty, lines_of, split, split_lines, split_on, views};
use crate::ui::Highlight;

verus! {

/// Backend of the app.
pub struct Pike {
    pub workspace: Workspace,
    pub config: Config,
    pub cursor_history: CursorHistory,
}

/// Why the backend could not do what was asked.
#[derive(Debug, PartialEq, Eq, Clone, Copy, Structural)]
pub enum BufferError {
    /// No buffer is open.
    NoBuffer,
    /// No buffer is open to write to.
    NoBufferToWrite,
}

/// The sentence that tells of an error of the backend.
pub open spec fn buffer_error_text(error: BufferError) -> Seq<char> {
    match error {
        BufferError::NoBuffer => "No buffer is currently open"@,
        BufferError::NoBufferToWrite => "Trying to write to a non-existent buffer"@,
    }
}

impl BufferError {
    /// A sentence that says what was wrong.
    pub fn message(&self) -> (text: String)
        ensures
            text@ == buffer_error_text(*self),
    {
        match self {
            BufferError::NoBuffer => String::from_str("No buffer is currently open"),
            BufferError::NoBufferToWrite => String::from_str(
                "Trying to write to a non-existent buffer",
            ),
        }
    }
}

/// Where the cursor belongs once `text` is inserted at `start`: on the same
/// line behind the inserted clusters, or, where the text holds line feeds,
/// as many lines down behind the clusters that follow the last of them.
/// There is no such place where the line or the offset would not fit the
/// machine's integers.
pub open spec fn advanced(start: Position, text: Seq<char>) -> Option<Position> {
    let pieces = split_on(text, '\n');
    let down = pieces.len() - 1;
    let last = grapheme_count(pieces.last());
    let offset = if down == 0 {
        start.offset + last
    } else {
        last as int
    };
    if start.line + down <= usize::MAX && offset <= usize::MAX {
        Some(Position { line: (start.line + down) as usize, offset: offset as usize })
    } else {
        None
    }
}

/// The number of grapheme clusters between two line feeds of a text; zero
/// where the text has no such piece.
pub open spec fn piece_length(text: Seq<char>, line: int) -> nat {
    if 0 <= line < split_on(text, '\n').len() {
        grapheme_count(split_on(text, '\n')[line])
    } else {
        0
    }
}

/// Where the cursor goes before a character is deleted backwards: from the
/// start of a line to the end of the line above, from elsewhere one place
/// to the left, each as far as the buffer lets it.
pub open spec fn backspace_cursor(ws: Workspace) -> Position {
    if cursor_offset(ws) == 0 && cursor_line(ws) > 0 {
        let above = moved_onto(ws, (cursor_line(ws) - 1) as usize);
        let end = Position {
            line: above.line,
            offset: piece_length(buffer_text(ws), above.line as int) as usize,
        };
        if in_bounds(ws, end.line, end.offset) {
            end
        } else {
            above
        }
    } else if cursor_offset(ws) > 0 {
        moved_to(ws, Position { line: cursor_line(ws), offset: (cursor_offset(ws) - 1) as usize })
    } else {
        cursor_of(ws)
    }
}

/// Whether a backwards deletion takes a character out: not at the very
/// start of the buffer.
pub open spec fn backspace_deletes(ws: Workspace) -> bool {
    &&& cursor_offset(ws) > 0 || cursor_line(ws) > 0
    &&& backspace_cursor(ws).line < usize::MAX
    &&& backspace_cursor(ws).offset < usize::MAX
}

/// Where a motion sends the cursor. Single steps are the engine's: a step
/// to the side tries the neighbouring place, a step up or down tries the
/// neighbouring line, and the cursor stays where it cannot go. Word-wise
/// motions are computed here and then tried.
pub open spec fn destination(ws: Workspace, motion: Motion) -> Position {
    let here = cursor_of(ws);
    match motion {
        Motion::Left => if here.offset > 0 {
            moved_to(ws, Position { line: here.line, offset: (here.offset - 1) as usize })
        } else {
            here
        },
        Motion::Right => if here.offset < usize::MAX {
            moved_to(ws, Position { line: here.line, offset: (here.offset + 1) as usize })
        } else {
            here
        },
        Motion::Up => if here.line > 0 {
            moved_onto(ws, (here.line - 1) as usize)
        } else {
            here
        },
        Motion::Down => if here.line < usize::MAX {
            moved_onto(ws, (here.line + 1) as usize)
        } else {
            here
        },
        Motion::Home => moved_to(ws, Position { line: here.line, offset: 0 }),
        Motion::End => if here.line < lines_of(buffer_text(ws)).len() {
            moved_to(
                ws,
                Position {
                    line: here.line,
                    offset: line_length(buffer_text(ws), here.line as int) as usize,
                },
            )
        } else {
            here
        },
        Motion::WordLeft => moved_to(
            ws,
            word_left(line_flags(lines_of(buffer_text(ws))), here),
        ),
        Motion::WordRight => moved_to(
            ws,
            word_right(line_flags(lines_of(buffer_text(ws))), here),
        ),
    }
}

/// The place of a match in the buffer: its line as the engine gives it,
/// and its offset counted in grapheme clusters, where the engine counts the
/// bytes that the line holds before the match.
pub open spec fn match_start(text: Seq<char>, place: (usize, usize)) -> Position {
    let lines = lines_of(text);
    Position {
        line: place.0,
        offset: if place.0 < lines.len() {
            clusters_within(grapheme_clusters(lines[place.0 as int]), place.1 as int) as usize
        } else {
            place.1
        },
    }
}

/// The highlights of the matches that the engine found at `places` in
/// `text`, each `length` clusters long and none of them selected.
pub open spec fn highlights_at(text: Seq<char>, places: Seq<(usize, usize)>, length: usize) -> Seq<
    Highlight,
> {
    places.map_values(
        |place: (usize, usize)|
            Highlight { start: match_start(text, place), length, is_selected: false },
    )
}

/// The highlights that a search for `query` gives in `text`: none for an
/// empty query, else one for each match.
pub open spec fn found(text: Seq<char>, query: Seq<char>) -> Seq<Highlight> {
    if query.len() == 0 {
        Seq::<Highlight>::empty()
    } else {
        highlights_at(text, matches_of(text, query), grapheme_count(query) as usize)
    }
}

impl Pike {
    /// The keybinding table is free of conflicts.
    pub open spec fn wf(&self) -> bool {
        self.config.wf()
    }

    /// Nothing changed but, at most, the cursor.
    pub open spec fn only_cursor_moved(&self, after: Pike) -> bool {
        &&& after.config == self.config
        &&& after.cursor_history == self.cursor_history
        &&& same_contents(self.workspace, after.workspace)
    }

    /// The cursor made a motion; nothing else changed. Without a buffer
    /// nothing changed at all.
    pub open spec fn cursor_moved(&self, motion: Motion, after: Pike) -> bool {
        if has_buffer(self.workspace) {
            &&& self.only_cursor_moved(after)
            &&& cursor_of(after.workspace) == destination(self.workspace, motion)
        } else {
            after == *self
        }
    }

    /// The cursor was sent to `target` and went there if the buffer let it;
    /// nothing else changed. Without a buffer nothing changed at all.
    pub open spec fn cursor_sent(&self, target: Position, after: Pike) -> bool {
        if has_buffer(self.workspace) {
            &&& self.only_cursor_moved(after)
            &&& cursor_of(after.workspace) == moved_to(self.workspace, target)
        } else {
            after == *self
        }
    }

    /// `text` was written at the cursor: the place where the cursor stood
    /// is on the undo stack and nothing is left to redo, the engine has
    /// inserted the text there, and the cursor stands behind it if the
    /// buffer lets it.
    pub open spec fn wrote(&self, text: Seq<char>, after: Pike) -> bool {
        &&& after.config == self.config
        &&& after.cursor_history@ == recorded(self.cursor_history@, cursor_of(self.workspace))
        &&& has_buffer(after.workspace)
        &&& has_path(after.workspace) == has_path(self.workspace)
        &&& buffer_text(after.workspace) == text_with(
            self.workspace,
            cursor_line(self.workspace),
            cursor_offset(self.workspace),
            text,
        )
        &&& cursor_of(after.workspace) == match advanced(cursor_of(self.workspace), text) {
            Some(target) => if in_bounds(after.workspace, target.line, target.offset) {
                target
            } else {
                cursor_of(self.workspace)
            },
            None => cursor_of(self.workspace),
        }
    }

    /// A character was deleted backwards. At the very start of the buffer
    /// there is none to delete, and nothing changes. Elsewhere the cursor
    /// has gone back; the engine has deleted the character at its new place,
    /// and the place where the cursor stood before is on the undo stack, with
    /// nothing left to redo.
    pub open spec fn deleted_backwards(&self, after: Pike) -> bool {
        if cursor_line(self.workspace) == 0 && cursor_offset(self.workspace) == 0 {
            after == *self
        } else {
            &&& after.config == self.config
            &&& has_buffer(after.workspace)
            &&& has_path(after.workspace) == has_path(self.workspace)
            &&& cursor_of(after.workspace) == backspace_cursor(self.workspace)
            &&& if backspace_deletes(self.workspace) {
                &&& after.cursor_history@ == recorded(
                    self.cursor_history@,
                    cursor_of(self.workspace),
                )
                &&& buffer_text(after.workspace) == text_without(
                    self.workspace,
                    backspace_cursor(self.workspace).line,
                    backspace_cursor(self.workspace).offset,
                )
            } else {
                &&& after.cursor_history == self.cursor_history
                &&& buffer_text(after.workspace) == buffer_text(self.workspace)
            }
        }
    }

    /// The last edit was undone: the engine has reversed it, the place where
    /// the cursor stood is on the redo stack, and the cursor went to where it
    /// stood before the edit if the buffer let it. Without a buffer or
    /// without an edit to undo nothing changed.
    pub open spec fn undid(&self, after: Pike) -> bool {
        if has_buffer(self.workspace) && self.cursor_history@.undo.len() > 0 {
            &&& after.config == self.config
            &&& after.cursor_history@ == undone(self.cursor_history@, cursor_of(self.workspace))
            &&& has_buffer(after.workspace)
            &&& has_path(after.workspace) == has_path(self.workspace)
            &&& buffer_text(after.workspace) == text_after_undo(self.workspace)
            &&& in_bounds(
                after.workspace,
                self.cursor_history@.undo.last().line,
                self.cursor_history@.undo.last().offset,
            ) ==> cursor_of(after.workspace) == self.cursor_history@.undo.last()
        } else {
            after == *self
        }
    }

    /// The last undone edit was redone: the engine has applied it again, the
    /// place where the cursor stood is on the undo stack, and the cursor went
    /// to where it stood after the edit if the buffer let it. Without a
    /// buffer or without an edit to redo nothing changed.
    pub open spec fn redid(&self, after: Pike) -> bool {
        if has_buffer(self.workspace) && self.cursor_history@.redo.len() > 0 {
            &&& after.config == self.config
            &&& after.cursor_history@ == redone(self.cursor_history@, cursor_of(self.workspace))
            &&& has_buffer(after.workspace)
            &&& has_path(after.workspace) == has_path(self.workspace)
            &&& buffer_text(after.workspace) == text_after_redo(self.workspace)
            &&& in_bounds(
                after.workspace,
                self.cursor_history@.redo.last().line,
                self.cursor_history@.redo.last().offset,
            ) ==> cursor_of(after.workspace) == self.cursor_history@.redo.last()
        } else {
            after == *self
        }
    }

    /// The workspace has gone to the buffer before: that buffer is current
    /// with its text and its cursor, and the cursor's history is empty.
    /// Nothing changed where the workspace keeps no index to go from.
    pub open spec fn switched_back(&self, after: Pike) -> bool {
        if has_index(self.workspace) {
            &&& after.config == self.config
            &&& after.cursor_history@ == (Stacks {
                undo: Seq::<Position>::empty(),
                redo: Seq::<Position>::empty(),
            })
            &&& has_buffer(after.workspace)
            &&& has_index(after.workspace)
            &&& buffer_text(after.workspace) == text_after_previous(self.workspace)
            &&& cursor_of(after.workspace) == (Position {
                line: cursor_line_after_previous(self.workspace),
                offset: cursor_offset_after_previous(self.workspace),
            })
        } else {
            after == *self
        }
    }

    /// The workspace has gone to the buffer behind: that buffer is current
    /// with its text and its cursor, and the cursor's history is empty.
    /// Nothing changed where the workspace keeps no index to go from.
    pub open spec fn switched_on(&self, after: Pike) -> bool {
        if has_index(self.workspace) {
            &&& after.config == self.config
            &&& after.cursor_history@ == (Stacks {
                undo: Seq::<Position>::empty(),
                redo: Seq::<Position>::empty(),
            })
            &&& has_buffer(after.workspace)
            &&& has_index(after.workspace)
            &&& buffer_text(after.workspace) == text_after_next(self.workspace)
            &&& cursor_of(after.workspace) == (Position {
                line: cursor_line_after_next(self.workspace),
                offset: cursor_offset_after_next(self.workspace),
            })
        } else {
            after == *self
        }
    }

    /// Whether the workspace can take a new buffer in: it keeps an index
    /// for the buffer that is current, if one is, and it has a syntax for
    /// plain text.
    pub open spec fn takes_new_buffer(&self) -> bool {
        &&& has_buffer(self.workspace) ==> has_index(self.workspace)
        &&& has_plain_syntax(self.workspace)
    }

    /// A new, empty buffer is current, bound to no path, with the cursor at
    /// its start; the cursor's history is empty.
    pub open spec fn opened_new(&self, after: Pike) -> bool {
        &&& after.config == self.config
        &&& after.cursor_history@ == (Stacks {
            undo: Seq::<Position>::empty(),
            redo: Seq::<Position>::empty(),
        })
        &&& has_buffer(after.workspace)
        &&& !has_path(after.workspace)
        &&& buffer_text(after.workspace) == Seq::<char>::empty()
        &&& cursor_of(after.workspace) == (Position { line: 0, offset: 0 })
    }

    /// A backend over the buffers of `workspace`, with nothing to undo.
    pub fn new(workspace: Workspace, config: Config) -> (pike: Pike)
        ensures
            pike.workspace == workspace,
            pike.config == config,
            pike.cursor_history@ == (Stacks {
                undo: Seq::<Position>::empty(),
                redo: Seq::<Position>::empty(),
            }),
    {
        Pike { workspace, config, cursor_history: CursorHistory::new() }
    }

    /// Puts the cursor of a buffer that was just opened to a place, and
    /// starts a new history for it. If the place is out of bounds, the
    /// cursor remains where the engine has put it.
    pub fn enter_opened_buffer(&mut self, line: usize, offset: usize)
        ensures
            final(self).config == old(self).config,
            final(self).cursor_history@ == (Stacks {
                undo: Seq::<Position>::empty(),
                redo: Seq::<Position>::empty(),
            }),
            same_contents(old(self).workspace, final(self).workspace),
            has_buffer(old(self).workspace) ==> cursor_of(final(self).workspace) == moved_to(
                old(self).workspace,
                Position { line, offset },
            ),
            !has_buffer(old(self).workspace) ==> final(self).workspace == old(self).workspace,
    {
        self.cursor_history.clear();
        if engine_cursor(&self.workspace).is_some() {
            engine_move_to(&mut self.workspace, Position { line, offset });
        }
    }

    /// Writes `text` to the current buffer at the cursor, and moves the
    /// cursor behind it.
    pub fn write_to_current_buffer(&mut self, text: &str) -> (done: Result<(), BufferError>)
        ensures
            has_buffer(old(self).workspace) ==> done is Ok && old(self).wrote(text@, *final(self)),
            !has_buffer(old(self).workspace) ==> done == Err::<(), BufferError>(
                BufferError::NoBufferToWrite,
            ) && *final(self) == *old(self),
    {
        let start_position = match engine_cursor(&self.workspace) {
            Some(position) => position,
            None => {
                return Err(BufferError::NoBufferToWrite);
            },
        };
        self.cursor_history.record_undo_position(start_position);
        engine_insert(&mut self.workspace, text);
        let lines = split(text, '\n');
        proof {
            lemma_split_on_nonempty(text@, '\n');
        }
        let line_count: usize = lines.len() - 1;
        let last_line_len: usize = graphemes(lines[line_count].as_str()).len();
        assert(views(lines@).last() == lines[line_count as int]@);
        let new_line = start_position.line.checked_add(line_count);
        let new_offset = if line_count == 0 {
            start_position.offset.checked_add(last_line_len)
        } else {
            Some(last_line_len)
        };
        match (new_line, new_offset) {
            (Some(line), Some(offset)) => {
                engine_move_to(&mut self.workspace, Position { line, offset });
            },
            _ => {},
        }
        Ok(())
    }

    /// Deletes the character before the cursor and moves the cursor left.
    /// At the start of a line the line is joined to the one above.
    pub fn delete_character_from_current_buffer(&mut self)
        ensures
            has_buffer(old(self).workspace) ==> old(self).deleted_backwards(*final(self)),
            !has_buffer(old(self).workspace) ==> *final(self) == *old(self),
    {
        let pos = match engine_cursor(&self.workspace) {
            Some(position) => position,
            None => {
                return ;
            },
        };
        if pos.offset == 0 && pos.line > 0 {
            let data = match engine_text(&self.workspace) {
                Some(data) => data,
                None => {
                    return ;
                },
            };
            let lines = split(data.as_str(), '\n');
            engine_move_up(&mut self.workspace);
            let above = match engine_cursor(&self.workspace) {
                Some(position) => position,
                None => {
                    return ;
                },
            };
            let new_offset: usize = if above.line < lines.len() {
                assert(views(lines@)[above.line as int] == lines[above.line as int]@);
                graphemes(lines[above.line].as_str()).len()
            } else {
                0
            };
            engine_move_to(&mut self.workspace, Position { line: above.line, offset: new_offset });
            self.delete_at_cursor(pos);
        } else if pos.offset > 0 {
            engine_move_left(&mut self.workspace);
            self.delete_at_cursor(pos);
        }
    }

    /// Has the engine delete the character at the cursor, and records
    /// before that where the cursor stood when the deletion was asked for.
    /// Nothing happens where the cursor's place leaves no room for the
    /// engine's arithmetic.
    fn delete_at_cursor(&mut self, stood: Position)
        requires
            has_buffer(old(self).workspace),
        ensures
            final(self).config == old(self).config,
            same_cursor(old(self).workspace, final(self).workspace),
            cursor_line(old(self).workspace) < usize::MAX && cursor_offset(old(self).workspace)
                < usize::MAX ==> final(self).cursor_history@ == recorded(
                old(self).cursor_history@,
                stood,
            ) && buffer_text(final(self).workspace) == text_without(
                old(self).workspace,
                cursor_line(old(self).workspace),
                cursor_offset(old(self).workspace),
            ),
            !(cursor_line(old(self).workspace) < usize::MAX && cursor_offset(old(self).workspace)
                < usize::MAX) ==> *final(self) == *old(self),
    {
        match engine_cursor(&self.workspace) {
            Some(position) => {
                if position.line < usize::MAX && position.offset < usize::MAX {
                    self.cursor_history.record_undo_position(stood);
                    engine_delete(&mut self.workspace);
                }
            },
            None => {},
        }
    }

    /// Returns the contents of the currently opened buffer or an empty
    /// string if none is open.
    pub fn current_buffer_contents(&self) -> (contents: String)
        ensures
            contents@ == if has_buffer(self.workspace) {
                buffer_text(self.workspace)
            } else {
                Seq::<char>::empty()
            },
    {
        match engine_text(&self.workspace) {
            Some(data) => data,
            None => String::new(),
        }
    }

    /// Returns an absolute path to the current buffer, if a buffer is open
    /// and bound to a path.
    pub fn current_buffer_path(&self) -> (path: Option<std::path::PathBuf>)
        ensures
            path is Some == (has_buffer(self.workspace) && has_path(self.workspace)),
            path matches Some(shown) ==> path_text(shown) == shown_path(self.workspace),
    {
        engine_path(&self.workspace)
    }

    /// Returns whether the current buffer has unsaved changes, or false if
    /// there is none.
    pub fn has_unsaved_changes(&self) -> (unsaved: bool)
        ensures
            unsaved == (has_buffer(self.workspace) && is_modified(self.workspace)),
    {
        engine_modified(&self.workspace)
    }

    /// Check if the current buffer has been modified.
    pub fn is_current_buffer_modified(&self) -> (modified: bool)
        ensures
            modified == (has_buffer(self.workspace) && is_modified(self.workspace)),
    {
        engine_modified(&self.workspace)
    }

    /// Returns the position of the cursor in the current buffer, or None if
    /// there isn't one.
    pub fn cursor_position(&self) -> (cursor: Option<Position>)
        ensures
            cursor == if has_buffer(self.workspace) {
                Some(cursor_of(self.workspace))
            } else {
                None
            },
    {
        engine_cursor(&self.workspace)
    }

    /// Getter for the current buffer.
    pub fn current_buffer(&self) -> (buffer: Option<&scribe::Buffer>)
        ensures
            buffer is Some == has_buffer(self.workspace),
    {
        engine_buffer(&self.workspace)
    }

    /// Move the cursor up if possible, else do nothing.
    pub fn move_cursor_up(&mut self)
        ensures
            old(self).cursor_moved(Motion::Up, *final(self)),
    {
        if engine_cursor(&self.workspace).is_some() {
            engine_move_up(&mut self.workspace);
        }
    }

    /// Move the cursor down if possible, else do nothing.
    pub fn move_cursor_down(&mut self)
        ensures
            old(self).cursor_moved(Motion::Down, *final(self)),
    {
        match engine_cursor(&self.workspace) {
            Some(position) => {
                if position.line < usize::MAX {
                    engine_move_down(&mut self.workspace);
                }
            },
            None => {},
        }
    }

    /// Move the cursor left if possible, else do nothing.
    pub fn move_cursor_left(&mut self)
        ensures
            old(self).cursor_moved(Motion::Left, *final(self)),
    {
        if engine_cursor(&self.workspace).is_some() {
            engine_move_left(&mut self.workspace);
        }
    }

    /// Move the cursor right if possible, else do nothing.
    pub fn move_cursor_right(&mut self)
        ensures
            old(self).cursor_moved(Motion::Right, *final(self)),
    {
        match engine_cursor(&self.workspace) {
            Some(position) => {
                if position.offset < usize::MAX {
                    engine_move_right(&mut self.workspace);
                }
            },
            None => {},
        }
    }

    /// Move the cursor to the start of line if possible, else do nothing.
    pub fn move_cursor_to_start_of_line(&mut self)
        ensures
            old(self).cursor_moved(Motion::Home, *final(self)),
    {
        if engine_cursor(&self.workspace).is_some() {
            engine_move_to_start_of_line(&mut self.workspace);
        }
    }

    /// Move the cursor to the end of line if possible, else do nothing.
    pub fn move_cursor_to_end_of_line(&mut self)
        ensures
            old(self).cursor_moved(Motion::End, *final(self)),
    {
        if engine_cursor(&self.workspace).is_some() {
            engine_move_to_end_of_line(&mut self.workspace);
        }
    }

    /// Move the cursor left by one word if possible, else do nothing.
    pub fn move_cursor_left_by_word(&mut self)
        ensures
            old(self).cursor_moved(Motion::WordLeft, *final(self)),
    {
        let pos = match engine_cursor(&self.workspace) {
            Some(position) => position,
            None => {
                return ;
            },
        };
        let data = match engine_text(&self.workspace) {
            Some(data) => data,
            None => {
                return ;
            },
        };
        let lines = split_lines(data.as_str());
        let target = word_left_target(&lines, pos);
        engine_move_to(&mut self.workspace, target);
    }

    /// Move the cursor right by one word if possible, else do nothing.
    pub fn move_cursor_right_by_word(&mut self)
        ensures
            old(self).cursor_moved(Motion::WordRight, *final(self)),
    {
        let pos = match engine_cursor(&self.workspace) {
            Some(position) => position,
            None => {
                return ;
            },
        };
        let data = match engine_text(&self.workspace) {
            Some(data) => data,
            None => {
                return ;
            },
        };
        let lines = split_lines(data.as_str());
        let target = word_right_target(&lines, pos);
        engine_move_to(&mut self.workspace, target);
    }

    /// Move the cursor to a specific position.
    pub fn move_cursor_to(&mut self, pos: Position)
        ensures
            old(self).cursor_sent(pos, *final(self)),
    {
        if engine_cursor(&self.workspace).is_some() {
            engine_move_to(&mut self.workspace, pos);
        }
    }

    /// Returns the length of the current line, in grapheme clusters.
    pub fn current_line_length(&self) -> (length: usize)
        ensures
            length == if has_buffer(self.workspace) {
                line_length(buffer_text(self.workspace), cursor_line(self.workspace) as int)
            } else {
                0
            },
    {
        let pos = match engine_cursor(&self.workspace) {
            Some(position) => position,
            None => {
                return 0;
            },
        };
        let data = match engine_text(&self.workspace) {
            Some(data) => data,
            None => {
                return 0;
            },
        };
        let lines = split_lines(data.as_str());
        if pos.line < lines.len() {
            assert(views(lines@)[pos.line as int] == lines[pos.line as int]@);
            graphemes(lines[pos.line].as_str()).len()
        } else {
            0
        }
    }

    /// Create a new empty buffer not bound to a path and set it as the
    /// current buffer. Returns whether that was done: it is not where the
    /// workspace could not take the buffer in, and then nothing changes.
    pub fn open_new_buffer(&mut self) -> (opened: bool)
        ensures
            opened == old(self).takes_new_buffer(),
            opened ==> old(self).opened_new(*final(self)),
            !opened ==> *final(self) == *old(self),
    {
        let indexed = engine_cursor(&self.workspace).is_none() || engine_index(
            &self.workspace,
        ).is_some();
        if !indexed || !engine_has_plain_syntax(&self.workspace) {
            return false;
        }
        engine_new_buffer(&mut self.workspace);
        self.cursor_history.clear();
        true
    }

    /// Switch to the previous buffer. Returns whether the workspace had a
    /// buffer to go from.
    pub fn previous_buffer(&mut self) -> (switched: bool)
        ensures
            switched == has_index(old(self).workspace),
            old(self).switched_back(*final(self)),
    {
        if engine_index(&self.workspace).is_none() {
            return false;
        }
        engine_previous_buffer(&mut self.workspace);
        self.cursor_history.clear();
        true
    }

    /// Switch to the next buffer. Returns whether the workspace had a
    /// buffer to go from.
    pub fn next_buffer(&mut self) -> (switched: bool)
        ensures
            switched == has_index(old(self).workspace),
            old(self).switched_on(*final(self)),
    {
        if engine_index(&self.workspace).is_none() {
            return false;
        }
        engine_next_buffer(&mut self.workspace);
        self.cursor_history.clear();
        true
    }

    /// Search for a query in the current buffer and return the matches as
    /// highlights, none of them selected.
    pub fn search_in_current_buffer(&self, query: &str) -> (results: Result<
        Vec<Highlight>,
        BufferError,
    >)
        ensures
            match results {
                Ok(highlights) => has_buffer(self.workspace) && highlights@ == found(
                    buffer_text(self.workspace),
                    query@,
                ),
                Err(e) => !has_buffer(self.workspace) && e == BufferError::NoBuffer,
            },
    {
        let data = match engine_text(&self.workspace) {
            Some(data) => data,
            None => {
                return Err(BufferError::NoBuffer);
            },
        };
        let mut results: Vec<Highlight> = Vec::new();
        if query.unicode_len() == 0 {
            assert(results@ == Seq::<Highlight>::empty());
            return Ok(results);
        }
        let places = engine_search(&self.workspace, query);
        let lines = split_lines(data.as_str());
        let length: usize = graphemes(query).len();
        let ghost all = highlights_at(
            data@,
            places@.map_values(|p: Position| (p.line, p.offset)),
            length,
        );
        let mut i: usize = 0;
        while i < places.len()
            invariant
                i <= places.len(),
                views(lines@) == lines_of(data@),
                all == highlights_at(
                    data@,
                    places@.map_values(|p: Position| (p.line, p.offset)),
                    length,
                ),
                results@ == all.take(i as int),
            decreases places.len() - i,
        {
            let place = places[i];
            let offset: usize = if place.line < lines.len() {
                assert(views(lines@)[place.line as int] == lines[place.line as int]@);
                cluster_offset(&graphemes(lines[place.line].as_str()), place.offset)
            } else {
                place.offset
            };
            results.push(
                Highlight {
                    start: Position { line: place.line, offset },
                    length,
                    is_selected: false,
                },
            );
            i += 1;
        }
        assert(all.take(places.len() as int) == all);
        Ok(results)
    }

    /// Undo the last change in the current buffer and adjust the cursor
    /// position.
    pub fn undo(&mut self)
        ensures
            old(self).undid(*final(self)),
    {
        let current_pos = match engine_cursor(&self.workspace) {
            Some(position) => position,
            None => {
                return ;
            },
        };
        if self.cursor_history.undo_stack.len() == 0 {
            return ;
        }
        match self.cursor_history.step_back(current_pos) {
            Some(prev_pos) => {
                engine_undo(&mut self.workspace);
                engine_move_to(&mut self.workspace, prev_pos);
            },
            None => {},
        }
    }

    /// Redo the last change in the current buffer and adjust the cursor
    /// position.
    pub fn redo(&mut self)
        ensures
            old(self).redid(*final(self)),
    {
        let current_pos = match engine_cursor(&self.workspace) {
            Some(position) => position,
            None => {
                return ;
            },
        };
        if self.cursor_history.redo_stack.len() == 0 {
            return ;
        }
        match self.cursor_history.step_forward(current_pos) {
            Some(pos) => {
                engine_redo(&mut self.workspace);
                engine_move_to(&mut self.workspace, pos);
            },
            None => {},
        }
    }

    /// Gets the operation corresponding to a key shortcut.
    pub fn get_keymap(&self, mapping: &KeyShortcut) -> (op: Option<Operation>)
        ensures
            op == resolve(self.config.key_mappings@, *mapping),
    {
        self.config.get(mapping)
    }

    /// Sets a path for the current buffer.
    pub fn bind_current_buffer_to_path(&mut self, path: std::path::PathBuf)
        ensures
            final(self).config == old(self).config,
            final(self).cursor_history == old(self).cursor_history,
            has_buffer(old(self).workspace) ==> has_buffer(final(self).workspace) && has_path(
                final(self).workspace,
            ) && bound_path(final(self).workspace) == path_text(path) && buffer_text(
                final(self).workspace,
            ) == buffer_text(old(self).workspace)
                && cursor_of(final(self).workspace) == cursor_of(old(self).workspace),
            !has_buffer(old(self).workspace) ==> *final(self) == *old(self),
    {
        if engine_cursor(&self.workspace).is_some() {
            engine_bind(&mut self.workspace, path);
        }
    }
}

/// Writing, then undoing at once, then redoing at once. After the undo the
/// undo stack is as it was before the writing, the engine has reversed its
/// last edit, and the cursor stands where it stood before the writing if
/// the buffer lets it. After the redo the stacks are as the writing had left
/// them, the engine has applied the edit again, and the cursor stands
/// where it stood after the writing if the buffer lets it.
pub proof fn lemma_write_undo_redo(
    start: Pike,
    text: Seq<char>,
    written: Pike,
    back: Pike,
    again: Pike,
)
    requires
        has_buffer(start.workspace),
        start.wrote(text, written),
        written.undid(back),
        back.redid(again),
    ensures
        back.cursor_history@.undo == start.cursor_history@.undo,
        back.cursor_history@.redo == seq![cursor_of(written.workspace)],
        buffer_text(back.workspace) == text_after_undo(written.workspace),
        in_bounds(back.workspace, cursor_line(start.workspace), cursor_offset(start.workspace))
            ==> cursor_of(back.workspace) == cursor_of(start.workspace),
        again.cursor_history@.undo == start.cursor_history@.undo.push(cursor_of(back.workspace)),
        again.cursor_history@.redo == Seq::<Position>::empty(),
        buffer_text(again.workspace) == text_after_redo(back.workspace),
        in_bounds(
            again.workspace,
            cursor_line(written.workspace),
            cursor_offset(written.workspace),
        ) ==> cursor_of(again.workspace) == cursor_of(written.workspace),
{
    crate::history::lemma_undo_redo_round_trip(
        start.cursor_history@,
        cursor_of(start.workspace),
        cursor_of(written.workspace),
    );
    assert(written.cursor_history@.undo.last() == cursor_of(start.workspace));
    assert(back.cursor_history@.redo.last() == cursor_of(written.workspace));
    assert(back.cursor_history@.redo.drop_last() == Seq::<Position>::empty());
}

/// The round trip of a writing, where the engine plays its part: where
/// its undo gives back the text that was there before the writing and its
/// redo the text that the writing had left, and where it lets the cursor
/// go back to the places it had. Then the undo restores text and cursor as
/// they were before the writing, and the redo restores text, cursor and
/// history as the writing had left them.
pub proof fn lemma_write_undo_redo_restores(
    start: Pike,
    text: Seq<char>,
    written: Pike,
    back: Pike,
    again: Pike,
)
    requires
        has_buffer(start.workspace),
        start.wrote(text, written),
        written.undid(back),
        back.redid(again),
        text_after_undo(written.workspace) == buffer_text(start.workspace),
        text_after_redo(back.workspace) == buffer_text(written.workspace),
        in_bounds(back.workspace, cursor_line(start.workspace), cursor_offset(start.workspace)),
        in_bounds(
            again.workspace,
            cursor_line(written.workspace),
            cursor_offset(written.workspace),
        ),
    ensures
        buffer_text(back.workspace) == buffer_text(start.workspace),
        cursor_of(back.workspace) == cursor_of(start.workspace),
        back.cursor_history@.undo == start.cursor_history@.undo,
        buffer_text(again.workspace) == buffer_text(written.workspace),
        cursor_of(again.workspace) == cursor_of(written.workspace),
        again.cursor_history@ == written.cursor_history@,
{
    lemma_write_undo_redo(start, text, written, back, again);
}

} // verus!
