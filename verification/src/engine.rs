//! The text-storage engine, as the editor sees it. The `scribe` crate keeps
//! the buffers, their text, their cursors and their own undo log; this file
//! says of each of its calls what the editor relies on.

use vstd::prelude::*;
use vstd::string::*;
use scribe::Workspace;
use crate::field::path_text;
use crate::grapheme::grapheme_count;
use crate::position::Position;
use crate::text::lines_of;

verus! {

/// The buffers of a running editor, from the `scribe` crate.
#[verifier::external_type_specification]
#[verifier::external_body]
pub struct ExWorkspace(Workspace);

/// One buffer, from the `scribe` crate.
#[verifier::external_type_specification]
#[verifier::external_body]
pub struct ExBuffer(scribe::Buffer);

/// Whether a buffer is open and current. What the other names say of a
/// workspace, they say of its current buffer.
pub uninterp spec fn has_buffer(ws: Workspace) -> bool;

/// The text that the buffer holds.
pub uninterp spec fn buffer_text(ws: Workspace) -> Seq<char>;

/// The line on which the cursor stands.
pub uninterp spec fn cursor_line(ws: Workspace) -> usize;

/// The cursor's offset within its line.
pub uninterp spec fn cursor_offset(ws: Workspace) -> usize;

/// The offset that the cursor tries to keep when it changes lines.
pub uninterp spec fn sticky_offset(ws: Workspace) -> usize;

/// Whether the buffer lets its cursor be moved to this place.
pub uninterp spec fn in_bounds(ws: Workspace, line: usize, offset: usize) -> bool;

/// The text that the buffer holds once `inserted` is inserted with the
/// cursor at this place.
pub uninterp spec fn text_with(ws: Workspace, line: usize, offset: usize, inserted: Seq<char>) -> Seq<
    char,
>;

/// The text that the buffer holds once a character is deleted with the
/// cursor at this place.
pub uninterp spec fn text_without(ws: Workspace, line: usize, offset: usize) -> Seq<char>;

/// The text that the buffer holds once its last edit is undone.
pub uninterp spec fn text_after_undo(ws: Workspace) -> Seq<char>;

/// The text that the buffer holds once its last undone edit is redone.
pub uninterp spec fn text_after_redo(ws: Workspace) -> Seq<char>;

/// Whether the buffer differs from what was last read from or written to
/// its file.
pub uninterp spec fn is_modified(ws: Workspace) -> bool;

/// Whether the buffer is bound to a path.
pub uninterp spec fn has_path(ws: Workspace) -> bool;

/// The path that the buffer is bound to, as `path_text` reads a path.
pub uninterp spec fn bound_path(ws: Workspace) -> Seq<char>;

/// The path under which the buffer is shown: the path that it is bound to,
/// put below the workspace's own path, as `path_text` reads a path.
pub uninterp spec fn shown_path(ws: Workspace) -> Seq<char>;

/// Whether the workspace keeps an index for its current buffer. It does
/// for every buffer that it was given through its own methods.
pub uninterp spec fn has_index(ws: Workspace) -> bool;

/// The text of the buffer that is current once the workspace has gone to
/// the buffer before.
pub uninterp spec fn text_after_previous(ws: Workspace) -> Seq<char>;

/// The line of that buffer's cursor.
pub uninterp spec fn cursor_line_after_previous(ws: Workspace) -> usize;

/// The offset of that buffer's cursor.
pub uninterp spec fn cursor_offset_after_previous(ws: Workspace) -> usize;

/// The text of the buffer that is current once the workspace has gone to
/// the buffer behind.
pub uninterp spec fn text_after_next(ws: Workspace) -> Seq<char>;

/// The line of that buffer's cursor.
pub uninterp spec fn cursor_line_after_next(ws: Workspace) -> usize;

/// The offset of that buffer's cursor.
pub uninterp spec fn cursor_offset_after_next(ws: Workspace) -> usize;

/// Whether the workspace's set of syntaxes holds the one for plain text,
/// which the workspace falls back on for a buffer without a path.
pub uninterp spec fn has_plain_syntax(ws: Workspace) -> bool;

/// Whether `text` begins with `needle`.
pub open spec fn starts_with(text: Seq<char>, needle: Seq<char>) -> bool {
    needle.len() <= text.len() && text.take(needle.len() as int) == needle
}

/// The places on line `number` at which `needle` is found, among the
/// first `upto` characters of the line: each character from which on the
/// line begins with the needle, given by the line's number and by the
/// number of bytes that the line holds before that character in UTF-8.
pub open spec fn matches_in_line(line: Seq<char>, needle: Seq<char>, number: usize, upto: int) -> Seq<
    (usize, usize),
>
    decreases upto,
{
    if upto <= 0 {
        Seq::<(usize, usize)>::empty()
    } else {
        let before = matches_in_line(line, needle, number, upto - 1);
        if starts_with(line.skip(upto - 1), needle) {
            before.push((number, vstd::utf8::encode_utf8(line.take(upto - 1)).len() as usize))
        } else {
            before
        }
    }
}

/// The places at which `needle` is found on the first `count` of the
/// lines, line by line.
pub open spec fn matches_in_lines(lines: Seq<Seq<char>>, needle: Seq<char>, count: int) -> Seq<
    (usize, usize),
>
    decreases count,
{
    if count <= 0 {
        Seq::<(usize, usize)>::empty()
    } else {
        matches_in_lines(lines, needle, count - 1) + matches_in_line(
            lines[count - 1],
            needle,
            (count - 1) as usize,
            lines[count - 1].len() as int,
        )
    }
}

/// The places at which `needle` is found in a text, in the order in which
/// the engine reports them: line by line and from left to right, every
/// place from which on a line begins with the needle.
pub open spec fn matches_of(text: Seq<char>, needle: Seq<char>) -> Seq<(usize, usize)> {
    matches_in_lines(lines_of(text), needle, lines_of(text).len() as int)
}

/// The place of the cursor.
pub open spec fn cursor_of(ws: Workspace) -> Position {
    Position { line: cursor_line(ws), offset: cursor_offset(ws) }
}

/// The two workspaces differ at most in where the cursor stands and in the
/// offset that it tries to keep.
pub open spec fn same_contents(before: Workspace, after: Workspace) -> bool {
    &&& has_buffer(after) == has_buffer(before)
    &&& buffer_text(after) == buffer_text(before)
    &&& is_modified(after) == is_modified(before)
    &&& has_path(after) == has_path(before)
    &&& bound_path(after) == bound_path(before)
    &&& shown_path(after) == shown_path(before)
    &&& text_after_undo(after) == text_after_undo(before)
    &&& text_after_redo(after) == text_after_redo(before)
    &&& forall|line: usize, offset: usize|
        #[trigger] in_bounds(after, line, offset) == in_bounds(before, line, offset)
    &&& forall|line: usize, offset: usize|
        #[trigger] text_without(after, line, offset) == text_without(before, line, offset)
    &&& forall|line: usize, offset: usize, inserted: Seq<char>|
        #[trigger] text_with(after, line, offset, inserted) == text_with(
            before,
            line,
            offset,
            inserted,
        )
}

/// The cursor stands where it stood, and tries to keep the offset that it
/// tried to keep.
pub open spec fn same_cursor(before: Workspace, after: Workspace) -> bool {
    &&& has_buffer(after) == has_buffer(before)
    &&& has_path(after) == has_path(before)
    &&& bound_path(after) == bound_path(before)
    &&& shown_path(after) == shown_path(before)
    &&& cursor_of(after) == cursor_of(before)
    &&& sticky_offset(after) == sticky_offset(before)
}

/// Where the cursor stands after an attempt to move it to `target`: there,
/// if the buffer lets it, else where it stood.
pub open spec fn moved_to(ws: Workspace, target: Position) -> Position {
    if in_bounds(ws, target.line, target.offset) {
        target
    } else {
        cursor_of(ws)
    }
}

/// The offset that the cursor tries to keep after an attempt to move it to
/// `target`.
pub open spec fn kept_after(ws: Workspace, target: Position) -> usize {
    if in_bounds(ws, target.line, target.offset) {
        target.offset
    } else {
        sticky_offset(ws)
    }
}

/// The number of grapheme clusters on a line of a text; zero where the text
/// has no such line.
pub open spec fn line_length(text: Seq<char>, line: int) -> nat {
    if 0 <= line < lines_of(text).len() {
        grapheme_count(lines_of(text)[line])
    } else {
        0
    }
}

/// Where the cursor stands after a step onto the line `line`: at the offset
/// it tries to keep, or else at the end of that line, or else where it
/// stood.
pub open spec fn moved_onto(ws: Workspace, line: usize) -> Position {
    if in_bounds(ws, line, sticky_offset(ws)) {
        Position { line, offset: sticky_offset(ws) }
    } else {
        moved_to(ws, Position { line, offset: line_length(buffer_text(ws), line as int) as usize })
    }
}

/// The current buffer, read from the workspace's `current_buffer`.
#[verifier::external_body]
pub(crate) fn engine_buffer(ws: &Workspace) -> (buffer: Option<&scribe::Buffer>)
    ensures
        buffer is Some == has_buffer(*ws),
{
    ws.current_buffer.as_ref()
}

/// The text of the current buffer, through `Buffer::data`.
#[verifier::external_body]
pub(crate) fn engine_text(ws: &Workspace) -> (text: Option<String>)
    ensures
        text is Some == has_buffer(*ws),
        text matches Some(data) ==> data@ == buffer_text(*ws),
{
    ws.current_buffer.as_ref().map(|buffer| buffer.data())
}

/// The place of the current buffer's cursor, read from its `position`.
#[verifier::external_body]
pub(crate) fn engine_cursor(ws: &Workspace) -> (cursor: Option<Position>)
    ensures
        cursor is Some == has_buffer(*ws),
        cursor matches Some(position) ==> position == cursor_of(*ws),
{
    ws.current_buffer.as_ref().map(
        |buffer|
            Position { line: buffer.cursor.position.line, offset: buffer.cursor.position.offset },
    )
}

/// `Cursor::move_to`: the cursor goes to `target` if that place is in
/// bounds and stays otherwise; a cursor that moved tries to keep its new
/// offset.
#[verifier::external_body]
pub(crate) fn engine_move_to(ws: &mut Workspace, target: Position) -> (moved: bool)
    requires
        has_buffer(*old(ws)),
    ensures
        same_contents(*old(ws), *final(ws)),
        moved == in_bounds(*old(ws), target.line, target.offset),
        cursor_of(*final(ws)) == moved_to(*old(ws), target),
        sticky_offset(*final(ws)) == kept_after(*old(ws), target),
{
    match ws.current_buffer.as_mut() {
        Some(buffer) => buffer.cursor.move_to(
            scribe::buffer::Position { line: target.line, offset: target.offset },
        ),
        None => false,
    }
}

/// `Cursor::move_up`: from the first line the cursor does not move; else it
/// steps onto the line above. The offset that it tries to keep stays.
#[verifier::external_body]
pub(crate) fn engine_move_up(ws: &mut Workspace)
    requires
        has_buffer(*old(ws)),
    ensures
        same_contents(*old(ws), *final(ws)),
        cursor_of(*final(ws)) == if cursor_line(*old(ws)) == 0 {
            cursor_of(*old(ws))
        } else {
            moved_onto(*old(ws), (cursor_line(*old(ws)) - 1) as usize)
        },
        sticky_offset(*final(ws)) == sticky_offset(*old(ws)),
{
    if let Some(buffer) = ws.current_buffer.as_mut() {
        buffer.cursor.move_up();
    }
}

/// `Cursor::move_down`: the cursor steps onto the line below. The offset
/// that it tries to keep stays.
#[verifier::external_body]
pub(crate) fn engine_move_down(ws: &mut Workspace)
    requires
        has_buffer(*old(ws)),
        cursor_line(*old(ws)) < usize::MAX,
    ensures
        same_contents(*old(ws), *final(ws)),
        cursor_of(*final(ws)) == moved_onto(*old(ws), (cursor_line(*old(ws)) + 1) as usize),
        sticky_offset(*final(ws)) == sticky_offset(*old(ws)),
{
    if let Some(buffer) = ws.current_buffer.as_mut() {
        buffer.cursor.move_down();
    }
}

/// `Cursor::move_left`: at the start of a line the cursor does not move;
/// else it tries the place one to the left.
#[verifier::external_body]
pub(crate) fn engine_move_left(ws: &mut Workspace)
    requires
        has_buffer(*old(ws)),
    ensures
        same_contents(*old(ws), *final(ws)),
        cursor_offset(*old(ws)) == 0 ==> same_cursor(*old(ws), *final(ws)),
        cursor_offset(*old(ws)) > 0 ==> cursor_of(*final(ws)) == moved_to(
            *old(ws),
            Position {
                line: cursor_line(*old(ws)),
                offset: (cursor_offset(*old(ws)) - 1) as usize,
            },
        ) && sticky_offset(*final(ws)) == kept_after(
            *old(ws),
            Position {
                line: cursor_line(*old(ws)),
                offset: (cursor_offset(*old(ws)) - 1) as usize,
            },
        ),
{
    if let Some(buffer) = ws.current_buffer.as_mut() {
        buffer.cursor.move_left();
    }
}

/// `Cursor::move_right`: the cursor tries the place one to the right.
#[verifier::external_body]
pub(crate) fn engine_move_right(ws: &mut Workspace)
    requires
        has_buffer(*old(ws)),
        cursor_offset(*old(ws)) < usize::MAX,
    ensures
        same_contents(*old(ws), *final(ws)),
        cursor_of(*final(ws)) == moved_to(
            *old(ws),
            Position {
                line: cursor_line(*old(ws)),
                offset: (cursor_offset(*old(ws)) + 1) as usize,
            },
        ),
        sticky_offset(*final(ws)) == kept_after(
            *old(ws),
            Position {
                line: cursor_line(*old(ws)),
                offset: (cursor_offset(*old(ws)) + 1) as usize,
            },
        ),
{
    if let Some(buffer) = ws.current_buffer.as_mut() {
        buffer.cursor.move_right();
    }
}

/// `Cursor::move_to_start_of_line`: the cursor tries the start of its line.
#[verifier::external_body]
pub(crate) fn engine_move_to_start_of_line(ws: &mut Workspace)
    requires
        has_buffer(*old(ws)),
    ensures
        same_contents(*old(ws), *final(ws)),
        cursor_of(*final(ws)) == moved_to(
            *old(ws),
            Position { line: cursor_line(*old(ws)), offset: 0 },
        ),
        sticky_offset(*final(ws)) == kept_after(
            *old(ws),
            Position { line: cursor_line(*old(ws)), offset: 0 },
        ),
{
    if let Some(buffer) = ws.current_buffer.as_mut() {
        buffer.cursor.move_to_start_of_line();
    }
}

/// `Cursor::move_to_end_of_line`: where the text has the cursor's line, the
/// cursor tries the place behind the last cluster of that line; else it
/// stays.
#[verifier::external_body]
pub(crate) fn engine_move_to_end_of_line(ws: &mut Workspace)
    requires
        has_buffer(*old(ws)),
    ensures
        same_contents(*old(ws), *final(ws)),
        cursor_line(*old(ws)) >= lines_of(buffer_text(*old(ws))).len() ==> same_cursor(
            *old(ws),
            *final(ws),
        ),
        cursor_line(*old(ws)) < lines_of(buffer_text(*old(ws))).len() ==> cursor_of(*final(ws))
            == moved_to(
            *old(ws),
            Position {
                line: cursor_line(*old(ws)),
                offset: line_length(
                    buffer_text(*old(ws)),
                    cursor_line(*old(ws)) as int,
                ) as usize,
            },
        ) && sticky_offset(*final(ws)) == kept_after(
            *old(ws),
            Position {
                line: cursor_line(*old(ws)),
                offset: line_length(
                    buffer_text(*old(ws)),
                    cursor_line(*old(ws)) as int,
                ) as usize,
            },
        ),
{
    if let Some(buffer) = ws.current_buffer.as_mut() {
        buffer.cursor.move_to_end_of_line();
    }
}

/// `Buffer::insert`: the text is inserted at the cursor, which stays.
#[verifier::external_body]
pub(crate) fn engine_insert(ws: &mut Workspace, text: &str)
    requires
        has_buffer(*old(ws)),
    ensures
        same_cursor(*old(ws), *final(ws)),
        buffer_text(*final(ws)) == text_with(
            *old(ws),
            cursor_line(*old(ws)),
            cursor_offset(*old(ws)),
            text@,
        ),
{
    if let Some(buffer) = ws.current_buffer.as_mut() {
        buffer.insert(text);
    }
}

/// `Buffer::delete`: the character at the cursor is deleted; the cursor
/// stays.
#[verifier::external_body]
pub(crate) fn engine_delete(ws: &mut Workspace)
    requires
        has_buffer(*old(ws)),
        cursor_line(*old(ws)) < usize::MAX,
        cursor_offset(*old(ws)) < usize::MAX,
    ensures
        same_cursor(*old(ws), *final(ws)),
        buffer_text(*final(ws)) == text_without(
            *old(ws),
            cursor_line(*old(ws)),
            cursor_offset(*old(ws)),
        ),
{
    if let Some(buffer) = ws.current_buffer.as_mut() {
        buffer.delete();
    }
}

/// `Buffer::undo`: the last edit of the text is reversed.
#[verifier::external_body]
pub(crate) fn engine_undo(ws: &mut Workspace)
    requires
        has_buffer(*old(ws)),
    ensures
        has_buffer(*final(ws)),
        has_path(*final(ws)) == has_path(*old(ws)),
        bound_path(*final(ws)) == bound_path(*old(ws)),
        buffer_text(*final(ws)) == text_after_undo(*old(ws)),
{
    if let Some(buffer) = ws.current_buffer.as_mut() {
        buffer.undo();
    }
}

/// `Buffer::redo`: the last reversed edit is applied again.
#[verifier::external_body]
pub(crate) fn engine_redo(ws: &mut Workspace)
    requires
        has_buffer(*old(ws)),
    ensures
        has_buffer(*final(ws)),
        has_path(*final(ws)) == has_path(*old(ws)),
        bound_path(*final(ws)) == bound_path(*old(ws)),
        buffer_text(*final(ws)) == text_after_redo(*old(ws)),
{
    if let Some(buffer) = ws.current_buffer.as_mut() {
        buffer.redo();
    }
}

/// `Buffer::search`: the engine goes through the lines of the buffer's
/// text and through the characters of each line, and reports every
/// character from which on the line's bytes begin with the bytes of
/// `needle`, by the line's number and the character's offset in bytes. In
/// UTF-8 the bytes of one text begin with the bytes of another exactly when
/// its characters do.
#[verifier::external_body]
pub(crate) fn engine_search(ws: &Workspace, needle: &str) -> (found: Vec<Position>)
    requires
        has_buffer(*ws),
    ensures
        found@.map_values(|p: Position| (p.line, p.offset)) == matches_of(
            buffer_text(*ws),
            needle@,
        ),
{
    match ws.current_buffer.as_ref() {
        Some(buffer) => buffer.search(needle).into_iter().map(
            |p| Position { line: p.line, offset: p.offset },
        ).collect(),
        None => Vec::new(),
    }
}

/// `Buffer::modified`; false where no buffer is open.
#[verifier::external_body]
pub(crate) fn engine_modified(ws: &Workspace) -> (modified: bool)
    ensures
        modified == (has_buffer(*ws) && is_modified(*ws)),
{
    match ws.current_buffer.as_ref() {
        Some(buffer) => buffer.modified(),
        None => false,
    }
}

/// `Workspace::current_buffer_path`, made absolute below the workspace's
/// own path: there is one exactly where the buffer is bound to a path.
#[verifier::external_body]
pub(crate) fn engine_path(ws: &Workspace) -> (path: Option<std::path::PathBuf>)
    ensures
        path is Some == (has_buffer(*ws) && has_path(*ws)),
        path matches Some(shown) ==> path_text(shown) == shown_path(*ws),
{
    ws.current_buffer_path().map(|path| ws.path.join(path))
}

/// Binds the current buffer to a path, by writing its `path`: the buffer
/// is bound to that path, and its text and cursor are as they were.
#[verifier::external_body]
pub(crate) fn engine_bind(ws: &mut Workspace, path: std::path::PathBuf)
    requires
        has_buffer(*old(ws)),
    ensures
        has_buffer(*final(ws)),
        has_path(*final(ws)),
        bound_path(*final(ws)) == path_text(path),
        buffer_text(*final(ws)) == buffer_text(*old(ws)),
        cursor_of(*final(ws)) == cursor_of(*old(ws)),
{
    if let Some(buffer) = ws.current_buffer.as_mut() {
        buffer.path = Some(path);
    }
}

/// The index that the workspace keeps for its current buffer, through
/// `Workspace::current_buffer_index`.
#[verifier::external_body]
pub(crate) fn engine_index(ws: &Workspace) -> (index: Option<usize>)
    ensures
        index is Some == has_index(*ws),
{
    ws.current_buffer_index()
}

/// Asks the workspace's set of syntaxes, through
/// `SyntaxSet::find_syntax_by_name`, for the syntax called `Plain Text`:
/// the one that `SyntaxSet::find_syntax_plain_text` takes to be there.
#[verifier::external_body]
pub(crate) fn engine_has_plain_syntax(ws: &Workspace) -> (found: bool)
    ensures
        found == has_plain_syntax(*ws),
{
    ws.syntax_set.find_syntax_by_name("Plain Text").is_some()
}

/// `Workspace::add_buffer` with a buffer from `Buffer::new`: an empty
/// buffer, bound to no path, with its cursor at the start, is open and
/// current. The workspace puts the buffer that was current back at its
/// index, and looks up the plain-text syntax for the new one; it must have
/// both.
#[verifier::external_body]
pub(crate) fn engine_new_buffer(ws: &mut Workspace)
    requires
        has_buffer(*old(ws)) ==> has_index(*old(ws)),
        has_plain_syntax(*old(ws)),
    ensures
        has_buffer(*final(ws)),
        has_index(*final(ws)),
        !has_path(*final(ws)),
        buffer_text(*final(ws)) == Seq::<char>::empty(),
        cursor_of(*final(ws)) == (Position { line: 0, offset: 0 }),
{
    ws.add_buffer(scribe::Buffer::new());
}

/// `Workspace::previous_buffer`: where the workspace keeps an index, the
/// buffer before the one at the index becomes current, or the last one
/// from the first. The index is still kept.
#[verifier::external_body]
pub(crate) fn engine_previous_buffer(ws: &mut Workspace)
    requires
        has_index(*old(ws)),
    ensures
        has_buffer(*final(ws)),
        has_index(*final(ws)),
        buffer_text(*final(ws)) == text_after_previous(*old(ws)),
        cursor_line(*final(ws)) == cursor_line_after_previous(*old(ws)),
        cursor_offset(*final(ws)) == cursor_offset_after_previous(*old(ws)),
{
    ws.previous_buffer();
}

/// `Workspace::next_buffer`: where the workspace keeps an index, the buffer
/// behind the one at the index becomes current, or the first one from the
/// last. The index is still kept.
#[verifier::external_body]
pub(crate) fn engine_next_buffer(ws: &mut Workspace)
    requires
        has_index(*old(ws)),
    ensures
        has_buffer(*final(ws)),
        has_index(*final(ws)),
        buffer_text(*final(ws)) == text_after_next(*old(ws)),
        cursor_line(*final(ws)) == cursor_line_after_next(*old(ws)),
        cursor_offset(*final(ws)) == cursor_offset_after_next(*old(ws)),
{
    ws.next_buffer();
}

} // verus!
