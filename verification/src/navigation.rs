//! Word-wise cursor motion. A word is a run of grapheme clusters that are
//! not blank; a motion first passes the blanks next to the cursor and then
//! the word behind them.

use vstd::prelude::*;
use vstd::string::*;
use crate::grapheme::{blanks, grapheme_clusters, line_blanks};
use crate::position::Position;
use crate::text::views;

verus! {

/// A motion of the cursor.
#[derive(Debug, PartialEq, Eq, Clone, Copy, Structural)]
pub enum Motion {
    Left,
    Right,
    WordLeft,
    WordRight,
    Up,
    Down,
    End,
    Home,
}

/// Where a scan to the left ends that starts at `from` and passes clusters
/// as long as their blankness is `over`.
pub open spec fn skip_back(blank: Seq<bool>, from: int, over: bool) -> int
    decreases from,
{
    if 0 < from <= blank.len() && blank[from - 1] == over {
        skip_back(blank, from - 1, over)
    } else {
        from
    }
}

/// Where a scan to the right ends that starts at `from` and passes clusters
/// as long as their blankness is `over`.
pub open spec fn skip_ahead(blank: Seq<bool>, from: int, over: bool) -> int
    decreases blank.len() - from,
{
    if 0 <= from < blank.len() && blank[from] == over {
        skip_ahead(blank, from + 1, over)
    } else {
        from
    }
}

/// The offset a word to the left of `from`: past the blanks, then past the
/// word.
pub open spec fn word_start(blank: Seq<bool>, from: int) -> int {
    skip_back(blank, skip_back(blank, from, true), false)
}

/// The offset a word to the right of `from`: past the blanks, then past the
/// word.
pub open spec fn word_end(blank: Seq<bool>, from: int) -> int {
    skip_ahead(blank, skip_ahead(blank, from, true), false)
}

/// For each line, which of its clusters are blank.
pub open spec fn line_flags(lines: Seq<Seq<char>>) -> Seq<Seq<bool>> {
    lines.map_values(|line: Seq<char>| blanks(grapheme_clusters(line)))
}

/// Where the cursor goes a word to the left. It stays at the very start of
/// the buffer; from the start of a line it goes to the end of the line above
/// and on from there.
pub open spec fn word_left(lines: Seq<Seq<bool>>, pos: Position) -> Position {
    if pos.line == 0 && pos.offset == 0 {
        pos
    } else {
        let line = if pos.offset == 0 {
            pos.line - 1
        } else {
            pos.line as int
        };
        if line >= lines.len() {
            pos
        } else {
            let from = if pos.offset == 0 || pos.offset > lines[line].len() {
                lines[line].len() as int
            } else {
                pos.offset as int
            };
            Position { line: line as usize, offset: word_start(lines[line], from) as usize }
        }
    }
}

/// Where the cursor goes a word to the right. It stays at the very end of
/// the buffer; from the end of a line it goes to the start of the line
/// below.
pub open spec fn word_right(lines: Seq<Seq<bool>>, pos: Position) -> Position {
    if pos.line >= lines.len() {
        pos
    } else {
        let count = lines[pos.line as int].len();
        if pos.line == lines.len() - 1 && pos.offset == count {
            pos
        } else if pos.offset >= count {
            Position { line: (pos.line + 1) as usize, offset: 0 }
        } else {
            Position {
                line: pos.line,
                offset: word_end(lines[pos.line as int], pos.offset as int) as usize,
            }
        }
    }
}

/// Scans to the left from `from`, over the blanks and then over the word.
pub fn scan_word_left(blank: &Vec<bool>, from: usize) -> (offset: usize)
    requires
        from <= blank@.len(),
    ensures
        offset == word_start(blank@, from as int),
        offset <= from,
{
    let mut offset: usize = from;
    while offset > 0 && blank[offset - 1]
        invariant
            offset <= from <= blank@.len(),
            skip_back(blank@, offset as int, true) == skip_back(blank@, from as int, true),
        decreases offset,
    {
        offset -= 1;
    }
    let ghost middle = offset;
    while offset > 0 && !blank[offset - 1]
        invariant
            offset <= middle <= blank@.len(),
            skip_back(blank@, offset as int, false) == skip_back(blank@, middle as int, false),
        decreases offset,
    {
        offset -= 1;
    }
    offset
}

/// Scans to the right from `from`, over the blanks and then over the word.
pub fn scan_word_right(blank: &Vec<bool>, from: usize) -> (offset: usize)
    requires
        from <= blank@.len(),
    ensures
        offset == word_end(blank@, from as int),
        from <= offset <= blank@.len(),
{
    let count = blank.len();
    let mut offset: usize = from;
    while offset < count && blank[offset]
        invariant
            from <= offset <= count,
            count == blank@.len(),
            skip_ahead(blank@, offset as int, true) == skip_ahead(blank@, from as int, true),
        decreases count - offset,
    {
        offset += 1;
    }
    let ghost middle = offset;
    while offset < count && !blank[offset]
        invariant
            middle <= offset <= count,
            count == blank@.len(),
            skip_ahead(blank@, offset as int, false) == skip_ahead(blank@, middle as int, false),
        decreases count - offset,
    {
        offset += 1;
    }
    offset
}

/// Where the cursor goes a word to the left in a buffer of these lines.
pub fn word_left_target(lines: &Vec<String>, pos: Position) -> (target: Position)
    ensures
        target == word_left(line_flags(views(lines@)), pos),
{
    if pos.line == 0 && pos.offset == 0 {
        return pos;
    }
    let line: usize = if pos.offset == 0 {
        pos.line - 1
    } else {
        pos.line
    };
    if line >= lines.len() {
        return pos;
    }
    let blank = line_blanks(lines[line].as_str());
    assert(line_flags(views(lines@))[line as int] == blank@);
    let from: usize = if pos.offset == 0 || pos.offset > blank.len() {
        blank.len()
    } else {
        pos.offset
    };
    Position { line, offset: scan_word_left(&blank, from) }
}

/// Where the cursor goes a word to the right in a buffer of these lines.
pub fn word_right_target(lines: &Vec<String>, pos: Position) -> (target: Position)
    ensures
        target == word_right(line_flags(views(lines@)), pos),
{
    if pos.line >= lines.len() {
        return pos;
    }
    let blank = line_blanks(lines[pos.line].as_str());
    assert(line_flags(views(lines@))[pos.line as int] == blank@);
    let count = blank.len();
    if pos.line == lines.len() - 1 && pos.offset == count {
        return pos;
    }
    if pos.offset >= count {
        Position { line: pos.line + 1, offset: 0 }
    } else {
        Position { line: pos.line, offset: scan_word_right(&blank, pos.offset) }
    }
}

} // verus!
