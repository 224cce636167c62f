//! What the screen shows of a buffer: the scroll offsets that keep the
//! cursor in view, the clipped text, the highlighted matches, and where the
//! terminal's cursor goes.

use vstd::prelude::*;
use vstd::string::*;
use tui_input::Input;
use crate::field::{
    cursor_after, field_cursor, field_cursor_at, field_text, field_value, handle_field,
    new_field, path_from_text, path_text, value_after, InputRequest,
};
use crate::grapheme::{
    concat, concat_from, concat_range, grapheme_clusters, graphemes, lemma_concat_split,
};
use crate::position::Position;
use crate::text::{join, join_lines, lines_of, split_lines, views};

verus! {

/// A rectangle of terminal cells.
#[derive(Debug, Default, PartialEq, Eq, Hash, Clone, Copy, Structural)]
pub struct Rect {
    pub x: u16,
    pub y: u16,
    pub width: u16,
    pub height: u16,
}

/// A cell of the terminal.
#[derive(Debug, Default, PartialEq, Eq, Hash, Clone, Copy, Structural)]
pub struct TerminalPosition {
    pub x: u16,
    pub y: u16,
}

/// A match of a search: where it starts, how many grapheme clusters it
/// spans, and whether it is the focused one.
#[derive(Debug, Default, PartialEq, Eq, Clone, Copy, Structural)]
pub struct Highlight {
    pub start: Position,
    pub length: usize,
    pub is_selected: bool,
}

/// Two ways a file input can serve: to ask for the path of a file to open,
/// or for the path to save an unbound buffer to.
#[derive(Debug, Clone, Copy, PartialEq, Eq, Structural)]
pub enum FileInputRole {
    GetOpenPath,
    GetSavePath,
}

/// Holds an input and an indicator of its role.
pub struct FileInputState {
    pub input: Input,
    pub role: FileInputRole,
}

/// What the keyboard is typing into.
pub enum InputMode {
    /// The buffer itself.
    Normal,
    /// A field that asks for a file's path.
    FileInput(FileInputState),
    /// A field that asks for a search query.
    SearchInput(Input),
}

/// What the terminal's cursor follows.
pub enum CursorCalculationMode<'a> {
    FileInput(&'a Input),
    Buffer,
}

/// How far the displayed buffer is scrolled: that many columns and lines
/// are cut off at the left and at the top.
#[derive(Debug, Default, PartialEq, Eq, Clone, Copy, Structural)]
pub struct BufferDisplayOffset {
    /// Columns cut off at the left of every line.
    pub x: usize,
    /// Lines cut off at the top.
    pub y: usize,
}

/// The matches of the last search and the one in focus.
pub struct HighlightState {
    pub highlights: Vec<Highlight>,
    pub focused: usize,
}

/// The state of a buffer's display: its scroll offsets and its highlights.
pub struct BufferDisplayState {
    pub offset: BufferDisplayOffset,
    pub highlight_state: HighlightState,
}

/// The state of the user interface.
pub struct UIState {
    pub buffer_state: BufferDisplayState,
    pub mode: InputMode,
}

/// How a run of displayed text is painted.
#[derive(Debug, PartialEq, Eq, Clone, Copy, Structural)]
pub enum SpanStyle {
    Plain,
    Highlighted,
    HighlightedSelected,
}

/// A run of displayed text in one style.
#[derive(Debug, Clone)]
pub struct Span {
    pub content: String,
    pub style: SpanStyle,
}

/// A run of displayed text in one style, as plain values.
pub struct SpanView {
    pub content: Seq<char>,
    pub style: SpanStyle,
}

impl View for Span {
    type V = SpanView;

    open spec fn view(&self) -> SpanView {
        SpanView { content: self.content@, style: self.style }
    }
}

/// The views of the spans of a line.
pub open spec fn span_views(spans: Seq<Span>) -> Seq<SpanView> {
    Seq::new(spans.len(), |i: int| spans[i]@)
}

/// The views of the spans of every line.
pub open spec fn line_views(lines: Seq<Vec<Span>>) -> Seq<Seq<SpanView>> {
    Seq::new(lines.len(), |i: int| span_views(lines[i]@))
}

/// The scroll offset that follows `offset` once the cursor stands at
/// `cursor` and `extent` cells are visible: unchanged while the cursor is in
/// view, else just far enough to bring the cursor back in.
pub open spec fn scrolled(offset: int, extent: int, cursor: int) -> int {
    let pushed = if cursor >= offset + extent {
        cursor - extent + 1
    } else {
        offset
    };
    if pushed <= cursor {
        pushed
    } else {
        cursor
    }
}

/// `value`, kept between `low` and `high`; `low` where the two cross.
pub open spec fn clamp(value: int, low: int, high: int) -> int {
    if value > high {
        if high < low {
            low
        } else {
            high
        }
    } else if value < low {
        low
    } else {
        value
    }
}

/// `value`, or the largest coordinate of a terminal where it lies beyond.
pub open spec fn cell(value: int) -> int {
    if value > u16::MAX {
        u16::MAX as int
    } else {
        value
    }
}

/// The cell in which the cursor of a buffer is drawn along one axis: `base`
/// is where the area starts, `extent` its size, `cursor` the cursor's
/// coordinate in the buffer and `offset` the scroll offset.
pub open spec fn rendered(base: int, extent: int, cursor: int, offset: int) -> int {
    cell(clamp(base + cursor - offset, base, base + extent - 1))
}

/// The focus after a step forward among `count` highlights.
pub open spec fn next_focus(focused: int, count: int) -> int {
    (focused + 1) % count
}

/// The focus after a step backward among `count` highlights.
pub open spec fn prev_focus(focused: int, count: int) -> int {
    (focused + count - 1) % count
}

/// The focus after `steps` steps forward.
pub open spec fn focus_after_next(focused: int, count: int, steps: nat) -> int
    decreases steps,
{
    if steps == 0 {
        focused
    } else {
        next_focus(focus_after_next(focused, count, (steps - 1) as nat), count)
    }
}

/// The focus after `steps` steps backward.
pub open spec fn focus_after_prev(focused: int, count: int, steps: nat) -> int
    decreases steps,
{
    if steps == 0 {
        focused
    } else {
        prev_focus(focus_after_prev(focused, count, (steps - 1) as nat), count)
    }
}

/// The highlights and the focus after `steps` steps forward, each step as
/// `focus_next` makes it.
pub open spec fn state_after_next(highlights: Seq<Highlight>, focused: int, steps: nat) -> (
    Seq<Highlight>,
    int,
)
    decreases steps,
{
    if steps == 0 {
        (highlights, focused)
    } else {
        let before = state_after_next(highlights, focused, (steps - 1) as nat);
        let focus = next_focus(before.1, before.0.len() as int);
        (marked(before.0, focus), focus)
    }
}

/// The highlights and the focus after `steps` steps backward, each step as
/// `focus_prev` makes it.
pub open spec fn state_after_prev(highlights: Seq<Highlight>, focused: int, steps: nat) -> (
    Seq<Highlight>,
    int,
)
    decreases steps,
{
    if steps == 0 {
        (highlights, focused)
    } else {
        let before = state_after_prev(highlights, focused, (steps - 1) as nat);
        let focus = prev_focus(before.1, before.0.len() as int);
        (marked(before.0, focus), focus)
    }
}

/// One of the highlights is in focus, and that one alone is marked as
/// selected.
pub open spec fn focus_marked(highlights: Seq<Highlight>, focused: int) -> bool {
    &&& 0 <= focused < highlights.len()
    &&& forall|i: int|
        0 <= i < highlights.len() ==> (#[trigger] highlights[i]).is_selected == (i == focused)
}

/// `highlights` with the selection mark on the one at `focused` and on no
/// other.
pub open spec fn marked(highlights: Seq<Highlight>, focused: int) -> Seq<Highlight> {
    Seq::new(
        highlights.len(),
        |i: int|
            Highlight {
                start: highlights[i].start,
                length: highlights[i].length,
                is_selected: i == focused,
            },
    )
}

/// `text` without its first `lines` lines.
pub open spec fn shifted_down(text: Seq<char>, lines: nat) -> Seq<char> {
    let all = lines_of(text);
    if lines <= all.len() {
        join_lines(all.skip(lines as int))
    } else {
        Seq::<char>::empty()
    }
}

/// `line` without its first `columns` grapheme clusters.
pub open spec fn clipped(line: Seq<char>, columns: nat) -> Seq<char> {
    let clusters = grapheme_clusters(line);
    if columns <= clusters.len() {
        concat(clusters.skip(columns as int))
    } else {
        Seq::<char>::empty()
    }
}

/// `text` with the first `columns` grapheme clusters taken off every line.
pub open spec fn shifted_right(text: Seq<char>, columns: nat) -> Seq<char> {
    join_lines(lines_of(text).map_values(|line: Seq<char>| clipped(line, columns)))
}

/// The text that is painted: the lines of `text` behind the first
/// `offset.y`, each without its first `offset.x` grapheme clusters, with a
/// line feed between each two. Nothing is left where the text has fewer
/// lines than are cut off.
pub open spec fn shifted(text: Seq<char>, offset: BufferDisplayOffset) -> Seq<char> {
    let all = lines_of(text);
    if offset.y <= all.len() {
        join_lines(
            all.skip(offset.y as int).map_values(
                |line: Seq<char>| clipped(line, offset.x as nat),
            ),
        )
    } else {
        Seq::<char>::empty()
    }
}

/// Where the painting of a line stands: the spans laid down so far, and the
/// cluster up to which the line is covered.
pub struct Painted {
    pub spans: Seq<SpanView>,
    pub covered: int,
}

/// The style of a highlight.
pub open spec fn style_of(highlight: Highlight) -> SpanStyle {
    if highlight.is_selected {
        SpanStyle::HighlightedSelected
    } else {
        SpanStyle::Highlighted
    }
}

/// The clusters from `from` up to `to`, one after another, in one style.
pub open spec fn span_of(clusters: Seq<Seq<char>>, from: int, to: int, style: SpanStyle) -> SpanView {
    SpanView { content: concat(clusters.subrange(from, to)), style }
}

/// Where a highlight begins on a displayed line of `count` clusters, once
/// `columns` columns are cut off at the left.
pub open spec fn span_start(highlight: Highlight, columns: int, count: int) -> int {
    let start = if highlight.start.offset >= columns {
        highlight.start.offset - columns
    } else {
        0
    };
    if start > count {
        count
    } else {
        start
    }
}

/// Where a highlight ends on a displayed line of `count` clusters.
pub open spec fn span_end(highlight: Highlight, columns: int, count: int) -> int {
    let end = span_start(highlight, columns, count) + highlight.length;
    if end > count {
        count
    } else {
        end
    }
}

/// The painting of a displayed line after the highlights in `highlights`
/// that start on buffer line `line`, taken in order: before each, the text
/// not yet covered is laid down plain, then the highlight in its style.
pub open spec fn painted(
    clusters: Seq<Seq<char>>,
    highlights: Seq<Highlight>,
    line: int,
    columns: int,
) -> Painted
    decreases highlights.len(),
{
    if highlights.len() == 0 {
        Painted { spans: Seq::<SpanView>::empty(), covered: 0 }
    } else {
        let before = painted(clusters, highlights.drop_last(), line, columns);
        let highlight = highlights.last();
        if highlight.start.line != line {
            before
        } else {
            let start = span_start(highlight, columns, clusters.len() as int);
            let end = span_end(highlight, columns, clusters.len() as int);
            let plain = if start > before.covered {
                before.spans.push(span_of(clusters, before.covered, start, SpanStyle::Plain))
            } else {
                before.spans
            };
            Painted {
                spans: plain.push(span_of(clusters, start, end, style_of(highlight))),
                covered: end,
            }
        }
    }
}

/// The spans of a displayed line: its painting, then what is left of the
/// line, plain.
pub open spec fn line_spans(
    clusters: Seq<Seq<char>>,
    highlights: Seq<Highlight>,
    line: int,
    columns: int,
) -> Seq<SpanView> {
    let done = painted(clusters, highlights, line, columns);
    if done.covered < clusters.len() {
        done.spans.push(span_of(clusters, done.covered, clusters.len() as int, SpanStyle::Plain))
    } else {
        done.spans
    }
}

/// The text that spans hold, one after another.
pub open spec fn text_of_spans(spans: Seq<SpanView>) -> Seq<char>
    decreases spans.len(),
{
    if spans.len() == 0 {
        Seq::<char>::empty()
    } else {
        text_of_spans(spans.drop_last()) + spans.last().content
    }
}

/// Whether the highlights that start on buffer line `line` come from left
/// to right on the displayed line, none beginning before the one before it
/// has ended.
pub open spec fn in_order(
    clusters: Seq<Seq<char>>,
    highlights: Seq<Highlight>,
    line: int,
    columns: int,
) -> bool
    decreases highlights.len(),
{
    if highlights.len() == 0 {
        true
    } else {
        &&& in_order(clusters, highlights.drop_last(), line, columns)
        &&& highlights.last().start.line == line ==> span_start(
            highlights.last(),
            columns,
            clusters.len() as int,
        ) >= painted(clusters, highlights.drop_last(), line, columns).covered
    }
}

/// The spans of every line of a displayed text. The displayed line `i` is
/// line `i + offset.y` of the buffer.
pub open spec fn highlighted(
    contents: Seq<char>,
    highlights: Seq<Highlight>,
    offset: BufferDisplayOffset,
) -> Seq<Seq<SpanView>> {
    Seq::new(
        lines_of(contents).len(),
        |i: int|
            line_spans(
                grapheme_clusters(lines_of(contents)[i]),
                highlights,
                i + offset.y,
                offset.x as int,
            ),
    )
}

impl Rect {
    pub fn new(x: u16, y: u16, width: u16, height: u16) -> (area: Rect)
        ensures
            area == (Rect { x, y, width, height }),
    {
        Rect { x, y, width, height }
    }
}

impl TerminalPosition {
    pub fn new(x: u16, y: u16) -> (position: TerminalPosition)
        ensures
            position == (TerminalPosition { x, y }),
    {
        TerminalPosition { x, y }
    }
}

impl BufferDisplayOffset {
    pub fn new(x: usize, y: usize) -> (offset: BufferDisplayOffset)
        ensures
            offset == (BufferDisplayOffset { x, y }),
    {
        BufferDisplayOffset { x, y }
    }
}

impl FileInputState {
    /// A field that holds `contents` and serves as `role`.
    pub fn new(contents: &str, role: FileInputRole) -> (state: FileInputState)
        ensures
            field_value(state.input) == contents@,
            field_cursor(state.input) == contents@.len(),
            state.role == role,
    {
        FileInputState { input: new_field(contents), role }
    }

    /// The path that the field's text spells.
    pub fn to_path(&self) -> (path: std::path::PathBuf)
        ensures
            path_text(path) == field_value(self.input),
    {
        let text = field_text(&self.input);
        path_from_text(text.as_str())
    }

    /// Hands a request to the field.
    pub fn handle(&mut self, req: InputRequest)
        ensures
            final(self).role == old(self).role,
            field_value(final(self).input) == value_after(
                field_value(old(self).input),
                field_cursor(old(self).input),
                req,
            ),
            field_cursor(final(self).input) == cursor_after(
                field_value(old(self).input),
                field_cursor(old(self).input),
                req,
            ),
    {
        handle_field(&mut self.input, req);
    }
}

impl HighlightState {
    /// No highlights, or one of them in focus and that one alone marked as
    /// selected.
    pub open spec fn wf(&self) -> bool {
        if self.highlights@.len() == 0 {
            self.focused == 0
        } else {
            focus_marked(self.highlights@, self.focused as int)
        }
    }

    /// A state without highlights.
    pub fn new() -> (state: HighlightState)
        ensures
            state.highlights@.len() == 0,
            state.focused == 0,
            state.wf(),
    {
        HighlightState { highlights: Vec::new(), focused: 0 }
    }

    /// Puts the selection mark on the highlight at `at` and takes it off
    /// every other.
    fn mark(&mut self, at: usize)
        ensures
            final(self).highlights@ == marked(old(self).highlights@, at as int),
            final(self).focused == old(self).focused,
    {
        let ghost before = self.highlights@;
        let mut i: usize = 0;
        while i < self.highlights.len()
            invariant
                i <= self.highlights.len(),
                self.highlights@.len() == before.len(),
                self.focused == old(self).focused,
                forall|j: int| 0 <= j < i ==> self.highlights@[j] == marked(before, at as int)[j],
                forall|j: int| i <= j < before.len() ==> self.highlights@[j] == before[j],
            decreases self.highlights.len() - i,
        {
            let highlight = self.highlights[i];
            self.highlights.set(
                i,
                Highlight { start: highlight.start, length: highlight.length, is_selected: i == at },
            );
            i += 1;
        }
        assert(self.highlights@ =~= marked(before, at as int));
    }

    /// Takes over the matches of a search and puts the first of them in
    /// focus.
    pub fn update(&mut self, highlights: Vec<Highlight>)
        ensures
            final(self).highlights@ == marked(highlights@, 0),
            final(self).focused == 0,
            final(self).wf(),
    {
        self.highlights = highlights;
        self.focused = 0;
        self.mark(0);
    }

    /// Where the focused highlight starts, if there is a highlight.
    pub fn focused_position(&self) -> (start: Option<Position>)
        ensures
            start == if self.focused < self.highlights@.len() {
                Some(self.highlights@[self.focused as int].start)
            } else {
                None
            },
    {
        if self.focused < self.highlights.len() {
            Some(self.highlights[self.focused].start)
        } else {
            None
        }
    }

    /// Moves the focus one highlight on, from the last to the first. Does
    /// nothing where there is no highlight.
    pub fn focus_next(&mut self)
        requires
            old(self).wf(),
        ensures
            final(self).wf(),
            old(self).highlights@.len() == 0 ==> *final(self) == *old(self),
            old(self).highlights@.len() > 0 ==> final(self).focused == next_focus(
                old(self).focused as int,
                old(self).highlights@.len() as int,
            ) && final(self).highlights@ == marked(old(self).highlights@, final(self).focused as int),
    {
        let count = self.highlights.len();
        if count == 0 {
            return ;
        }
        let next: usize = if self.focused + 1 == count {
            0
        } else {
            self.focused + 1
        };
        proof {
            lemma_focus_steps(self.focused as int, count as int);
        }
        self.focused = next;
        self.mark(next);
    }

    /// Moves the focus one highlight back, from the first to the last. Does
    /// nothing where there is no highlight.
    pub fn focus_prev(&mut self)
        requires
            old(self).wf(),
        ensures
            final(self).wf(),
            old(self).highlights@.len() == 0 ==> *final(self) == *old(self),
            old(self).highlights@.len() > 0 ==> final(self).focused == prev_focus(
                old(self).focused as int,
                old(self).highlights@.len() as int,
            ) && final(self).highlights@ == marked(old(self).highlights@, final(self).focused as int),
    {
        let count = self.highlights.len();
        if count == 0 {
            return ;
        }
        let prev: usize = if self.focused == 0 {
            count - 1
        } else {
            self.focused - 1
        };
        proof {
            lemma_focus_steps(self.focused as int, count as int);
        }
        self.focused = prev;
        self.mark(prev);
    }

    /// Forgets every highlight.
    pub fn clear(&mut self)
        ensures
            final(self).highlights@.len() == 0,
            final(self).focused == 0,
            final(self).wf(),
    {
        self.highlights.clear();
        self.focused = 0;
    }

    /// Whether the state is well-formed.
    pub fn is_well_formed(&self) -> (ok: bool)
        ensures
            ok == self.wf(),
    {
        if self.highlights.len() == 0 {
            return self.focused == 0;
        }
        if self.focused >= self.highlights.len() {
            return false;
        }
        let mut i: usize = 0;
        while i < self.highlights.len()
            invariant
                i <= self.highlights.len(),
                self.focused < self.highlights.len(),
                forall|j: int|
                    0 <= j < i ==> (#[trigger] self.highlights@[j]).is_selected == (j
                        == self.focused),
            decreases self.highlights.len() - i,
        {
            if self.highlights[i].is_selected != (i == self.focused) {
                return false;
            }
            i += 1;
        }
        true
    }
}

/// One step forward goes to the next index, or from the last to the first;
/// one step backward to the index before, or from the first to the last.
pub proof fn lemma_focus_steps(focused: int, count: int)
    requires
        0 <= focused < count,
    ensures
        next_focus(focused, count) == if focused + 1 == count {
            0
        } else {
            focused + 1
        },
        prev_focus(focused, count) == if focused == 0 {
            count - 1
        } else {
            focused - 1
        },
{
    vstd::arithmetic::div_mod::lemma_mod_self_0(count);
    vstd::arithmetic::div_mod::lemma_mod_add_multiples_vanish(focused - 1, count);
    if focused + 1 < count {
        vstd::arithmetic::div_mod::lemma_small_mod((focused + 1) as nat, count as nat);
    }
    if focused == 0 {
        vstd::arithmetic::div_mod::lemma_small_mod((count - 1) as nat, count as nat);
    } else {
        vstd::arithmetic::div_mod::lemma_small_mod((focused - 1) as nat, count as nat);
    }
}

/// After `steps` steps forward the focus has advanced by `steps`, wrapping
/// round at `count`.
pub proof fn lemma_focus_after_next(focused: int, count: int, steps: nat)
    requires
        0 <= focused < count,
    ensures
        focus_after_next(focused, count, steps) == (focused + steps) % count,
    decreases steps,
{
    if steps == 0 {
        vstd::arithmetic::div_mod::lemma_small_mod(focused as nat, count as nat);
    } else {
        lemma_focus_after_next(focused, count, (steps - 1) as nat);
        vstd::arithmetic::div_mod::lemma_add_mod_noop_right(1, focused + steps - 1, count);
    }
}

/// After `steps` steps backward the focus has gone back by `steps`,
/// wrapping round at `count`.
pub proof fn lemma_focus_after_prev(focused: int, count: int, steps: nat)
    requires
        0 <= focused < count,
    ensures
        focus_after_prev(focused, count, steps) == (focused - steps) % count,
    decreases steps,
{
    if steps == 0 {
        vstd::arithmetic::div_mod::lemma_small_mod(focused as nat, count as nat);
    } else {
        lemma_focus_after_prev(focused, count, (steps - 1) as nat);
        vstd::arithmetic::div_mod::lemma_add_mod_noop_right(
            count - 1,
            focused - (steps - 1),
            count,
        );
        vstd::arithmetic::div_mod::lemma_mod_add_multiples_vanish(focused - steps, count);
    }
}

/// Stepping forward as many times as there are highlights brings the focus
/// back to where it was, and so does stepping backward as many times.
pub proof fn lemma_focus_cycle(focused: int, count: int)
    requires
        0 <= focused < count,
    ensures
        focus_after_next(focused, count, count as nat) == focused,
        focus_after_prev(focused, count, count as nat) == focused,
{
    lemma_focus_after_next(focused, count, count as nat);
    lemma_focus_after_prev(focused, count, count as nat);
    vstd::arithmetic::div_mod::lemma_mod_add_multiples_vanish(focused, count);
    vstd::arithmetic::div_mod::lemma_mod_sub_multiples_vanish(focused, count);
    vstd::arithmetic::div_mod::lemma_small_mod(focused as nat, count as nat);
}

/// After any number of steps the focus is where the steps lead it, and the
/// highlights are the ones there were, with the mark on the focus.
pub proof fn lemma_state_after_steps(highlights: Seq<Highlight>, focused: int, steps: nat)
    requires
        focus_marked(highlights, focused),
    ensures
        state_after_next(highlights, focused, steps) == (
            marked(highlights, focus_after_next(focused, highlights.len() as int, steps)),
            focus_after_next(focused, highlights.len() as int, steps),
        ),
        state_after_prev(highlights, focused, steps) == (
            marked(highlights, focus_after_prev(focused, highlights.len() as int, steps)),
            focus_after_prev(focused, highlights.len() as int, steps),
        ),
    decreases steps,
{
    let count = highlights.len() as int;
    if steps == 0 {
        assert(marked(highlights, focused) == highlights);
    } else {
        let fewer = (steps - 1) as nat;
        lemma_state_after_steps(highlights, focused, fewer);
        let next = next_focus(focus_after_next(focused, count, fewer), count);
        let prev = prev_focus(focus_after_prev(focused, count, fewer), count);
        assert(marked(marked(highlights, focus_after_next(focused, count, fewer)), next)
            == marked(highlights, next));
        assert(marked(marked(highlights, focus_after_prev(focused, count, fewer)), prev)
            == marked(highlights, prev));
    }
}

/// Stepping forward as many times as there are highlights brings back the
/// state there was: the same highlight is in focus, it alone is marked, and
/// every highlight starts where it started and is as long as it was. So
/// does stepping backward as many times.
pub proof fn lemma_focus_cycle_state(highlights: Seq<Highlight>, focused: int)
    requires
        focus_marked(highlights, focused),
    ensures
        state_after_next(highlights, focused, highlights.len()) == (highlights, focused),
        state_after_prev(highlights, focused, highlights.len()) == (highlights, focused),
{
    lemma_state_after_steps(highlights, focused, highlights.len());
    lemma_focus_cycle(focused, highlights.len() as int);
    assert(marked(highlights, focused) == highlights);
}

/// What scrolling promises: the offset never passes the cursor; with room
/// to show anything, the cursor is in view afterwards; and while the cursor
/// was in view, nothing moves.
pub proof fn lemma_scrolled(offset: int, extent: int, cursor: int)
    requires
        0 <= offset,
        0 <= extent,
        0 <= cursor,
    ensures
        0 <= scrolled(offset, extent, cursor) <= cursor,
        extent > 0 ==> cursor < scrolled(offset, extent, cursor) + extent,
        offset <= cursor < offset + extent ==> scrolled(offset, extent, cursor) == offset,
{
}

/// Once the offset has followed the cursor, the cursor is drawn where it
/// stands: inside the area, as far from the area's start as the cursor is
/// from the offset.
pub proof fn lemma_cursor_in_view(base: int, offset: int, extent: int, cursor: int)
    requires
        0 <= base,
        0 <= offset,
        0 < extent,
        0 <= cursor,
        base + extent - 1 <= u16::MAX,
    ensures
        rendered(base, extent, cursor, scrolled(offset, extent, cursor)) == base + cursor
            - scrolled(offset, extent, cursor),
        base <= rendered(base, extent, cursor, scrolled(offset, extent, cursor)) < base + extent,
{
}

/// Painting highlights that come in order covers the line from its start
/// without a gap and without a repeat: the spans laid down hold the line's
/// text up to where the painting stands.
pub proof fn lemma_painted_keeps_text(
    clusters: Seq<Seq<char>>,
    highlights: Seq<Highlight>,
    line: int,
    columns: int,
)
    requires
        0 <= columns,
        in_order(clusters, highlights, line, columns),
    ensures
        0 <= painted(clusters, highlights, line, columns).covered <= clusters.len(),
        text_of_spans(painted(clusters, highlights, line, columns).spans) == concat(
            clusters.subrange(0, painted(clusters, highlights, line, columns).covered),
        ),
    decreases highlights.len(),
{
    if highlights.len() == 0 {
        assert(clusters.subrange(0, 0).len() == 0);
    } else {
        lemma_painted_keeps_text(clusters, highlights.drop_last(), line, columns);
        let before = painted(clusters, highlights.drop_last(), line, columns);
        let highlight = highlights.last();
        if highlight.start.line == line {
            let start = span_start(highlight, columns, clusters.len() as int);
            let end = span_end(highlight, columns, clusters.len() as int);
            let gap = span_of(clusters, before.covered, start, SpanStyle::Plain);
            let mark = span_of(clusters, start, end, style_of(highlight));
            let plain = if start > before.covered {
                before.spans.push(gap)
            } else {
                before.spans
            };
            lemma_concat_split(clusters, 0, before.covered, start);
            lemma_concat_split(clusters, 0, start, end);
            if start > before.covered {
                assert(plain.drop_last() == before.spans);
                assert(plain.last() == gap);
            }
            assert(text_of_spans(plain) == concat(clusters.subrange(0, start)));
            assert(plain.push(mark).drop_last() == plain);
            assert(plain.push(mark).last() == mark);
        }
    }
}

/// Where the highlights of a line come in order, the spans of the line hold
/// the line's text, whole and once.
pub proof fn lemma_line_spans_keep_text(
    clusters: Seq<Seq<char>>,
    highlights: Seq<Highlight>,
    line: int,
    columns: int,
)
    requires
        0 <= columns,
        in_order(clusters, highlights, line, columns),
    ensures
        text_of_spans(line_spans(clusters, highlights, line, columns)) == concat(clusters),
{
    lemma_painted_keeps_text(clusters, highlights, line, columns);
    let done = painted(clusters, highlights, line, columns);
    lemma_concat_split(clusters, 0, done.covered, clusters.len() as int);
    assert(clusters.subrange(0, clusters.len() as int) == clusters);
    if done.covered < clusters.len() {
        let rest = span_of(clusters, done.covered, clusters.len() as int, SpanStyle::Plain);
        assert(done.spans.push(rest).drop_last() == done.spans);
        assert(done.spans.push(rest).last() == rest);
    } else {
        assert(clusters.subrange(done.covered, clusters.len() as int).len() == 0);
        assert(concat(clusters.subrange(0, done.covered)) + Seq::<char>::empty() == concat(
            clusters.subrange(0, done.covered),
        ));
    }
}

/// The scroll offset that follows `offset`, computed without leaving the
/// range of the machine's integers.
fn scroll(offset: usize, extent: u16, cursor: usize) -> (next: usize)
    ensures
        next == scrolled(offset as int, extent as int, cursor as int),
        next <= cursor,
{
    let pushed: usize = if cursor >= offset && cursor - offset >= extent as usize {
        if extent == 0 {
            cursor
        } else {
            cursor - (extent as usize - 1)
        }
    } else {
        offset
    };
    if pushed <= cursor {
        pushed
    } else {
        cursor
    }
}

/// The cell along one axis in which the cursor of a buffer is drawn.
fn render(base: u16, extent: u16, cursor: usize, offset: usize) -> (at: u16)
    ensures
        at == rendered(base as int, extent as int, cursor as int, offset as int),
{
    if cursor <= offset || extent == 0 {
        return base;
    }
    let ahead: usize = cursor - offset;
    let step: u32 = if ahead >= extent as usize {
        (extent - 1) as u32
    } else {
        ahead as u32
    };
    let sum: u32 = base as u32 + step;
    if sum > u16::MAX as u32 {
        u16::MAX
    } else {
        sum as u16
    }
}

impl BufferDisplayState {
    pub fn new(offset: BufferDisplayOffset) -> (state: BufferDisplayState)
        ensures
            state.offset == offset,
            state.highlight_state.highlights@.len() == 0,
            state.highlight_state.focused == 0,
            state.highlight_state.wf(),
    {
        BufferDisplayState { offset, highlight_state: HighlightState::new() }
    }

    /// Updates the x offset of the buffer so that the cursor is always
    /// visible.
    pub fn update_x_offset(&mut self, area: Rect, cursor_offset_x: usize)
        ensures
            final(self).offset.x == scrolled(
                old(self).offset.x as int,
                area.width as int,
                cursor_offset_x as int,
            ),
            final(self).offset.x <= cursor_offset_x,
            final(self).offset.y == old(self).offset.y,
            final(self).highlight_state == old(self).highlight_state,
    {
        self.offset.x = scroll(self.offset.x, area.width, cursor_offset_x);
    }

    /// Updates the y offset of the buffer so that the cursor's line is
    /// always visible.
    pub fn update_y_offset(&mut self, area: Rect, cursor_line: usize)
        ensures
            final(self).offset.y == scrolled(
                old(self).offset.y as int,
                area.height as int,
                cursor_line as int,
            ),
            final(self).offset.y <= cursor_line,
            final(self).offset.x == old(self).offset.x,
            final(self).highlight_state == old(self).highlight_state,
    {
        self.offset.y = scroll(self.offset.y, area.height, cursor_line);
    }

    /// Shifts the content of the buffer down by the offset: removes the
    /// first `offset.y` lines and joins the remaining ones.
    pub fn shift_contents_down(&self, contents: &str) -> (text: String)
        ensures
            text@ == shifted_down(contents@, self.offset.y as nat),
    {
        let lines = split_lines(contents);
        let mut kept: Vec<String> = Vec::new();
        if self.offset.y > lines.len() {
            return String::new();
        }
        let ghost tail = views(lines@).skip(self.offset.y as int);
        let mut i: usize = self.offset.y;
        while i < lines.len()
            invariant
                self.offset.y <= i <= lines.len(),
                tail == views(lines@).skip(self.offset.y as int),
                views(kept@) == tail.take(i - self.offset.y),
            decreases lines.len() - i,
        {
            let ghost before = views(kept@);
            kept.push(lines[i].clone());
            assert(views(kept@) == before.push(lines[i as int]@));
            i += 1;
        }
        assert(tail.take(lines.len() - self.offset.y) == tail);
        join(&kept)
    }

    /// Shifts the content of the buffer to the right by the offset: takes
    /// the first `offset.x` grapheme clusters off every line.
    pub fn shift_contents_right(&self, contents: &str) -> (text: String)
        ensures
            text@ == shifted_right(contents@, self.offset.x as nat),
    {
        let lines = split_lines(contents);
        let mut kept: Vec<String> = Vec::new();
        let ghost all = lines_of(contents@).map_values(
            |line: Seq<char>| clipped(line, self.offset.x as nat),
        );
        let mut i: usize = 0;
        while i < lines.len()
            invariant
                i <= lines.len(),
                views(lines@) == lines_of(contents@),
                all == lines_of(contents@).map_values(
                    |line: Seq<char>| clipped(line, self.offset.x as nat),
                ),
                views(kept@) == all.take(i as int),
            decreases lines.len() - i,
        {
            let ghost before = views(kept@);
            let clusters = graphemes(lines[i].as_str());
            let line = concat_from(&clusters, self.offset.x);
            assert(line@ == clipped(lines[i as int]@, self.offset.x as nat));
            assert(all[i as int] == clipped(views(lines@)[i as int], self.offset.x as nat));
            kept.push(line);
            assert(views(kept@) == before.push(all[i as int]));
            i += 1;
        }
        assert(all.take(lines.len() as int) == all);
        join(&kept)
    }

    /// The text that is painted: the contents without the lines and columns
    /// that the offsets cut off.
    pub fn shift_contents(&self, contents: &str) -> (text: String)
        ensures
            text@ == shifted(contents@, self.offset),
            self.offset.x == 0 && self.offset.y <= lines_of(contents@).len() ==> text@
                == join_lines(lines_of(contents@).skip(self.offset.y as int)),
    {
        let lines = split_lines(contents);
        if self.offset.y > lines.len() {
            return String::new();
        }
        let ghost all = lines_of(contents@).skip(self.offset.y as int).map_values(
            |line: Seq<char>| clipped(line, self.offset.x as nat),
        );
        let mut kept: Vec<String> = Vec::new();
        let mut i: usize = self.offset.y;
        while i < lines.len()
            invariant
                self.offset.y <= i <= lines.len(),
                views(lines@) == lines_of(contents@),
                all == lines_of(contents@).skip(self.offset.y as int).map_values(
                    |line: Seq<char>| clipped(line, self.offset.x as nat),
                ),
                views(kept@) == all.take(i - self.offset.y),
                self.offset.x == 0 ==> forall|j: int|
                    0 <= j < i - self.offset.y ==> #[trigger] all[j] == lines_of(
                        contents@,
                    )[j + self.offset.y],
            decreases lines.len() - i,
        {
            let ghost before = views(kept@);
            let clusters = graphemes(lines[i].as_str());
            let line = concat_from(&clusters, self.offset.x);
            assert(views(lines@)[i as int] == lines[i as int]@);
            assert(all[i - self.offset.y] == clipped(lines[i as int]@, self.offset.x as nat));
            assert(views(clusters@).skip(0) == views(clusters@));
            kept.push(line);
            assert(views(kept@) == before.push(all[i - self.offset.y]));
            i += 1;
        }
        assert(all.take(lines.len() - self.offset.y) == all);
        assert(self.offset.x == 0 ==> all == lines_of(contents@).skip(self.offset.y as int));
        join(&kept)
    }

    /// The spans of one displayed line.
    fn highlight_line(&self, clusters: &Vec<String>, highlights: &Vec<Highlight>, shown: usize) -> (spans: Vec<Span>)
        ensures
            span_views(spans@) == line_spans(
                views(clusters@),
                highlights@,
                shown + self.offset.y,
                self.offset.x as int,
            ),
    {
        let count = clusters.len();
        let ghost line = shown + self.offset.y;
        let ghost columns = self.offset.x as int;
        let mut spans: Vec<Span> = Vec::new();
        let mut covered: usize = 0;
        let mut i: usize = 0;
        assert(span_views(spans@) == Seq::<SpanView>::empty());
        while i < highlights.len()
            invariant
                i <= highlights.len(),
                count == clusters@.len(),
                line == shown + self.offset.y,
                columns == self.offset.x as int,
                covered <= count,
                painted(views(clusters@), highlights@.take(i as int), line, columns) == (Painted {
                    spans: span_views(spans@),
                    covered: covered as int,
                }),
            decreases highlights.len() - i,
        {
            let highlight = highlights[i];
            proof {
                assert(highlights@.take(i as int + 1).drop_last() == highlights@.take(i as int));
                assert(highlights@.take(i as int + 1).last() == highlight);
            }
            if highlight.start.line >= self.offset.y && highlight.start.line - self.offset.y
                == shown {
                let from: usize = if highlight.start.offset >= self.offset.x {
                    highlight.start.offset - self.offset.x
                } else {
                    0
                };
                let start: usize = if from > count {
                    count
                } else {
                    from
                };
                let end: usize = if highlight.length > count - start {
                    count
                } else {
                    start + highlight.length
                };
                if start > covered {
                    let ghost before = span_views(spans@);
                    let plain = Span {
                        content: concat_range(clusters, covered, start),
                        style: SpanStyle::Plain,
                    };
                    spans.push(plain);
                    assert(span_views(spans@) == before.push(plain@));
                }
                let style = if highlight.is_selected {
                    SpanStyle::HighlightedSelected
                } else {
                    SpanStyle::Highlighted
                };
                let ghost before = span_views(spans@);
                let styled = Span { content: concat_range(clusters, start, end), style };
                spans.push(styled);
                assert(span_views(spans@) == before.push(styled@));
                covered = end;
            }
            i += 1;
        }
        assert(highlights@.take(highlights.len() as int) == highlights@);
        if covered < count {
            let ghost before = span_views(spans@);
            let rest = Span {
                content: concat_range(clusters, covered, count),
                style: SpanStyle::Plain,
            };
            spans.push(rest);
            assert(span_views(spans@) == before.push(rest@));
        }
        spans
    }

    /// Cuts every line of the displayed text into spans, so that the
    /// highlights that fall on the line stand out.
    pub fn add_highlights(&self, contents: &str, highlights: &Vec<Highlight>) -> (lines: Vec<
        Vec<Span>,
    >)
        ensures
            line_views(lines@) == highlighted(contents@, highlights@, self.offset),
            forall|i: int|
                0 <= i < lines_of(contents@).len() && in_order(
                    grapheme_clusters(lines_of(contents@)[i]),
                    highlights@,
                    i + self.offset.y,
                    self.offset.x as int,
                ) ==> text_of_spans(#[trigger] line_views(lines@)[i]) == lines_of(contents@)[i],
    {
        let contents_to_lines = split_lines(contents);
        let mut highlighted_content: Vec<Vec<Span>> = Vec::new();
        let ghost all = highlighted(contents@, highlights@, self.offset);
        let mut line_index: usize = 0;
        while line_index < contents_to_lines.len()
            invariant
                line_index <= contents_to_lines.len(),
                views(contents_to_lines@) == lines_of(contents@),
                all == highlighted(contents@, highlights@, self.offset),
                line_views(highlighted_content@) == all.take(line_index as int),
                forall|j: int|
                    0 <= j < line_index ==> concat(
                        #[trigger] grapheme_clusters(lines_of(contents@)[j]),
                    ) == lines_of(contents@)[j],
            decreases contents_to_lines.len() - line_index,
        {
            let ghost before = line_views(highlighted_content@);
            let clusters = graphemes(contents_to_lines[line_index].as_str());
            let line = self.highlight_line(&clusters, highlights, line_index);
            assert(views(contents_to_lines@)[line_index as int]
                == contents_to_lines[line_index as int]@);
            assert(span_views(line@) == all[line_index as int]);
            highlighted_content.push(line);
            assert(line_views(highlighted_content@) == before.push(all[line_index as int]));
            line_index += 1;
        }
        assert(all.take(contents_to_lines.len() as int) == all);
        proof {
            assert forall|i: int|
                0 <= i < lines_of(contents@).len() && in_order(
                    grapheme_clusters(lines_of(contents@)[i]),
                    highlights@,
                    i + self.offset.y,
                    self.offset.x as int,
                ) implies text_of_spans(#[trigger] line_views(highlighted_content@)[i])
                == lines_of(contents@)[i] by {
                lemma_line_spans_keep_text(
                    grapheme_clusters(lines_of(contents@)[i]),
                    highlights@,
                    i + self.offset.y,
                    self.offset.x as int,
                );
            }
        }
        highlighted_content
    }
}

/// The cell in which the cursor of a text field is drawn, inside the field's
/// border.
pub open spec fn field_cell(area: Rect, cursor: nat) -> TerminalPosition {
    let last = if area.width >= 2 {
        area.width - 2
    } else {
        0
    };
    let x = area.x + 1 + cursor;
    TerminalPosition {
        x: (if x <= last {
            cell(x)
        } else {
            last
        }) as u16,
        y: cell(area.y + 1) as u16,
    }
}

/// The cell in which the cursor of the buffer is drawn.
pub open spec fn buffer_cell(
    area: Rect,
    offset: BufferDisplayOffset,
    cursor: Option<Position>,
) -> TerminalPosition {
    match cursor {
        Some(position) => TerminalPosition {
            x: rendered(
                area.x as int,
                area.width as int,
                position.offset as int,
                offset.x as int,
            ) as u16,
            y: rendered(
                area.y as int,
                area.height as int,
                position.line as int,
                offset.y as int,
            ) as u16,
        },
        None => TerminalPosition { x: 0, y: 0 },
    }
}

impl UIState {
    /// A user interface in normal mode, unscrolled and without highlights.
    pub fn new() -> (state: UIState)
        ensures
            state.mode is Normal,
            state.buffer_state.offset == (BufferDisplayOffset { x: 0, y: 0 }),
            state.buffer_state.highlight_state.highlights@.len() == 0,
            state.wf(),
    {
        UIState {
            buffer_state: BufferDisplayState::new(BufferDisplayOffset::new(0, 0)),
            mode: InputMode::Normal,
        }
    }

    /// The highlights are well-formed.
    pub open spec fn wf(&self) -> bool {
        self.buffer_state.highlight_state.wf()
    }

    /// Whether the highlights are well-formed.
    pub fn is_well_formed(&self) -> (ok: bool)
        ensures
            ok == self.wf(),
    {
        self.buffer_state.highlight_state.is_well_formed()
    }

    /// Calculate the cursor position for a given mode. The first area of
    /// the layout shows the buffer, the second the status bar.
    pub fn calculate_cursor_position(
        &self,
        calc_mode: CursorCalculationMode,
        layout: &Vec<Rect>,
        cursor_pos: Option<Position>,
    ) -> (at: TerminalPosition)
        requires
            layout@.len() >= 1,
            calc_mode is FileInput ==> layout@.len() >= 2,
        ensures
            at == match calc_mode {
                CursorCalculationMode::FileInput(input) => field_cell(
                    layout@[1],
                    field_cursor(*input),
                ),
                CursorCalculationMode::Buffer => buffer_cell(
                    layout@[0],
                    self.buffer_state.offset,
                    cursor_pos,
                ),
            },
    {
        match calc_mode {
            CursorCalculationMode::FileInput(input) => self.calculate_cursor_for_file_input(
                input,
                layout[1],
            ),
            CursorCalculationMode::Buffer => self.calculate_cursor_for_buffer(
                layout[0],
                cursor_pos,
            ),
        }
    }

    /// Calculate position for file input.
    pub fn calculate_cursor_for_file_input(&self, input: &Input, area: Rect) -> (at:
        TerminalPosition)
        ensures
            at == field_cell(area, field_cursor(*input)),
    {
        let last: u16 = if area.width >= 2 {
            area.width - 2
        } else {
            0
        };
        let cursor = field_cursor_at(input);
        let x: u16 = if cursor >= last as usize {
            last
        } else {
            let sum: u32 = area.x as u32 + 1 + cursor as u32;
            if sum <= last as u32 {
                sum as u16
            } else {
                last
            }
        };
        let y: u16 = if area.y == u16::MAX {
            u16::MAX
        } else {
            area.y + 1
        };
        TerminalPosition { x, y }
    }

    /// Calculate position for buffer.
    pub fn calculate_cursor_for_buffer(&self, area: Rect, cursor_pos: Option<Position>) -> (at:
        TerminalPosition)
        ensures
            at == buffer_cell(area, self.buffer_state.offset, cursor_pos),
    {
        match cursor_pos {
            Some(cursor_pos) => TerminalPosition {
                x: render(area.x, area.width, cursor_pos.offset, self.buffer_state.offset.x),
                y: render(area.y, area.height, cursor_pos.line, self.buffer_state.offset.y),
            },
            None => TerminalPosition { x: 0, y: 0 },
        }
    }

    /// Takes over the matches of a search and puts the first of them in
    /// focus.
    pub fn update_highlights(&mut self, highlights: Vec<Highlight>)
        ensures
            final(self).buffer_state.highlight_state.highlights@ == marked(highlights@, 0),
            final(self).buffer_state.highlight_state.focused == 0,
            final(self).buffer_state.offset == old(self).buffer_state.offset,
            final(self).mode == old(self).mode,
            final(self).wf(),
    {
        self.buffer_state.highlight_state.update(highlights);
    }

    /// Where the focused highlight starts, if there is a highlight.
    pub fn focused_highlight_position(&self) -> (start: Option<Position>)
        ensures
            start == if self.buffer_state.highlight_state.focused
                < self.buffer_state.highlight_state.highlights@.len() {
                Some(
                    self.buffer_state.highlight_state.highlights@[self.buffer_state.highlight_state.focused as int].start,
                )
            } else {
                None
            },
    {
        self.buffer_state.highlight_state.focused_position()
    }

    /// Moves the focus one highlight on, from the last to the first.
    pub fn focus_next_highlight(&mut self)
        requires
            old(self).wf(),
        ensures
            final(self).wf(),
            final(self).buffer_state.offset == old(self).buffer_state.offset,
            final(self).mode == old(self).mode,
            old(self).buffer_state.highlight_state.highlights@.len() == 0 ==> *final(self) == *old(self),
            old(self).buffer_state.highlight_state.highlights@.len() > 0 ==> final(self).buffer_state.highlight_state.focused == next_focus(
                old(self).buffer_state.highlight_state.focused as int,
                old(self).buffer_state.highlight_state.highlights@.len() as int,
            ) && final(self).buffer_state.highlight_state.highlights@ == marked(
                old(self).buffer_state.highlight_state.highlights@,
                final(self).buffer_state.highlight_state.focused as int,
            ),
    {
        self.buffer_state.highlight_state.focus_next();
    }

    /// Moves the focus one highlight back, from the first to the last.
    pub fn focus_prev_highlight(&mut self)
        requires
            old(self).wf(),
        ensures
            final(self).wf(),
            final(self).buffer_state.offset == old(self).buffer_state.offset,
            final(self).mode == old(self).mode,
            old(self).buffer_state.highlight_state.highlights@.len() == 0 ==> *final(self) == *old(self),
            old(self).buffer_state.highlight_state.highlights@.len() > 0 ==> final(self).buffer_state.highlight_state.focused == prev_focus(
                old(self).buffer_state.highlight_state.focused as int,
                old(self).buffer_state.highlight_state.highlights@.len() as int,
            ) && final(self).buffer_state.highlight_state.highlights@ == marked(
                old(self).buffer_state.highlight_state.highlights@,
                final(self).buffer_state.highlight_state.focused as int,
            ),
    {
        self.buffer_state.highlight_state.focus_prev();
    }

    /// Forgets every highlight.
    pub fn clear_highlights(&mut self)
        ensures
            final(self).buffer_state.highlight_state.highlights@.len() == 0,
            final(self).buffer_state.highlight_state.focused == 0,
            final(self).buffer_state.offset == old(self).buffer_state.offset,
            final(self).mode == old(self).mode,
            final(self).wf(),
    {
        self.buffer_state.highlight_state.clear();
    }
}

} // verus!
