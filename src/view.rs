//! A viewport over one buffer, with the cursor that moves in it.
use crate::buffer::{char_removed, inserted, newline_inserted, removable, rendered_rows, row_accepted, row_refused, Buffer};
use crate::cursor::{
    first_non_blank_motion, last_line, next_grapheme, next_grapheme_nowrap, next_line, prev_grapheme, prev_grapheme_nowrap,
    prev_line, snap, width_at, Cursor, CursorView,
};
use crate::line::{cluster_at_col, col_of, fits_columns, Line};
use crate::position::{sat_add, sat_sub, Position};
use crate::size::Size;
use crate::text_fragment::{fragment_of, TextFragment};
use crate::unicode::{char_to_string, graphemes_of};
use vstd::prelude::*;
use vstd::view::View as _;

verus! {

/// A cursor motion.
#[derive(Copy, Clone, PartialEq, Eq, Structural, Debug)]
pub enum MoveCode {
    Left,
    Right,
    Up,
    Down,
    FirstLine,
    LastLine,
    FirstChar,
    LastChar,
    FirstNonBlank,
}

/// A scroll of the viewport, with its step.
#[derive(Copy, Clone, PartialEq, Eq, Structural, Debug)]
pub enum ScrollCode {
    Left(usize),
    Right(usize),
    Up(usize),
    Down(usize),
}

/// Where motion `code` takes a cursor.
pub open spec fn moved(code: MoveCode, c: CursorView, lines: Seq<Seq<char>>) -> CursorView {
    match code {
        MoveCode::Left => prev_grapheme(c, lines),
        MoveCode::Right => next_grapheme(c, lines),
        MoveCode::Up => prev_line(c, 1, lines),
        MoveCode::Down => next_line(c, 1, lines),
        MoveCode::FirstLine => snap(CursorView { line_idx: 0, ..c }, lines),
        MoveCode::LastLine => last_line(c, lines),
        MoveCode::FirstChar => snap(CursorView { col_want: 0, ..c }, lines),
        MoveCode::LastChar => snap(CursorView { col_want: usize::MAX, ..c }, lines),
        MoveCode::FirstNonBlank => first_non_blank_motion(c, lines),
    }
}

pub open spec fn position_of(c: CursorView) -> Position {
    Position { line_idx: c.line_idx, col_idx: c.col_idx }
}

/// One coordinate of the offset after scrolling `pos` into a span of `len`
/// that starts at `off`.
pub open spec fn scrolled_coord(off: usize, pos: usize, len: usize) -> usize {
    if pos < off {
        pos
    } else if pos >= sat_add(off, len) {
        sat_sub(sat_add(pos, 1), len)
    } else {
        off
    }
}

/// The offset after scrolling the viewport just far enough to show `pos`.
pub open spec fn scrolled_offset(offset: Position, pos: Position, size: Size) -> Position {
    Position {
        line_idx: scrolled_coord(offset.line_idx, pos.line_idx, size.height),
        col_idx: scrolled_coord(offset.col_idx, pos.col_idx, size.width),
    }
}

/// Whether scrolling `pos` into view moves the viewport.
pub open spec fn scroll_moves(offset: Position, pos: Position, size: Size) -> bool {
    pos.col_idx < offset.col_idx || pos.col_idx >= sat_add(offset.col_idx, size.width) || pos.line_idx
        < offset.line_idx || pos.line_idx >= sat_add(offset.line_idx, size.height)
}

pub open spec fn min_usize(a: usize, b: usize) -> usize {
    if a < b {
        a
    } else {
        b
    }
}

/// The cursor and the offset after the viewport scroll `code`.
pub open spec fn screen_scrolled(
    code: ScrollCode,
    c: CursorView,
    offset: Position,
    lines: Seq<Seq<char>>,
    size: Size,
) -> (CursorView, Position) {
    match code {
        ScrollCode::Left(_) => (
            prev_grapheme_nowrap(c, lines),
            Position { col_idx: sat_sub(offset.col_idx, 1), ..offset },
        ),
        ScrollCode::Right(_) => (
            next_grapheme_nowrap(c, lines),
            Position {
                col_idx: min_usize(
                    sat_add(offset.col_idx, 1),
                    sat_sub(sat_add(width_at(lines, c.line_idx as int) as usize, 1), size.width),
                ),
                ..offset
            },
        ),
        ScrollCode::Up(step) => (
            prev_line(c, step, lines),
            Position { line_idx: sat_sub(offset.line_idx, step), ..offset },
        ),
        ScrollCode::Down(step) => (
            next_line(c, step, lines),
            Position {
                line_idx: min_usize(
                    sat_add(offset.line_idx, step),
                    sat_sub(sat_add(lines.len() as usize, 1), size.height),
                ),
                ..offset
            },
        ),
    }
}

/// The lines after typing `c` at `at`: a line break for `\n`, else the
/// character itself.
pub open spec fn typed(lines: Seq<Seq<char>>, at: Position, c: char) -> Seq<Seq<char>> {
    if c == '\n' {
        newline_inserted(lines, at)
    } else {
        inserted(lines, at, seq![c])
    }
}

/// Whether typing `c` at `at` changes the buffer.
pub open spec fn typing_applies(lines: Seq<Seq<char>>, at: Position, c: char) -> bool {
    c == '\n' || at.line_idx <= lines.len()
}

/// Whether typing at `at` keeps the line there within its column limit.
pub open spec fn typing_fits(lines: Seq<Seq<char>>, at: Position) -> bool {
    at.line_idx < lines.len() ==> fits_columns(lines[at.line_idx as int].len() + 1)
}

/// Whether a forward delete at `at` keeps the joined line within its
/// column limit.
pub open spec fn delete_fits(lines: Seq<Seq<char>>, at: Position) -> bool {
    at.line_idx + 1 < lines.len() ==> fits_columns(
        lines[at.line_idx as int].len() + lines[at.line_idx + 1].len(),
    )
}

pub struct View {
    pub cursor: Cursor,
    /// The document position of the viewport's top-left cell.
    pub offset: Position,
    pub size: Size,
    pub buffer: Buffer,
}

impl View {
    pub open spec fn wf(&self) -> bool {
        self.buffer.wf()
    }

    pub fn new(buffer: Buffer, size: Size) -> (r: Self)
        ensures
            r.buffer == buffer,
            r.cursor@ == (CursorView { line_idx: 0, col_idx: 0, col_want: 0 }),
            r.offset == (Position { line_idx: 0, col_idx: 0 }),
            r.size == size,
    {
        View { cursor: Cursor::default(), offset: Position { line_idx: 0, col_idx: 0 }, size, buffer }
    }

    pub fn has_path(&self) -> (r: bool)
        ensures
            r == self.buffer.file_info.path_view() is Some,
    {
        self.buffer.has_path()
    }

    /// Binds the buffer to `filename`; the caller then writes the buffer's
    /// text there.
    pub fn save_as(&mut self, filename: &str)
        ensures
            final(self).buffer.file_info.path_view() == Some(filename@),
            final(self).buffer.lines@ == old(self).buffer.lines@,
            final(self).buffer.needs_redraw == old(self).buffer.needs_redraw,
            final(self).buffer.modified_count == old(self).buffer.modified_count,
            final(self).cursor == old(self).cursor,
            final(self).offset == old(self).offset,
            final(self).size == old(self).size,
    {
        self.buffer.save_as(filename);
    }

    pub fn set_size(&mut self, size: Size)
        ensures
            final(self).size == size,
            final(self).buffer.needs_redraw,
            final(self).buffer.lines@ == old(self).buffer.lines@,
            final(self).buffer.modified_count == old(self).buffer.modified_count,
            final(self).buffer.file_info == old(self).buffer.file_info,
            final(self).cursor == old(self).cursor,
            final(self).offset == old(self).offset,
    {
        self.size = size;
        self.ensure_redraw();
    }

    /// Where the caret is on the screen: its document position less the
    /// viewport offset.
    pub fn caret_screen_position(&self) -> (r: Position)
        ensures
            r.line_idx == sat_sub(self.cursor@.line_idx, self.offset.line_idx),
            r.col_idx == sat_sub(self.cursor@.col_idx, self.offset.col_idx),
    {
        self.cursor.get_screen_position(&self.offset)
    }

    pub fn get_line(&self, line_idx: usize) -> (r: Option<&Line>)
        ensures
            line_idx < self.buffer.lines@.len() ==> r == Some(&self.buffer.lines@[line_idx as int]),
            line_idx >= self.buffer.lines@.len() ==> r is None,
    {
        if line_idx < self.buffer.lines.len() {
            Some(&self.buffer.lines[line_idx])
        } else {
            None
        }
    }

    /// The fragment at a document position, if the position lies inside a
    /// line.
    pub fn get_fragment_by_position(&self, pos: Position) -> (r: Option<&TextFragment>)
        requires
            self.wf(),
        ensures
            pos.line_idx >= self.buffer.lines@.len() ==> r is None,
            pos.line_idx < self.buffer.lines@.len() ==> {
                let gs = graphemes_of(self.buffer.contents()[pos.line_idx as int]);
                let k = cluster_at_col(gs, pos.col_idx as int);
                &&& k == gs.len() ==> r is None
                &&& k < gs.len() ==> (r matches Some(f) && f@ == fragment_of(gs[k], col_of(gs, k)))
            },
    {
        match self.get_line(pos.line_idx) {
            Some(line) => {
                assert(self.buffer.contents()[pos.line_idx as int] == line@);
                line.get_fragment_by_col_idx(pos.col_idx)
            },
            None => None,
        }
    }

    pub fn height(&self) -> (r: usize)
        ensures
            r == self.size.height,
    {
        self.size.height
    }

    pub fn ensure_redraw(&mut self)
        ensures
            final(self).buffer.needs_redraw,
            final(self).buffer.lines@ == old(self).buffer.lines@,
            final(self).buffer.modified_count == old(self).buffer.modified_count,
            final(self).buffer.file_info == old(self).buffer.file_info,
            final(self).cursor == old(self).cursor,
            final(self).offset == old(self).offset,
            final(self).size == old(self).size,
    {
        self.buffer.needs_redraw = true;
    }

    /// Moves the offset just far enough that the cursor is in the viewport.
    fn scroll_into_view(&mut self)
        ensures
            final(self).offset == scrolled_offset(old(self).offset, position_of(old(self).cursor@), old(self).size),
            final(self).buffer.needs_redraw == (old(self).buffer.needs_redraw || scroll_moves(
                old(self).offset,
                position_of(old(self).cursor@),
                old(self).size,
            )),
            final(self).buffer.lines@ == old(self).buffer.lines@,
            final(self).buffer.modified_count == old(self).buffer.modified_count,
            final(self).buffer.file_info == old(self).buffer.file_info,
            final(self).cursor == old(self).cursor,
            final(self).size == old(self).size,
    {
        let Position { line_idx, col_idx } = self.cursor.position();
        let Size { width, height } = self.size;
        if col_idx < self.offset.col_idx {
            self.offset.col_idx = col_idx;
            self.buffer.ensure_redraw();
        } else if col_idx >= self.offset.col_idx.saturating_add(width) {
            self.offset.col_idx = col_idx.saturating_add(1).saturating_sub(width);
            self.buffer.ensure_redraw();
        }
        if line_idx < self.offset.line_idx {
            self.offset.line_idx = line_idx;
            self.buffer.ensure_redraw();
        } else if line_idx >= self.offset.line_idx.saturating_add(height) {
            self.offset.line_idx = line_idx.saturating_add(1).saturating_sub(height);
            self.buffer.ensure_redraw();
        }
    }

    /// Moves the cursor by `code`, then scrolls it into view.
    pub fn move_position(&mut self, code: MoveCode)
        requires
            old(self).wf(),
        ensures
            final(self).wf(),
            final(self).cursor@ == moved(code, old(self).cursor@, old(self).buffer.contents()),
            final(self).offset == scrolled_offset(
                old(self).offset,
                position_of(final(self).cursor@),
                old(self).size,
            ),
            final(self).buffer.needs_redraw == (old(self).buffer.needs_redraw || scroll_moves(
                old(self).offset,
                position_of(final(self).cursor@),
                old(self).size,
            )),
            final(self).buffer.lines@ == old(self).buffer.lines@,
            final(self).buffer.modified_count == old(self).buffer.modified_count,
            final(self).buffer.file_info == old(self).buffer.file_info,
            final(self).size == old(self).size,
    {
        match code {
            MoveCode::Left => self.cursor.move_prev_grapheme(&self.buffer),
            MoveCode::Right => self.cursor.move_next_grapheme(&self.buffer),
            MoveCode::Up => self.cursor.move_prev_line(1, &self.buffer),
            MoveCode::Down => self.cursor.move_next_line(1, &self.buffer),
            MoveCode::FirstChar => self.cursor.move_first_char(&self.buffer),
            MoveCode::LastChar => self.cursor.move_last_char(&self.buffer),
            MoveCode::FirstLine => self.cursor.move_first_line(&self.buffer),
            MoveCode::LastLine => self.cursor.move_last_line(&self.buffer),
            MoveCode::FirstNonBlank => self.cursor.move_first_non_blank(&self.buffer),
        }
        self.scroll_into_view();
    }

    /// Scrolls the viewport: sideways by one column with the cursor kept on
    /// its line, or up and down by `step` lines with the cursor moving along.
    /// A redraw becomes due when the offset changed.
    pub fn scroll_screen(&mut self, code: ScrollCode)
        requires
            old(self).wf(),
        ensures
            final(self).wf(),
            ({
                let (c, o) = screen_scrolled(
                    code,
                    old(self).cursor@,
                    old(self).offset,
                    old(self).buffer.contents(),
                    old(self).size,
                );
                &&& final(self).cursor@ == c
                &&& final(self).offset == o
                &&& final(self).buffer.needs_redraw == (old(self).buffer.needs_redraw || o != old(self).offset)
            }),
            final(self).buffer.lines@ == old(self).buffer.lines@,
            final(self).buffer.modified_count == old(self).buffer.modified_count,
            final(self).buffer.file_info == old(self).buffer.file_info,
            final(self).size == old(self).size,
    {
        let saved_offset = self.offset;
        match code {
            ScrollCode::Left(_step) => self.scroll_left(),
            ScrollCode::Right(_step) => self.scroll_right(),
            ScrollCode::Up(step) => self.scroll_up(step),
            ScrollCode::Down(step) => self.scroll_down(step),
        }
        if self.offset != saved_offset {
            self.buffer.needs_redraw = true;
        }
    }

    fn scroll_left(&mut self)
        requires
            old(self).wf(),
        ensures
            final(self).cursor@ == prev_grapheme_nowrap(old(self).cursor@, old(self).buffer.contents()),
            final(self).offset == (Position { col_idx: sat_sub(old(self).offset.col_idx, 1), ..old(self).offset }),
            final(self).buffer == old(self).buffer,
            final(self).size == old(self).size,
    {
        self.cursor.move_prev_grapheme_nowrap(&self.buffer);
        self.offset.col_idx = self.offset.col_idx.saturating_sub(1);
    }

    fn scroll_right(&mut self)
        requires
            old(self).wf(),
        ensures
            ({
                let (c, o) = screen_scrolled(
                    ScrollCode::Right(1),
                    old(self).cursor@,
                    old(self).offset,
                    old(self).buffer.contents(),
                    old(self).size,
                );
                final(self).cursor@ == c && final(self).offset == o
            }),
            final(self).buffer == old(self).buffer,
            final(self).size == old(self).size,
    {
        self.cursor.move_next_grapheme_nowrap(&self.buffer);
        let w = self.buffer.get_line_col_width(self.cursor.line_idx());
        let next = self.offset.col_idx.saturating_add(1);
        let limit = w.saturating_add(1).saturating_sub(self.size.width);
        self.offset.col_idx = if next < limit {
            next
        } else {
            limit
        };
    }

    fn scroll_up(&mut self, step: usize)
        requires
            old(self).wf(),
        ensures
            final(self).cursor@ == prev_line(old(self).cursor@, step, old(self).buffer.contents()),
            final(self).offset == (Position {
                line_idx: sat_sub(old(self).offset.line_idx, step),
                ..old(self).offset
            }),
            final(self).buffer == old(self).buffer,
            final(self).size == old(self).size,
    {
        let off_l = self.offset.line_idx;
        self.cursor.move_prev_line(step, &self.buffer);
        self.offset.line_idx = off_l.saturating_sub(step);
    }

    fn scroll_down(&mut self, step: usize)
        requires
            old(self).wf(),
        ensures
            final(self).cursor@ == next_line(old(self).cursor@, step, old(self).buffer.contents()),
            final(self).offset == (Position {
                line_idx: min_usize(
                    sat_add(old(self).offset.line_idx, step),
                    sat_sub(sat_add(old(self).buffer.lines@.len() as usize, 1), old(self).size.height),
                ),
                ..old(self).offset
            }),
            final(self).buffer == old(self).buffer,
            final(self).size == old(self).size,
    {
        let off_l = self.offset.line_idx;
        self.cursor.move_next_line(step, &self.buffer);
        let next = off_l.saturating_add(step);
        let limit = self.buffer.get_lines_count().saturating_add(1).saturating_sub(self.size.height);
        self.offset.line_idx = if next < limit {
            next
        } else {
            limit
        };
    }

    /// Types `c` at the cursor (`\n` breaks the line), then moves the cursor
    /// one cluster right.
    pub fn insert_char(&mut self, c: char)
        requires
            old(self).wf(),
            typing_fits(old(self).buffer.contents(), position_of(old(self).cursor@)),
        ensures
            final(self).wf(),
            ({
                let at = position_of(old(self).cursor@);
                let lines = old(self).buffer.contents();
                if typing_applies(lines, at, c) {
                    let c2 = next_grapheme(old(self).cursor@, typed(lines, at, c));
                    &&& final(self).buffer.contents() == typed(lines, at, c)
                    &&& final(self).buffer.modified_count == sat_add(old(self).buffer.modified_count, 1)
                    &&& final(self).buffer.needs_redraw
                    &&& final(self).cursor@ == c2
                    &&& final(self).offset == scrolled_offset(old(self).offset, position_of(c2), old(self).size)
                } else {
                    &&& final(self).buffer.lines@ == old(self).buffer.lines@
                    &&& final(self).buffer.modified_count == old(self).buffer.modified_count
                    &&& final(self).buffer.needs_redraw == old(self).buffer.needs_redraw
                    &&& final(self).cursor == old(self).cursor
                    &&& final(self).offset == old(self).offset
                }
            }),
            final(self).buffer.file_info == old(self).buffer.file_info,
            final(self).size == old(self).size,
    {
        if self.insert_char_without_move(c) {
            self.move_position(MoveCode::Right);
        }
    }

    /// Types `c` at the cursor (`\n` breaks the line) and leaves the cursor
    /// where it is. Tells whether the buffer changed.
    pub fn insert_char_without_move(&mut self, c: char) -> (r: bool)
        requires
            old(self).wf(),
            typing_fits(old(self).buffer.contents(), position_of(old(self).cursor@)),
        ensures
            final(self).wf(),
            ({
                let at = position_of(old(self).cursor@);
                let lines = old(self).buffer.contents();
                &&& r == typing_applies(lines, at, c)
                &&& r ==> final(self).buffer.contents() == typed(lines, at, c)
                &&& r ==> final(self).buffer.modified_count == sat_add(old(self).buffer.modified_count, 1)
                &&& r ==> final(self).buffer.needs_redraw
                &&& !r ==> final(self).buffer.lines@ == old(self).buffer.lines@
                &&& !r ==> final(self).buffer.modified_count == old(self).buffer.modified_count
                &&& !r ==> final(self).buffer.needs_redraw == old(self).buffer.needs_redraw
            }),
            final(self).buffer.file_info == old(self).buffer.file_info,
            final(self).cursor == old(self).cursor,
            final(self).offset == old(self).offset,
            final(self).size == old(self).size,
    {
        let at = self.cursor.position();
        let done = if c == '\n' {
            self.buffer.insert_newline(at)
        } else {
            let text = char_to_string(c);
            self.buffer.insert(text.as_str(), at)
        };
        if done {
            self.ensure_redraw();
        }
        done
    }

    /// Deletes forward at the cursor; the cursor stays.
    pub fn remove_char(&mut self)
        requires
            old(self).wf(),
            delete_fits(old(self).buffer.contents(), position_of(old(self).cursor@)),
        ensures
            final(self).wf(),
            ({
                let at = position_of(old(self).cursor@);
                let lines = old(self).buffer.contents();
                &&& final(self).buffer.contents() == char_removed(lines, at)
                &&& removable(lines, at) ==> final(self).buffer.modified_count == sat_add(
                    old(self).buffer.modified_count,
                    1,
                )
                &&& removable(lines, at) ==> final(self).buffer.needs_redraw
                &&& !removable(lines, at) ==> final(self).buffer.modified_count
                    == old(self).buffer.modified_count
                &&& !removable(lines, at) ==> final(self).buffer.needs_redraw == old(self).buffer.needs_redraw
            }),
            final(self).buffer.file_info == old(self).buffer.file_info,
            final(self).cursor == old(self).cursor,
            final(self).offset == old(self).offset,
            final(self).size == old(self).size,
    {
        if self.buffer.remove_char(self.cursor.position()) {
            self.ensure_redraw();
        }
    }

    /// Hands each row of the viewport to `renderer` when a redraw is due;
    /// see `Buffer::render`.
    pub fn render<E, F: Fn(usize, &str) -> Result<(), E>>(&mut self, renderer: F) -> (r: Result<(), E>)
        requires
            old(self).wf(),
            forall|row: usize, text: &str| renderer.requires((row, text)),
        ensures
            final(self).wf(),
            final(self).buffer.lines@ == old(self).buffer.lines@,
            final(self).buffer.modified_count == old(self).buffer.modified_count,
            r is Ok ==> final(self).buffer.needs_redraw == (old(self).buffer.needs_redraw && (
            old(self).size.width == 0 || old(self).size.height == 0)),
            r is Err ==> final(self).buffer.needs_redraw == old(self).buffer.needs_redraw,
            !old(self).buffer.needs_redraw || old(self).size.width == 0 || old(self).size.height == 0
                ==> r is Ok,
            ({
                let rows = rendered_rows(
                    old(self).buffer.contents(),
                    old(self).buffer.needs_redraw,
                    old(self).size,
                    old(self).offset,
                );
                &&& r is Ok ==> forall|i: int|
                    0 <= i < rows.len() ==> #[trigger] row_accepted(renderer, i, rows[i])
                &&& r matches Err(e) ==> exists|k: int|
                    0 <= k < rows.len() && #[trigger] row_refused(renderer, k, rows[k], e) && forall|i: int|
                        0 <= i < k ==> #[trigger] row_accepted(renderer, i, rows[i])
            }),
            final(self).cursor == old(self).cursor,
            final(self).offset == old(self).offset,
            final(self).size == old(self).size,
    {
        self.buffer.render(self.size, self.offset, renderer)
    }

    /// Searching is not offered yet: the view stays as it is.
    pub fn search(&self, _query: &str) {
    }
}

/// After a scroll into view the cursor lies inside the viewport, so its
/// screen position is within the viewport's columns and rows.
pub proof fn lemma_caret_in_viewport(offset: Position, pos: Position, size: Size)
    requires
        size.width > 0,
        size.height > 0,
        pos.col_idx < usize::MAX,
        pos.line_idx < usize::MAX,
    ensures
        ({
            let o = scrolled_offset(offset, pos, size);
            &&& o.col_idx <= pos.col_idx < o.col_idx + size.width
            &&& o.line_idx <= pos.line_idx < o.line_idx + size.height
            &&& sat_sub(pos.col_idx, o.col_idx) < size.width
            &&& sat_sub(pos.line_idx, o.line_idx) < size.height
        }),
{
}

} // verus!
