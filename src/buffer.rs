//! The lines of a document, with its redraw flag and its edit count.
use crate::file_info::FileInfo;
use crate::line::{cluster_at_col, col_to_grapheme, fits_columns, insert_at, line_width, remove_clusters, str_by_col_range, Line};
use crate::position::{sat_add, Position};
use crate::size::Size;
use crate::unicode::{concat, graphemes_of, lemma_concat_push, string_views};
use vstd::prelude::*;
use vstd::string::*;

verus! {

/// The index of the first `\n` at or after `i`; `s.len()` if there is none.
pub open spec fn newline_index(s: Seq<char>, i: int) -> int
    decreases s.len() - i,
{
    if i >= s.len() {
        s.len() as int
    } else if s[i] == '\n' {
        i
    } else {
        newline_index(s, i + 1)
    }
}

/// A line without the `\r` that ends it, if one does.
pub open spec fn strip_cr(l: Seq<char>) -> Seq<char> {
    if l.len() > 0 && l.last() == '\r' {
        l.drop_last()
    } else {
        l
    }
}

/// The lines of a text: split at each `\n`, a `\r` right before a `\n`
/// dropped, and no empty line after a final `\n`.
pub open spec fn lines_of(s: Seq<char>) -> Seq<Seq<char>>
    decreases s.len(),
{
    if s.len() == 0 {
        Seq::empty()
    } else {
        let i = newline_index(s, 0);
        if 0 <= i < s.len() {
            seq![strip_cr(s.take(i))] + lines_of(s.skip(i + 1))
        } else {
            seq![s]
        }
    }
}

/// A file's text for these lines: each line followed by `\n`.
pub open spec fn saved_text(ls: Seq<Seq<char>>) -> Seq<char> {
    concat(ls.map_values(|l: Seq<char>| l.push('\n')))
}

/// What row `row` of a viewport of `size` at `offset` shows: the part of the
/// document line there that the viewport's columns hold, or `~` past the end.
pub open spec fn row_text(lines: Seq<Seq<char>>, size: Size, offset: Position, row: int) -> Seq<char> {
    let idx = sat_add(offset.line_idx, row as usize);
    if idx < lines.len() {
        let l = lines[idx as int];
        let right = sat_add(offset.col_idx, size.width);
        let end = if right < line_width(l) {
            right as int
        } else {
            line_width(l) as int
        };
        str_by_col_range(l, offset.col_idx as int, end)
    } else {
        seq!['~']
    }
}

/// The rows a render emits: none unless a redraw is due and the viewport has
/// room, else one per viewport row.
pub open spec fn rendered_rows(lines: Seq<Seq<char>>, needs_redraw: bool, size: Size, offset: Position) -> Seq<Seq<char>> {
    if !needs_redraw || size.width == 0 || size.height == 0 {
        Seq::empty()
    } else {
        Seq::new(size.height as nat, |r: int| row_text(lines, size, offset, r))
    }
}

/// The lines after `s` is put in at `at`: into the line there, or as a new
/// last line right past the end; further out nothing changes.
pub open spec fn inserted(lines: Seq<Seq<char>>, at: Position, s: Seq<char>) -> Seq<Seq<char>> {
    if at.line_idx == lines.len() {
        lines.push(s)
    } else if at.line_idx < lines.len() {
        let l = lines[at.line_idx as int];
        lines.update(at.line_idx as int, insert_at(l, col_to_grapheme(l, at.col_idx as int), s))
    } else {
        lines
    }
}

/// The lines after a line break is put in at `at`; past the end, an empty
/// line is added.
pub open spec fn newline_inserted(lines: Seq<Seq<char>>, at: Position) -> Seq<Seq<char>> {
    if at.line_idx >= lines.len() {
        lines.push(Seq::empty())
    } else {
        let l = lines[at.line_idx as int];
        let gs = graphemes_of(l);
        let k = col_to_grapheme(l, at.col_idx as int);
        lines.update(at.line_idx as int, concat(gs.take(k))).insert(at.line_idx + 1, concat(gs.skip(k)))
    }
}

/// Whether there is something to delete at `at`: a cluster, or a line break
/// before a next line.
pub open spec fn removable(lines: Seq<Seq<char>>, at: Position) -> bool {
    at.line_idx < lines.len() && (at.col_idx < line_width(lines[at.line_idx as int]) || at.line_idx + 1
        < lines.len())
}

/// The lines after a forward delete at `at`.
pub open spec fn char_removed(lines: Seq<Seq<char>>, at: Position) -> Seq<Seq<char>> {
    if !removable(lines, at) {
        lines
    } else {
        let l = lines[at.line_idx as int];
        if at.col_idx < line_width(l) {
            lines.update(
                at.line_idx as int,
                remove_clusters(l, cluster_at_col(graphemes_of(l), at.col_idx as int), 1),
            )
        } else {
            lines.update(at.line_idx as int, l + lines[at.line_idx + 1]).remove(at.line_idx + 1)
        }
    }
}

/// Whether `renderer` was handed row `row` with a text that reads `text`,
/// and accepted it.
pub open spec fn row_accepted<E, F: Fn(usize, &str) -> Result<(), E>>(renderer: F, row: int, text: Seq<char>) -> bool {
    exists|t: &str, res: Result<(), E>|
        t@ == text && res is Ok && #[trigger] renderer.ensures((row as usize, t), res)
}

/// Whether `renderer` was handed row `row` with a text that reads `text`,
/// and refused it with `e`.
pub open spec fn row_refused<E, F: Fn(usize, &str) -> Result<(), E>>(
    renderer: F,
    row: int,
    text: Seq<char>,
    e: E,
) -> bool {
    exists|t: &str| t@ == text && #[trigger] renderer.ensures((row as usize, t), Err(e))
}

/// Relies on `str::lines`: the text split at each `\n`, with a `\r` right
/// before a `\n` dropped and no empty line after a final `\n`.
#[verifier::external_body]
fn split_lines(s: &str) -> (r: Vec<String>)
    ensures
        string_views(r@) == lines_of(s@),
{
    s.lines().map(String::from).collect()
}

pub proof fn lemma_lines_short(s: Seq<char>)
    ensures
        forall|i: int| 0 <= i < lines_of(s).len() ==> #[trigger] lines_of(s)[i].len() <= s.len(),
    decreases s.len(),
{
    if s.len() > 0 {
        let i = newline_index(s, 0);
        if 0 <= i < s.len() {
            lemma_lines_short(s.skip(i + 1));
            let ls = lines_of(s);
            assert forall|j: int| 0 <= j < ls.len() implies #[trigger] ls[j].len() <= s.len() by {
                if j > 0 {
                    assert(ls[j] == lines_of(s.skip(i + 1))[j - 1]);
                }
            }
        }
    }
}

pub struct Buffer {
    pub lines: Vec<Line>,
    pub needs_redraw: bool,
    pub file_info: FileInfo,
    pub modified_count: usize,
}

impl Default for Buffer {
    fn default() -> (r: Self)
        ensures
            r.wf(),
            r.lines@.len() == 0,
            r.needs_redraw,
            r.modified_count == 0,
            r.file_info.path_view() is None,
    {
        Buffer { lines: Vec::new(), needs_redraw: true, file_info: FileInfo::default(), modified_count: 0 }
    }
}

pub open spec fn lines_wf(lines: Seq<Line>) -> bool {
    forall|i: int| 0 <= i < lines.len() ==> #[trigger] lines[i].wf()
}

pub open spec fn line_views(lines: Seq<Line>) -> Seq<Seq<char>> {
    lines.map_values(|l: Line| l@)
}

impl Buffer {
    pub open spec fn wf(&self) -> bool {
        lines_wf(self.lines@)
    }

    /// The contents of the lines, in order.
    pub open spec fn contents(&self) -> Seq<Seq<char>> {
        line_views(self.lines@)
    }

    /// A buffer bound to `path`, holding the lines of `text` (what was read
    /// from the file), or none if the file could not be read.
    pub fn from_file(path: &str, text: Option<&str>) -> (r: Self)
        requires
            text matches Some(t) ==> fits_columns(t@.len()),
        ensures
            r.wf(),
            r.contents() == match text {
                Some(t) => lines_of(t@),
                None => Seq::empty(),
            },
            r.needs_redraw,
            r.modified_count == 0,
            r.file_info.path_view() == Some(path@),
    {
        let lines = match text {
            Some(t) => Self::gen_lines(t),
            None => Vec::new(),
        };
        proof {
            assert(line_views(lines@) =~= match text {
                Some(t) => lines_of(t@),
                None => Seq::empty(),
            });
        }
        Buffer { lines, needs_redraw: true, file_info: FileInfo::from(path), modified_count: 0 }
    }

    pub fn from_string(text: &str) -> (r: Self)
        requires
            fits_columns(text@.len()),
        ensures
            r.wf(),
            r.contents() == lines_of(text@),
            r.needs_redraw,
            r.modified_count == 0,
            r.file_info.path_view() is None,
    {
        Buffer { lines: Self::gen_lines(text), needs_redraw: true, file_info: FileInfo::default(), modified_count: 0 }
    }

    pub fn gen_lines(src: &str) -> (r: Vec<Line>)
        requires
            fits_columns(src@.len()),
        ensures
            lines_wf(r@),
            line_views(r@) == lines_of(src@),
    {
        let texts = split_lines(src);
        proof {
            lemma_lines_short(src@);
        }
        let mut lines: Vec<Line> = Vec::new();
        let mut i: usize = 0;
        while i < texts.len()
            invariant
                i <= texts@.len(),
                string_views(texts@) == lines_of(src@),
                forall|j: int| 0 <= j < lines_of(src@).len() ==> #[trigger] lines_of(src@)[j].len() <= src@.len(),
                fits_columns(src@.len()),
                lines@.len() == i,
                lines_wf(lines@),
                forall|j: int| 0 <= j < i ==> #[trigger] lines@[j]@ == texts@[j]@,
            decreases texts.len() - i,
        {
            assert(string_views(texts@)[i as int] == texts@[i as int]@);
            assert(lines_of(src@)[i as int].len() <= src@.len());
            let line = Line::from(texts[i].as_str());
            lines.push(line);
            i = i + 1;
        }
        assert(line_views(lines@) =~= string_views(texts@));
        lines
    }

    pub fn ensure_redraw(&mut self)
        ensures
            final(self).needs_redraw,
            final(self).lines@ == old(self).lines@,
            final(self).modified_count == old(self).modified_count,
            final(self).file_info == old(self).file_info,
    {
        self.needs_redraw = true;
    }

    pub fn has_path(&self) -> (r: bool)
        ensures
            r == self.file_info.path_view() is Some,
    {
        self.file_info.has_path()
    }

    /// Binds the buffer to `path`; the caller then writes `save_text` there.
    pub fn save_as(&mut self, path: &str)
        ensures
            final(self).file_info.path_view() == Some(path@),
            final(self).lines@ == old(self).lines@,
            final(self).needs_redraw == old(self).needs_redraw,
            final(self).modified_count == old(self).modified_count,
    {
        self.file_info = FileInfo::from(path);
    }

    /// The text to write to the buffer's file.
    pub fn save_text(&self) -> (r: String)
        ensures
            r@ == saved_text(self.contents()),
    {
        let mut out = String::new();
        let mut i: usize = 0;
        let ghost cs = self.contents();
        let ghost terminated = cs.map_values(|l: Seq<char>| l.push('\n'));
        proof {
            reveal_strlit("\n");
        }
        while i < self.lines.len()
            invariant
                i <= self.lines@.len(),
                cs == self.contents(),
                terminated == cs.map_values(|l: Seq<char>| l.push('\n')),
                out@ == concat(terminated.take(i as int)),
            decreases self.lines.len() - i,
        {
            out.append(self.lines[i].content());
            out.append("\n");
            proof {
                lemma_concat_push(terminated.take(i as int), terminated[i as int]);
                assert(terminated.take(i as int).push(terminated[i as int]) =~= terminated.take(i + 1));
                reveal_strlit("\n");
                assert("\n"@ =~= seq!['\n']);
                assert(out@ =~= concat(terminated.take(i as int)) + terminated[i as int]);
            }
            i = i + 1;
        }
        assert(terminated.take(i as int) =~= terminated);
        out
    }

    /// Records that the buffer's text was written: no edit is unsaved.
    pub fn mark_saved(&mut self)
        ensures
            final(self).modified_count == 0,
            final(self).lines@ == old(self).lines@,
            final(self).needs_redraw == old(self).needs_redraw,
            final(self).file_info == old(self).file_info,
    {
        self.modified_count = 0;
    }

    pub fn get_line_col_width(&self, line_idx: usize) -> (r: usize)
        requires
            self.wf(),
        ensures
            r == if line_idx < self.lines@.len() {
                line_width(self.contents()[line_idx as int])
            } else {
                0
            },
    {
        if line_idx < self.lines.len() {
            self.lines[line_idx].col_width()
        } else {
            0
        }
    }

    pub fn get_lines_count(&self) -> (r: usize)
        ensures
            r == self.lines@.len(),
    {
        self.lines.len()
    }

    fn increase_modified_count(&mut self)
        ensures
            final(self).modified_count == sat_add(old(self).modified_count, 1),
            final(self).lines@ == old(self).lines@,
            final(self).needs_redraw == old(self).needs_redraw,
            final(self).file_info == old(self).file_info,
    {
        self.modified_count = self.modified_count.saturating_add(1);
    }

    pub fn insert(&mut self, str: &str, at: Position) -> (r: bool)
        requires
            old(self).wf(),
            fits_columns(str@.len()),
            at.line_idx < old(self).lines@.len() ==> fits_columns(
                old(self).contents()[at.line_idx as int].len() + str@.len(),
            ),
        ensures
            final(self).wf(),
            r == (at.line_idx <= old(self).lines@.len()),
            final(self).contents() == inserted(old(self).contents(), at, str@),
            r ==> final(self).modified_count == sat_add(old(self).modified_count, 1),
            r ==> final(self).needs_redraw,
            !r ==> final(self).lines@ == old(self).lines@,
            !r ==> final(self).modified_count == old(self).modified_count,
            !r ==> final(self).needs_redraw == old(self).needs_redraw,
            final(self).file_info == old(self).file_info,
    {
        let line_idx = at.line_idx;
        if line_idx > self.lines.len() {
            return false;
        }
        if line_idx == self.lines.len() {
            self.lines.push(Line::from(str));
            assert(self.contents() =~= old(self).contents().push(str@));
        } else {
            self.lines[line_idx].insert(at.col_idx, str);
            assert(self.contents() =~= old(self).contents().update(
                line_idx as int,
                self.lines@[line_idx as int]@,
            ));
        }
        self.increase_modified_count();
        self.ensure_redraw();
        true
    }

    /// Puts `str` on line `line_idx` in place of what was there, or adds it
    /// as a new last line where `line_idx` is past the end.
    pub fn set_line(&mut self, str: &str, line_idx: usize)
        requires
            old(self).wf(),
            fits_columns(str@.len()),
        ensures
            final(self).wf(),
            final(self).contents() == if line_idx >= old(self).lines@.len() {
                old(self).contents().push(str@)
            } else {
                old(self).contents().update(line_idx as int, str@)
            },
            final(self).modified_count == sat_add(old(self).modified_count, 1),
            final(self).needs_redraw,
            final(self).file_info == old(self).file_info,
    {
        let line = Line::from(str);
        if line_idx >= self.lines.len() {
            self.lines.push(line);
            assert(self.contents() =~= old(self).contents().push(str@));
        } else {
            self.lines.set(line_idx, line);
            assert(self.contents() =~= old(self).contents().update(line_idx as int, str@));
        }
        self.increase_modified_count();
        self.ensure_redraw();
    }

    pub fn remove_line(&mut self, line_idx: usize)
        requires
            old(self).wf(),
            line_idx < old(self).lines@.len(),
        ensures
            final(self).wf(),
            final(self).contents() == old(self).contents().remove(line_idx as int),
            final(self).modified_count == sat_add(old(self).modified_count, 1),
            final(self).needs_redraw,
            final(self).file_info == old(self).file_info,
    {
        self.lines.remove(line_idx);
        assert(self.contents() =~= old(self).contents().remove(line_idx as int));
        self.increase_modified_count();
        self.ensure_redraw();
    }

    /// Cuts line `at.line_idx` off at column `at.col_idx`, dropping the rest.
    pub fn cutoff_line(&mut self, at: Position)
        requires
            old(self).wf(),
        ensures
            final(self).wf(),
            at.line_idx < old(self).lines@.len() ==> {
                let l = old(self).contents()[at.line_idx as int];
                let k = col_to_grapheme(l, at.col_idx as int);
                &&& final(self).contents() == old(self).contents().update(
                    at.line_idx as int,
                    concat(graphemes_of(l).take(k)),
                )
                &&& final(self).modified_count == sat_add(old(self).modified_count, 1)
                &&& final(self).needs_redraw
            },
            at.line_idx >= old(self).lines@.len() ==> {
                &&& final(self).lines@ == old(self).lines@
                &&& final(self).modified_count == old(self).modified_count
                &&& final(self).needs_redraw == old(self).needs_redraw
            },
            final(self).file_info == old(self).file_info,
    {
        let line_idx = at.line_idx;
        if line_idx >= self.lines.len() {
            return;
        }
        let _rest = self.lines[line_idx].split_off(at.col_idx);
        assert(self.contents() =~= old(self).contents().update(line_idx as int, self.lines@[line_idx as int]@));
        self.increase_modified_count();
        self.ensure_redraw();
    }

    /// Breaks line `at.line_idx` in two at column `at.col_idx`; past the end,
    /// adds an empty line.
    pub fn insert_newline(&mut self, at: Position) -> (r: bool)
        requires
            old(self).wf(),
        ensures
            final(self).wf(),
            r,
            final(self).contents() == newline_inserted(old(self).contents(), at),
            final(self).modified_count == sat_add(old(self).modified_count, 1),
            final(self).needs_redraw == old(self).needs_redraw,
            final(self).file_info == old(self).file_info,
    {
        let line_idx = at.line_idx;
        if line_idx >= self.lines.len() {
            proof {
                reveal_strlit("");
            }
            assert(""@ =~= Seq::<char>::empty());
            self.lines.push(Line::from(""));
            assert(self.contents() =~= old(self).contents().push(Seq::empty()));
        } else {
            let second_half = self.lines[line_idx].split_off(at.col_idx);
            let ghost mid = self.contents();
            self.lines.insert(line_idx + 1, second_half);
            assert(mid =~= old(self).contents().update(line_idx as int, self.lines@[line_idx as int]@));
            assert(self.contents() =~= mid.insert(line_idx + 1, second_half@));
        }
        self.increase_modified_count();
        true
    }

    /// Deletes the cluster at column `at.col_idx`; at or past the end of a
    /// line that is not the last, joins the next line onto it.
    pub fn remove_char(&mut self, at: Position) -> (r: bool)
        requires
            old(self).wf(),
            at.line_idx + 1 < old(self).lines@.len() ==> fits_columns(
                old(self).contents()[at.line_idx as int].len() + old(self).contents()[at.line_idx + 1].len(),
            ),
        ensures
            final(self).wf(),
            r == removable(old(self).contents(), at),
            final(self).contents() == char_removed(old(self).contents(), at),
            r ==> final(self).modified_count == sat_add(old(self).modified_count, 1),
            !r ==> final(self).lines@ == old(self).lines@,
            !r ==> final(self).modified_count == old(self).modified_count,
            final(self).needs_redraw == old(self).needs_redraw,
            final(self).file_info == old(self).file_info,
    {
        let line_idx = at.line_idx;
        if line_idx >= self.lines.len() {
            return false;
        }
        if at.col_idx < self.lines[line_idx].col_width() {
            let k = self.lines[line_idx].grapheme_idx_at_col(at.col_idx);
            self.lines[line_idx].remove(k, 1);
            assert(self.contents() =~= old(self).contents().update(line_idx as int, self.lines@[line_idx as int]@));
        } else if line_idx + 1 < self.lines.len() {
            let next_line = self.lines.remove(line_idx + 1);
            let ghost mid = self.contents();
            assert(mid =~= old(self).contents().remove(line_idx + 1));
            self.lines[line_idx].append(&next_line);
            assert(self.contents() =~= mid.update(line_idx as int, self.lines@[line_idx as int]@));
            assert(self.contents() =~= old(self).contents().update(
                line_idx as int,
                old(self).contents()[line_idx as int] + old(self).contents()[line_idx + 1],
            ).remove(line_idx + 1));
        } else {
            return false;
        }
        self.increase_modified_count();
        true
    }

    /// The rows that a render of the viewport of `size` at `offset` emits,
    /// top to bottom.
    pub fn render_rows(&self, size: Size, offset: Position) -> (r: Vec<String>)
        requires
            self.wf(),
        ensures
            string_views(r@) == rendered_rows(self.contents(), self.needs_redraw, size, offset),
    {
        let mut rows: Vec<String> = Vec::new();
        if !self.needs_redraw || size.width == 0 || size.height == 0 {
            assert(string_views(rows@) =~= rendered_rows(self.contents(), self.needs_redraw, size, offset));
            return rows;
        }
        let top = offset.line_idx;
        let left = offset.col_idx;
        let right = left.saturating_add(size.width);
        let ghost cs = self.contents();
        let mut row: usize = 0;
        while row < size.height
            invariant
                self.wf(),
                cs == self.contents(),
                row <= size.height,
                top == offset.line_idx,
                left == offset.col_idx,
                right == sat_add(offset.col_idx, size.width),
                string_views(rows@) =~= Seq::new(row as nat, |r: int| row_text(cs, size, offset, r)),
            decreases size.height - row,
        {
            let current = top.saturating_add(row);
            assert(current == sat_add(offset.line_idx, row));
            let ghost prev = string_views(rows@);
            if current < self.lines.len() {
                assert(cs[current as int] == self.lines@[current as int]@);
                let w = self.lines[current].col_width();
                let end = if right < w {
                    right
                } else {
                    w
                };
                let text = self.lines[current].get_str_by_col_range(left..end);
                assert(text@ == row_text(cs, size, offset, row as int));
                rows.push(text);
                assert(string_views(rows@) =~= prev.push(row_text(cs, size, offset, row as int)));
            } else {
                proof {
                    reveal_strlit("~");
                }
                assert("~"@ =~= seq!['~']);
                rows.push(String::from_str("~"));
                assert(string_views(rows@) =~= prev.push(row_text(cs, size, offset, row as int)));
            }
            row = row + 1;
        }
        rows
    }

    /// Hands each row of the viewport of `size` at `offset` to `renderer`,
    /// top to bottom, when a redraw is due and the viewport has room. A
    /// complete render clears the redraw flag; the first error stops it and
    /// leaves the flag set.
    pub fn render<E, F: Fn(usize, &str) -> Result<(), E>>(
        &mut self,
        size: Size,
        offset: Position,
        renderer: F,
    ) -> (r: Result<(), E>)
        requires
            old(self).wf(),
            forall|row: usize, text: &str| renderer.requires((row, text)),
        ensures
            final(self).wf(),
            final(self).lines@ == old(self).lines@,
            final(self).modified_count == old(self).modified_count,
            final(self).file_info == old(self).file_info,
            !old(self).needs_redraw || size.width == 0 || size.height == 0 ==> r is Ok,
            r is Ok ==> final(self).needs_redraw == (old(self).needs_redraw && (size.width == 0
                || size.height == 0)),
            r is Err ==> final(self).needs_redraw == old(self).needs_redraw,
            ({
                let rows = rendered_rows(old(self).contents(), old(self).needs_redraw, size, offset);
                &&& r is Ok ==> forall|i: int|
                    0 <= i < rows.len() ==> #[trigger] row_accepted(renderer, i, rows[i])
                &&& r matches Err(e) ==> exists|k: int|
                    0 <= k < rows.len() && #[trigger] row_refused(renderer, k, rows[k], e) && forall|i: int|
                        0 <= i < k ==> #[trigger] row_accepted(renderer, i, rows[i])
            }),
    {
        if !self.needs_redraw || size.width == 0 || size.height == 0 {
            return Ok(());
        }
        let rows = self.render_rows(size, offset);
        let ghost want = rendered_rows(self.contents(), self.needs_redraw, size, offset);
        let mut i: usize = 0;
        while i < rows.len()
            invariant
                i <= rows@.len(),
                forall|row: usize, text: &str| renderer.requires((row, text)),
                self.wf(),
                self.lines@ == old(self).lines@,
                self.needs_redraw == old(self).needs_redraw,
                self.modified_count == old(self).modified_count,
                self.file_info == old(self).file_info,
                old(self).needs_redraw && size.width > 0 && size.height > 0,
                want == rendered_rows(old(self).contents(), old(self).needs_redraw, size, offset),
                string_views(rows@) == want,
                forall|j: int| 0 <= j < i ==> #[trigger] row_accepted(renderer, j, want[j]),
            decreases rows.len() - i,
        {
            let t = rows[i].as_str();
            assert(string_views(rows@)[i as int] == rows@[i as int]@);
            let res = renderer(i, t);
            assert(renderer.ensures((i, t), res));
            assert(t@ == want[i as int]);
            assert(((i as int) as usize) == i);
            match res {
                Ok(()) => {
                    assert(row_accepted(renderer, i as int, want[i as int]));
                },
                Err(e) => {
                    assert(row_refused(renderer, i as int, want[i as int], e));
                    return Err(e);
                },
            }
            i = i + 1;
        }
        self.needs_redraw = false;
        Ok(())
    }
}

pub open spec fn no_newline(l: Seq<char>) -> bool {
    forall|j: int| 0 <= j < l.len() ==> l[j] != '\n'
}

pub open spec fn ends_with_cr(l: Seq<char>) -> bool {
    l.len() > 0 && l.last() == '\r'
}

pub proof fn lemma_newline_index(s: Seq<char>, i: int)
    requires
        0 <= i <= s.len(),
    ensures
        i <= newline_index(s, i) <= s.len(),
        forall|j: int| i <= j < newline_index(s, i) ==> s[j] != '\n',
        newline_index(s, i) < s.len() ==> s[newline_index(s, i)] == '\n',
    decreases s.len() - i,
{
    if i < s.len() && s[i] != '\n' {
        lemma_newline_index(s, i + 1);
    }
}

/// No line of a text holds a `\n`.
pub proof fn lemma_lines_no_newline(s: Seq<char>)
    ensures
        forall|i: int| 0 <= i < lines_of(s).len() ==> no_newline(#[trigger] lines_of(s)[i]),
    decreases s.len(),
{
    if s.len() > 0 {
        let i = newline_index(s, 0);
        lemma_newline_index(s, 0);
        let ls = lines_of(s);
        if 0 <= i < s.len() {
            lemma_lines_no_newline(s.skip(i + 1));
            assert forall|j: int| 0 <= j < ls.len() implies no_newline(#[trigger] ls[j]) by {
                if j > 0 {
                    assert(ls[j] == lines_of(s.skip(i + 1))[j - 1]);
                } else {
                    assert(ls[0] == strip_cr(s.take(i)));
                }
            }
        }
    }
}

proof fn lemma_newline_index_at(l: Seq<char>, rest: Seq<char>, i: int)
    requires
        no_newline(l),
        0 <= i <= l.len(),
    ensures
        newline_index(l + seq!['\n'] + rest, i) == l.len(),
    decreases l.len() - i,
{
    let s = l + seq!['\n'] + rest;
    if i < l.len() {
        assert(s[i] == l[i]);
        lemma_newline_index_at(l, rest, i + 1);
    } else {
        assert(s[i] == '\n');
    }
}

/// Saving a line ahead of others writes it, a `\n`, then the others.
pub proof fn lemma_saved_text_cons(head: Seq<char>, tail: Seq<Seq<char>>)
    ensures
        saved_text(seq![head] + tail) == head.push('\n') + saved_text(tail),
{
    let mapped = (seq![head] + tail).map_values(|l: Seq<char>| l.push('\n'));
    let tail_mapped = tail.map_values(|l: Seq<char>| l.push('\n'));
    let single = seq![head.push('\n')];
    assert(mapped =~= single + tail_mapped);
    crate::unicode::lemma_concat_append(single, tail_mapped);
    assert(single.drop_last() =~= Seq::<Seq<char>>::empty());
    assert(concat(Seq::<Seq<char>>::empty()) =~= Seq::<char>::empty());
    assert(concat(single.drop_last()) =~= Seq::<char>::empty());
    assert(concat(single) =~= head.push('\n'));
}

/// A text without `\r` whose every line ends with `\n` is saved back
/// character for character as it was read.
pub proof fn lemma_save_reproduces_text(text: Seq<char>)
    requires
        forall|j: int| 0 <= j < text.len() ==> text[j] != '\r',
        text.len() == 0 || text.last() == '\n',
    ensures
        saved_text(lines_of(text)) == text,
    decreases text.len(),
{
    if text.len() == 0 {
        assert(lines_of(text) =~= Seq::<Seq<char>>::empty());
        assert(Seq::<Seq<char>>::empty().map_values(|l: Seq<char>| l.push('\n')) =~= Seq::<Seq<char>>::empty());
        assert(saved_text(lines_of(text)) =~= text);
    } else {
        lemma_newline_index(text, 0);
        let i = newline_index(text, 0);
        assert(i < text.len()) by {
            if i == text.len() {
                assert(text[text.len() - 1] != '\n');
            }
        }
        let head = text.take(i);
        let rest = text.skip(i + 1);
        assert(strip_cr(head) == head) by {
            if head.len() > 0 {
                assert(head.last() == text[i - 1]);
            }
        }
        assert forall|j: int| 0 <= j < rest.len() implies rest[j] != '\r' by {
            assert(rest[j] == text[i + 1 + j]);
        }
        if rest.len() > 0 {
            assert(rest.last() == text.last());
        }
        lemma_save_reproduces_text(rest);
        assert(lines_of(text) == seq![head] + lines_of(rest));
        lemma_saved_text_cons(head, lines_of(rest));
        assert(head.push('\n') + rest =~= text);
    }
}

proof fn lemma_lines_of_saved(ls: Seq<Seq<char>>)
    requires
        forall|i: int| 0 <= i < ls.len() ==> no_newline(#[trigger] ls[i]) && !ends_with_cr(ls[i]),
    ensures
        lines_of(saved_text(ls)) == ls,
    decreases ls.len(),
{
    if ls.len() == 0 {
        assert(ls.map_values(|l: Seq<char>| l.push('\n')) =~= Seq::<Seq<char>>::empty());
        assert(lines_of(saved_text(ls)) =~= ls);
    } else {
        let head = ls[0];
        let tail = ls.drop_first();
        assert forall|i: int| 0 <= i < tail.len() implies no_newline(#[trigger] tail[i]) && !ends_with_cr(tail[i]) by {
            assert(tail[i] == ls[i + 1]);
        }
        lemma_lines_of_saved(tail);
        lemma_saved_text_cons(head, tail);
        assert(seq![head] + tail =~= ls);
        let rest = saved_text(tail);
        let s = head + seq!['\n'] + rest;
        assert(saved_text(ls) =~= s);
        lemma_newline_index_at(head, rest, 0);
        assert(s.take(head.len() as int) =~= head);
        assert(s.skip(head.len() as int + 1) =~= rest);
        assert(lines_of(s) =~= seq![head] + tail);
        assert(seq![head] + tail =~= ls);
    }
}

/// Saving the lines read from a text and reading the saved text again gives
/// the same lines, line for line, where no line of the text ends with `\r`.
pub proof fn lemma_save_then_load(text: Seq<char>)
    requires
        forall|i: int| 0 <= i < lines_of(text).len() ==> !ends_with_cr(#[trigger] lines_of(text)[i]),
    ensures
        lines_of(saved_text(lines_of(text))) == lines_of(text),
{
    lemma_lines_no_newline(text);
    let ls = lines_of(text);
    assert forall|i: int| 0 <= i < ls.len() implies no_newline(#[trigger] ls[i]) && !ends_with_cr(ls[i]) by {}
    lemma_lines_of_saved(ls);
}

} // verus!
