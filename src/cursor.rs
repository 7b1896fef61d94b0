//! A caret position over a buffer that keeps to the left edges of clusters.
use crate::buffer::Buffer;
use crate::line::{lemma_first_right_range, fragment_views, cluster_at_col, col_of, first_right_at_least, lemma_col_of_strict, line_width};
use crate::position::{sat_add, sat_sub, Position};
use crate::text_fragment::{is_blank, is_single, views_of};
use crate::unicode::graphemes_of;
use vstd::prelude::*;

verus! {

/// The abstract value of a cursor.
pub struct CursorView {
    pub line_idx: usize,
    pub col_idx: usize,
    /// The column that vertical motion tries to return to.
    pub col_want: usize,
}

/// The width of line `line_idx` of `lines`; zero past the end.
pub open spec fn width_at(lines: Seq<Seq<char>>, line_idx: int) -> nat {
    if 0 <= line_idx < lines.len() {
        line_width(lines[line_idx])
    } else {
        0
    }
}

/// Where column `want` snaps to on line `line_idx`: the left edge of the
/// cluster that holds it, the line's width where it is past the end, and
/// zero past the last line.
pub open spec fn snapped_col(lines: Seq<Seq<char>>, line_idx: int, want: int) -> nat {
    if 0 <= line_idx < lines.len() {
        let gs = graphemes_of(lines[line_idx]);
        col_of(gs, cluster_at_col(gs, want))
    } else {
        0
    }
}

/// The state after a snap: the column follows the wanted column.
pub open spec fn snap(c: CursorView, lines: Seq<Seq<char>>) -> CursorView {
    CursorView { col_idx: snapped_col(lines, c.line_idx as int, c.col_want as int) as usize, ..c }
}

/// The first cluster from `i` on that is neither a space nor a tab.
pub open spec fn first_non_blank(gs: Seq<Seq<char>>, i: int) -> int
    decreases gs.len() - i,
{
    if i >= gs.len() {
        gs.len() as int
    } else if !is_single(gs[i], ' ') && !is_single(gs[i], '\t') {
        i
    } else {
        first_non_blank(gs, i + 1)
    }
}

/// Where `move_prev_grapheme` takes a cursor.
pub open spec fn prev_grapheme(c: CursorView, lines: Seq<Seq<char>>) -> CursorView {
    if c.col_idx > 0 {
        placed(c.line_idx, snapped_col(lines, c.line_idx as int, c.col_idx - 1) as usize)
    } else if c.line_idx > 0 {
        placed((c.line_idx - 1) as usize, width_at(lines, c.line_idx - 1) as usize)
    } else {
        c
    }
}

/// Where `move_next_grapheme` takes a cursor.
pub open spec fn next_grapheme(c: CursorView, lines: Seq<Seq<char>>) -> CursorView {
    if c.line_idx >= lines.len() {
        placed(c.line_idx, 0)
    } else if c.col_idx < width_at(lines, c.line_idx as int) {
        let gs = graphemes_of(lines[c.line_idx as int]);
        let k = cluster_at_col(gs, c.col_idx as int);
        placed(c.line_idx, sat_add(c.col_idx, (col_of(gs, k + 1) - col_of(gs, k)) as usize))
    } else {
        placed(
            if c.line_idx + 1 < lines.len() {
                (c.line_idx + 1) as usize
            } else {
                lines.len() as usize
            },
            0,
        )
    }
}

/// The width of the cluster that holds column `col` of line `line_idx`.
pub open spec fn step_at(lines: Seq<Seq<char>>, line_idx: int, col: int) -> nat {
    let gs = graphemes_of(lines[line_idx]);
    let k = cluster_at_col(gs, col);
    (col_of(gs, k + 1) - col_of(gs, k)) as nat
}

/// Where `move_prev_grapheme_nowrap` takes a cursor: to the left edge of the
/// cluster before it, stopping at column zero.
pub open spec fn prev_grapheme_nowrap(c: CursorView, lines: Seq<Seq<char>>) -> CursorView {
    placed(
        c.line_idx,
        if c.col_idx > 0 {
            snapped_col(lines, c.line_idx as int, c.col_idx - 1) as usize
        } else {
            0
        },
    )
}

/// Where `move_next_grapheme_nowrap` takes a cursor: past the cluster it is
/// on, stopping at the end of the line.
pub open spec fn next_grapheme_nowrap(c: CursorView, lines: Seq<Seq<char>>) -> CursorView {
    let w = width_at(lines, c.line_idx as int);
    placed(
        c.line_idx,
        if c.col_idx < w {
            let next = sat_add(c.col_idx, step_at(lines, c.line_idx as int, c.col_idx as int) as usize);
            if next < w {
                next
            } else {
                w as usize
            }
        } else {
            w as usize
        },
    )
}

/// Where `move_prev_line` takes a cursor.
pub open spec fn prev_line(c: CursorView, step: usize, lines: Seq<Seq<char>>) -> CursorView {
    snap(CursorView { line_idx: sat_sub(c.line_idx, step), ..c }, lines)
}

/// Where `move_next_line` takes a cursor.
pub open spec fn next_line(c: CursorView, step: usize, lines: Seq<Seq<char>>) -> CursorView {
    let l = sat_add(c.line_idx, step);
    snap(
        CursorView {
            line_idx: if l < lines.len() {
                l
            } else {
                lines.len() as usize
            },
            ..c
        },
        lines,
    )
}

/// Where `move_last_line` takes a cursor.
pub open spec fn last_line(c: CursorView, lines: Seq<Seq<char>>) -> CursorView {
    snap(CursorView { line_idx: sat_sub(lines.len() as usize, 1), ..c }, lines)
}

/// Where `move_first_non_blank` takes a cursor.
pub open spec fn first_non_blank_motion(c: CursorView, lines: Seq<Seq<char>>) -> CursorView {
    let want = if c.line_idx < lines.len() {
        let gs = graphemes_of(lines[c.line_idx as int]);
        col_of(gs, first_non_blank(gs, 0)) as usize
    } else {
        0
    };
    snap(CursorView { col_want: want, ..c }, lines)
}

pub struct Cursor {
    line_idx: usize,
    col_idx: usize,
    col_want: usize,
}

impl View for Cursor {
    type V = CursorView;

    closed spec fn view(&self) -> CursorView {
        CursorView { line_idx: self.line_idx, col_idx: self.col_idx, col_want: self.col_want }
    }
}

impl Default for Cursor {
    fn default() -> (r: Self)
        ensures
            r@ == (CursorView { line_idx: 0, col_idx: 0, col_want: 0 }),
    {
        Cursor { line_idx: 0, col_idx: 0, col_want: 0 }
    }
}

/// A column is stored as the wanted one too.
pub open spec fn placed(line_idx: usize, col_idx: usize) -> CursorView {
    CursorView { line_idx, col_idx, col_want: col_idx }
}

impl Cursor {
    pub fn set_line_idx(&mut self, line_idx: usize, current_buffer: &Buffer)
        ensures
            final(self)@ == (CursorView {
                line_idx: if line_idx < current_buffer.lines@.len() {
                    line_idx
                } else {
                    current_buffer.lines@.len() as usize
                },
                ..old(self)@
            }),
    {
        let n = current_buffer.get_lines_count();
        self.line_idx = if line_idx < n {
            line_idx
        } else {
            n
        };
    }

    pub fn set_col_idx(&mut self, col_idx: usize, current_buffer: &Buffer)
        requires
            current_buffer.wf(),
        ensures
            final(self)@ == snap(CursorView { col_want: col_idx, ..old(self)@ }, current_buffer.contents()),
    {
        self.col_want = col_idx;
        self.snap_col_idx(current_buffer);
    }

    pub fn snap_col_idx(&mut self, current_buffer: &Buffer)
        requires
            current_buffer.wf(),
        ensures
            final(self)@ == snap(old(self)@, current_buffer.contents()),
    {
        if self.line_idx >= current_buffer.get_lines_count() {
            self.col_idx = 0;
            return;
        }
        let line = &current_buffer.lines[self.line_idx];
        assert(current_buffer.contents()[self.line_idx as int] == line@);
        assert(line.wf());
        proof {
            let gs = graphemes_of(line@);
            let k = cluster_at_col(gs, self.col_want as int);
            crate::line::lemma_first_right_range(gs, self.col_want + 1, 0);
            line.lemma_cols_fit(k);
        }
        self.col_idx = match line.get_fragment_by_col_idx(self.col_want) {
            Some(f) => f.left_col_width(),
            None => line.col_width(),
        };
    }

    pub fn set_position(&mut self, position: Position, current_buffer: &Buffer)
        requires
            current_buffer.wf(),
        ensures
            final(self)@ == snap(
                CursorView {
                    line_idx: if position.line_idx < current_buffer.lines@.len() {
                        position.line_idx
                    } else {
                        current_buffer.lines@.len() as usize
                    },
                    col_idx: old(self)@.col_idx,
                    col_want: position.col_idx,
                },
                current_buffer.contents(),
            ),
    {
        self.set_line_idx(position.line_idx, current_buffer);
        self.set_col_idx(position.col_idx, current_buffer);
    }

    pub fn get_screen_position(&self, offset: &Position) -> (r: Position)
        ensures
            r.line_idx == sat_sub(self@.line_idx, offset.line_idx),
            r.col_idx == sat_sub(self@.col_idx, offset.col_idx),
    {
        self.position().saturating_sub(offset)
    }

    pub fn position(&self) -> (r: Position)
        ensures
            r == (Position { line_idx: self@.line_idx, col_idx: self@.col_idx }),
    {
        Position { line_idx: self.line_idx, col_idx: self.col_idx }
    }

    pub fn line_idx(&self) -> (r: usize)
        ensures
            r == self@.line_idx,
    {
        self.line_idx
    }

    pub fn col_idx(&self) -> (r: usize)
        ensures
            r == self@.col_idx,
    {
        self.col_idx
    }

    pub fn col_want(&self) -> (r: usize)
        ensures
            r == self@.col_want,
    {
        self.col_want
    }

    pub fn move_left_edge(&mut self, current_buffer: &Buffer)
        requires
            current_buffer.wf(),
        ensures
            final(self)@ == snap(CursorView { col_want: 0, ..old(self)@ }, current_buffer.contents()),
    {
        self.set_col_idx(0, current_buffer);
    }

    pub fn move_right_edge(&mut self, current_buffer: &Buffer)
        requires
            current_buffer.wf(),
        ensures
            final(self)@ == snap(CursorView { col_want: usize::MAX, ..old(self)@ }, current_buffer.contents()),
    {
        self.set_col_idx(usize::MAX, current_buffer);
    }

    pub fn move_prev_line(&mut self, step: usize, current_buffer: &Buffer)
        requires
            current_buffer.wf(),
        ensures
            final(self)@ == prev_line(old(self)@, step, current_buffer.contents()),
    {
        self.line_idx = self.line_idx.saturating_sub(step);
        self.snap_col_idx(current_buffer);
    }

    pub fn move_next_line(&mut self, step: usize, current_buffer: &Buffer)
        requires
            current_buffer.wf(),
        ensures
            final(self)@ == next_line(old(self)@, step, current_buffer.contents()),
    {
        self.set_line_idx(self.line_idx.saturating_add(step), current_buffer);
        self.snap_col_idx(current_buffer);
    }

    /// One cluster left; from column zero, to the end of the line above.
    pub fn move_prev_grapheme(&mut self, current_buffer: &Buffer)
        requires
            current_buffer.wf(),
        ensures
            final(self)@ == prev_grapheme(old(self)@, current_buffer.contents()),
    {
        if self.col_idx > 0 {
            self.set_col_idx(self.col_idx - 1, current_buffer);
            self.col_want = self.col_idx;
        } else if self.line_idx > 0 {
            self.move_prev_line(1, current_buffer);
            self.col_idx = current_buffer.get_line_col_width(self.line_idx);
            self.col_want = self.col_idx;
        }
    }

    /// One cluster right; from the end of a line, to the start of the next.
    pub fn move_next_grapheme(&mut self, current_buffer: &Buffer)
        requires
            current_buffer.wf(),
        ensures
            final(self)@ == next_grapheme(old(self)@, current_buffer.contents()),
    {
        if self.line_idx >= current_buffer.get_lines_count() {
            self.set_col_idx(0, current_buffer);
            return;
        }
        let line = &current_buffer.lines[self.line_idx];
        assert(current_buffer.contents()[self.line_idx as int] == line@);
        assert(line.wf());
        proof {
            let gs = graphemes_of(line@);
            let k = cluster_at_col(gs, self.col_idx as int);
            if gs.len() > 0 && self.col_idx < col_of(gs, gs.len() as int) {
                crate::line::lemma_cluster_found(gs, self.col_idx + 1, 0);
                assert(col_of(gs, k + 1) == col_of(gs, k) + crate::text_fragment::fragment_width(gs[k], col_of(gs, k)));
            }
        }
        let step = match line.get_fragment_by_col_idx(self.col_idx) {
            Some(f) => f.width(),
            None => 1,
        };
        if self.col_idx < current_buffer.get_line_col_width(self.line_idx) {
            self.col_idx = self.col_idx.saturating_add(step);
            self.col_want = self.col_idx;
        } else {
            self.move_next_line(1, current_buffer);
            self.col_idx = 0;
            self.col_want = 0;
        }
    }

    /// One cluster left without leaving the line.
    pub fn move_prev_grapheme_nowrap(&mut self, current_buffer: &Buffer)
        requires
            current_buffer.wf(),
        ensures
            final(self)@ == prev_grapheme_nowrap(old(self)@, current_buffer.contents()),
    {
        if self.col_idx > 0 {
            self.set_col_idx(self.col_idx - 1, current_buffer);
        }
        self.col_want = self.col_idx;
    }

    /// One cluster right without leaving the line.
    pub fn move_next_grapheme_nowrap(&mut self, current_buffer: &Buffer)
        requires
            current_buffer.wf(),
        ensures
            final(self)@ == next_grapheme_nowrap(old(self)@, current_buffer.contents()),
    {
        let w = current_buffer.get_line_col_width(self.line_idx);
        if self.col_idx < w {
            let line = &current_buffer.lines[self.line_idx];
            assert(current_buffer.contents()[self.line_idx as int] == line@);
            assert(line.wf());
            proof {
                let gs = graphemes_of(line@);
                let k = cluster_at_col(gs, self.col_idx as int);
                crate::line::lemma_cluster_found(gs, self.col_idx + 1, 0);
                assert(col_of(gs, k + 1) == col_of(gs, k) + crate::text_fragment::fragment_width(gs[k], col_of(gs, k)));
            }
            let step = match line.get_fragment_by_col_idx(self.col_idx) {
                Some(f) => f.width(),
                None => 1,
            };
            let next = self.col_idx.saturating_add(step);
            self.col_idx = if next < w {
                next
            } else {
                w
            };
        } else {
            self.col_idx = w;
        }
        self.col_want = self.col_idx;
    }

    pub fn move_first_char(&mut self, current_buffer: &Buffer)
        requires
            current_buffer.wf(),
        ensures
            final(self)@ == snap(CursorView { col_want: 0, ..old(self)@ }, current_buffer.contents()),
    {
        self.set_col_idx(0, current_buffer);
    }

    pub fn move_last_char(&mut self, current_buffer: &Buffer)
        requires
            current_buffer.wf(),
        ensures
            final(self)@ == snap(CursorView { col_want: usize::MAX, ..old(self)@ }, current_buffer.contents()),
    {
        self.set_col_idx(usize::MAX, current_buffer);
    }

    pub fn move_first_line(&mut self, current_buffer: &Buffer)
        requires
            current_buffer.wf(),
        ensures
            final(self)@ == snap(CursorView { line_idx: 0, ..old(self)@ }, current_buffer.contents()),
    {
        self.set_line_idx(0, current_buffer);
        self.snap_col_idx(current_buffer);
    }

    pub fn move_last_line(&mut self, current_buffer: &Buffer)
        requires
            current_buffer.wf(),
        ensures
            final(self)@ == last_line(old(self)@, current_buffer.contents()),
    {
        let last = current_buffer.get_lines_count().saturating_sub(1);
        self.set_line_idx(last, current_buffer);
        self.snap_col_idx(current_buffer);
    }

    /// To the first cluster of the line that is neither a space nor a tab.
    pub fn move_first_non_blank(&mut self, current_buffer: &Buffer)
        requires
            current_buffer.wf(),
        ensures
            final(self)@ == first_non_blank_motion(old(self)@, current_buffer.contents()),
    {
        let mut want: usize = 0;
        if self.line_idx < current_buffer.get_lines_count() {
            let line = &current_buffer.lines[self.line_idx];
            assert(current_buffer.contents()[self.line_idx as int] == line@);
            let ghost gs = graphemes_of(line@);
            let frags = line.fragments();
            let n = frags.len();
            assert(views_of(frags@).len() == n);
            assert(fragment_views(line@).len() == gs.len());
            let mut i: usize = 0;
            while i < n && (is_blank(frags[i].grapheme()))
                invariant
                    line.wf(),
                    gs == graphemes_of(line@),
                    views_of(frags@) == fragment_views(line@),
                    n == gs.len(),
                    n == frags@.len(),
                    i <= n,
                    first_non_blank(gs, 0) == first_non_blank(gs, i as int),
                decreases n - i,
            {
                assert(views_of(frags@)[i as int] == frags@[i as int]@);
                i = i + 1;
            }
            if i < n {
                assert(views_of(frags@)[i as int] == frags@[i as int]@);
            }
            want = if i < n {
                frags[i].left_col_width()
            } else {
                proof {
                    crate::line::lemma_col_of_bound(gs, n as int);
                }
                line.col_width()
            };
        }
        self.set_col_idx(want, current_buffer);
    }
}

/// Snapping twice in a row changes nothing the second time, and the column a
/// snap lands on snaps to itself.
pub proof fn lemma_snap_idempotent(c: CursorView, lines: Seq<Seq<char>>)
    ensures
        snap(snap(c, lines), lines) == snap(c, lines),
        snapped_col(lines, c.line_idx as int, snapped_col(lines, c.line_idx as int, c.col_want as int) as int)
            == snapped_col(lines, c.line_idx as int, c.col_want as int),
{
    if c.line_idx < lines.len() {
        let gs = graphemes_of(lines[c.line_idx as int]);
        let k = cluster_at_col(gs, c.col_want as int);
        lemma_first_right_range(gs, c.col_want + 1, 0);
        let col = col_of(gs, k);
        assert forall|j: int| 0 <= j < k implies #[trigger] col_of(gs, j + 1) < col as int + 1 by {
            if j + 1 < k {
                lemma_col_of_strict(gs, j + 1, k);
            }
        }
        if k < gs.len() {
            lemma_col_of_strict(gs, k, k + 1);
        }
        lemma_first_right_at(gs, col as int + 1, 0, k);
    }
}

/// The search for the first right edge at `c` or beyond ends at `k` when
/// the clusters before `k` end short of `c` and cluster `k` (if any) does not.
pub proof fn lemma_first_right_at(gs: Seq<Seq<char>>, c: int, i: int, k: int)
    requires
        0 <= i <= k <= gs.len(),
        forall|j: int| 0 <= j < k ==> #[trigger] col_of(gs, j + 1) < c,
        k == gs.len() || col_of(gs, k + 1) >= c,
    ensures
        first_right_at_least(gs, c, i) == k,
    decreases k - i,
{
    if i < k {
        lemma_first_right_at(gs, c, i + 1, k);
    }
}

} // verus!
