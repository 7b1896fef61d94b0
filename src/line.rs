//! A line of text: its content and one fragment per grapheme cluster.
use crate::text_fragment::{views_of, fragment_of, fragment_width, lemma_fragment_width_bounds, shown_text, FragmentView, TextFragment};
use crate::unicode::{concat, graphemes_of, lemma_concat_len, lemma_concat_push, lemma_concat_split, split_graphemes, string_views};
use std::ops::Range;
use vstd::prelude::*;
use vstd::string::*;

verus! {

/// A line of `n` characters keeps its column count within `usize`
/// (no cluster is wider than four columns).
pub open spec fn fits_columns(n: nat) -> bool {
    4 * n <= usize::MAX
}

/// The column of the left edge of cluster `k` of `gs`: the widths of the
/// clusters before it, each measured where it stands.
pub open spec fn col_of(gs: Seq<Seq<char>>, k: int) -> nat
    decreases k,
{
    if k <= 0 {
        0
    } else {
        let l = col_of(gs, k - 1);
        l + fragment_width(gs[k - 1], l)
    }
}

/// The fragments that a line with content `s` is made of.
pub open spec fn fragment_views(s: Seq<char>) -> Seq<FragmentView> {
    let gs = graphemes_of(s);
    Seq::new(gs.len(), |i: int| fragment_of(gs[i], col_of(gs, i)))
}

/// The columns that a line with content `s` takes.
pub open spec fn line_width(s: Seq<char>) -> nat {
    col_of(graphemes_of(s), graphemes_of(s).len() as int)
}

pub open spec fn sum_widths(fs: Seq<FragmentView>) -> nat
    decreases fs.len(),
{
    if fs.len() == 0 {
        0
    } else {
        sum_widths(fs.drop_last()) + fs.last().width
    }
}

/// The first cluster at or after `i` whose left edge is at column `col` or
/// beyond; `gs.len()` if there is none. As left edges grow, this is also the
/// number of clusters that start before `col`.
pub open spec fn first_left_at_least(gs: Seq<Seq<char>>, col: int, i: int) -> int
    decreases gs.len() - i,
{
    if i >= gs.len() {
        gs.len() as int
    } else if col_of(gs, i) >= col {
        i
    } else {
        first_left_at_least(gs, col, i + 1)
    }
}

/// The first cluster at or after `i` whose right edge is at column `col` or
/// beyond; `gs.len()` if there is none.
pub open spec fn first_right_at_least(gs: Seq<Seq<char>>, col: int, i: int) -> int
    decreases gs.len() - i,
{
    if i >= gs.len() {
        gs.len() as int
    } else if col_of(gs, i + 1) >= col {
        i
    } else {
        first_right_at_least(gs, col, i + 1)
    }
}

/// The cluster whose columns hold column `col`; `gs.len()` if `col` lies at
/// or past the end of the line.
pub open spec fn cluster_at_col(gs: Seq<Seq<char>>, col: int) -> int {
    first_right_at_least(gs, col + 1, 0)
}

/// The index of the first cluster that starts at column `col` or later.
pub open spec fn col_to_grapheme(s: Seq<char>, col: int) -> int {
    first_left_at_least(graphemes_of(s), col, 0)
}

/// What clusters `0 .. k` show, taking only those that lie wholly within
/// the columns `lo .. hi`, in order.
pub open spec fn shown_within(gs: Seq<Seq<char>>, lo: int, hi: int, k: int) -> Seq<char>
    decreases k,
{
    if k <= 0 {
        Seq::empty()
    } else {
        let rest = shown_within(gs, lo, hi, k - 1);
        if lo <= col_of(gs, k - 1) && col_of(gs, k) <= hi {
            rest + shown_text(gs[k - 1], col_of(gs, k - 1))
        } else {
            rest
        }
    }
}

/// Whether column `col` falls strictly inside a cluster: it lies before the
/// end of the line and the cluster holding it starts before it.
pub open spec fn inside_cluster(gs: Seq<Seq<char>>, col: int) -> bool {
    col < col_of(gs, gs.len() as int) && col_of(gs, cluster_at_col(gs, col)) < col
}

/// What a line with content `s` shows of the columns from `start` to `end`,
/// both cut to the line's width: `«` where the start falls inside a cluster,
/// then every cluster that lies wholly within the range, then `»` where the
/// end falls inside a cluster. An empty or reversed range shows nothing.
pub open spec fn str_by_col_range(s: Seq<char>, start: int, end: int) -> Seq<char> {
    let gs = graphemes_of(s);
    let w = col_of(gs, gs.len() as int) as int;
    let lo = if start < w {
        start
    } else {
        w
    };
    let hi = if end < w {
        end
    } else {
        w
    };
    if start >= end {
        Seq::empty()
    } else {
        let left_mark = if inside_cluster(gs, lo) {
            seq!['«']
        } else {
            Seq::empty()
        };
        let right_mark = if inside_cluster(gs, hi) {
            seq!['»']
        } else {
            Seq::empty()
        };
        left_mark + shown_within(gs, lo, hi, gs.len() as int) + right_mark
    }
}

/// The content after `text` is put in before cluster `k`.
pub open spec fn insert_at(s: Seq<char>, k: int, text: Seq<char>) -> Seq<char> {
    let gs = graphemes_of(s);
    concat(gs.take(k)) + text + concat(gs.skip(k))
}

/// The content after clusters `start .. start + count` are taken out; past the
/// end nothing changes.
pub open spec fn remove_clusters(s: Seq<char>, start: int, count: int) -> Seq<char> {
    let gs = graphemes_of(s);
    if start < gs.len() {
        let end = if start + count < gs.len() {
            start + count
        } else {
            gs.len() as int
        };
        concat(gs.take(start)) + concat(gs.skip(end))
    } else {
        s
    }
}

pub proof fn lemma_col_of_bound(gs: Seq<Seq<char>>, k: int)
    requires
        0 <= k <= gs.len(),
    ensures
        col_of(gs, k) <= 4 * k,
    decreases k,
{
    if k > 0 {
        lemma_col_of_bound(gs, k - 1);
        lemma_fragment_width_bounds(gs[k - 1], col_of(gs, k - 1));
    }
}

/// Left edges grow strictly from one cluster to the next.
pub proof fn lemma_col_of_strict(gs: Seq<Seq<char>>, i: int, j: int)
    requires
        0 <= i < j <= gs.len(),
    ensures
        col_of(gs, i) < col_of(gs, j),
    decreases j - i,
{
    lemma_fragment_width_bounds(gs[j - 1], col_of(gs, j - 1));
    if i < j - 1 {
        lemma_col_of_strict(gs, i, j - 1);
    }
}

pub struct Line {
    fragments: Vec<TextFragment>,
    string: String,
    col_width: usize,
}

impl View for Line {
    type V = Seq<char>;

    closed spec fn view(&self) -> Seq<char> {
        self.string@
    }
}

impl Line {
    /// The fragments agree with the content, cluster by cluster.
    pub closed spec fn wf(&self) -> bool {
        let gs = graphemes_of(self.string@);
        &&& fits_columns(self.string@.len())
        &&& concat(gs) == self.string@
        &&& forall|i: int| 0 <= i < gs.len() ==> #[trigger] gs[i].len() > 0
        &&& self.fragments@.len() == gs.len()
        &&& forall|i: int|
            0 <= i < gs.len() ==> #[trigger] self.fragments@[i]@ == fragment_of(gs[i], col_of(gs, i))
        &&& self.col_width == col_of(gs, gs.len() as int)
    }

    /// A well-formed line's clusters are non-empty and join back to its
    /// content, and the line stays within its column limit.
    pub proof fn lemma_wf_clusters(&self)
        requires
            self.wf(),
        ensures
            concat(graphemes_of(self@)) == self@,
            forall|i: int| 0 <= i < graphemes_of(self@).len() ==> #[trigger] graphemes_of(self@)[i].len() > 0,
            fits_columns(self@.len()),
    {
    }

    pub fn from(string: &str) -> (r: Self)
        requires
            fits_columns(string@.len()),
        ensures
            r.wf(),
            r@ == string@,
    {
        let mut line = Line { fragments: Vec::new(), string: String::from_str(string), col_width: 0 };
        line.rebuild_fragments();
        line
    }

    fn rebuild_fragments(&mut self)
        requires
            fits_columns(old(self).string@.len()),
        ensures
            final(self).wf(),
            final(self)@ == old(self)@,
    {
        let gs = split_graphemes(self.string.as_str());
        let ghost g = graphemes_of(self.string@);
        proof {
            lemma_concat_len(string_views(gs@));
        }
        let mut frags: Vec<TextFragment> = Vec::new();
        let mut left: usize = 0;
        let mut i: usize = 0;
        while i < gs.len()
            invariant
                i <= gs@.len(),
                string_views(gs@) == g,
                g.len() <= self.string@.len(),
                fits_columns(self.string@.len()),
                frags@.len() == i,
                left == col_of(g, i as int),
                forall|j: int| 0 <= j < i ==> #[trigger] frags@[j]@ == fragment_of(g[j], col_of(g, j)),
            decreases gs.len() - i,
        {
            assert(string_views(gs@)[i as int] == gs@[i as int]@);
            let f = TextFragment::new(gs[i].as_str(), left);
            proof {
                lemma_col_of_bound(g, i as int + 1);
            }
            left = left + f.width();
            frags.push(f);
            i = i + 1;
        }
        self.fragments = frags;
        self.col_width = left;
        proof {
            assert forall|i: int| 0 <= i < g.len() implies #[trigger] g[i].len() > 0 by {
                assert(string_views(gs@)[i] == gs@[i]@);
            }
        }
    }

    pub fn content(&self) -> (r: &str)
        ensures
            r@ == self@,
    {
        self.string.as_str()
    }

    pub fn fragments(&self) -> (r: &Vec<TextFragment>)
        requires
            self.wf(),
        ensures
            views_of(r@) == fragment_views(self@),
    {
        assert(views_of(self.fragments@) =~= fragment_views(self@));
        &self.fragments
    }

    pub fn grapheme_count(&self) -> (r: usize)
        requires
            self.wf(),
        ensures
            r == graphemes_of(self@).len(),
    {
        self.fragments.len()
    }

    pub fn col_width(&self) -> (r: usize)
        requires
            self.wf(),
        ensures
            r == line_width(self@),
    {
        self.col_width
    }

    /// The left edge of cluster `k`; the line's width for `k` at the end.
    fn col_at(&self, k: usize) -> (r: usize)
        requires
            self.wf(),
            k <= graphemes_of(self@).len(),
        ensures
            r == col_of(graphemes_of(self@), k as int),
    {
        if k < self.fragments.len() {
            self.fragments[k].left_col_width()
        } else {
            self.col_width
        }
    }

    pub proof fn lemma_cols_fit(&self, k: int)
        requires
            self.wf(),
            0 <= k <= graphemes_of(self@).len(),
        ensures
            col_of(graphemes_of(self@), k) <= usize::MAX,
            graphemes_of(self@).len() <= self@.len(),
    {
        let gs = graphemes_of(self@);
        lemma_concat_len(gs);
        lemma_col_of_bound(gs, k);
    }

    fn first_left_reaching(&self, col: usize) -> (r: usize)
        requires
            self.wf(),
        ensures
            r as int == first_left_at_least(graphemes_of(self@), col as int, 0),
            r <= graphemes_of(self@).len(),
    {
        let ghost gs = graphemes_of(self@);
        let n = self.fragments.len();
        let mut i: usize = 0;
        while i < n && self.fragments[i].left_col_width() < col
            invariant
                self.wf(),
                gs == graphemes_of(self@),
                n == gs.len(),
                i <= n,
                first_left_at_least(gs, col as int, 0) == first_left_at_least(gs, col as int, i as int),
            decreases n - i,
        {
            i = i + 1;
        }
        i
    }

    /// The first cluster from `from` on whose right edge is beyond `col`
    /// (`beyond`) or at `col` or beyond (`!beyond`).
    fn first_right_from(&self, col: usize, beyond: bool, from: usize) -> (r: usize)
        requires
            self.wf(),
            from <= graphemes_of(self@).len(),
        ensures
            r as int == first_right_at_least(
                graphemes_of(self@),
                if beyond {
                    col + 1
                } else {
                    col as int
                },
                from as int,
            ),
            from <= r <= graphemes_of(self@).len(),
    {
        let ghost gs = graphemes_of(self@);
        let ghost bound: int = if beyond {
            col + 1
        } else {
            col as int
        };
        let n = self.fragments.len();
        let mut i: usize = from;
        while i < n
            invariant
                self.wf(),
                gs == graphemes_of(self@),
                n == gs.len(),
                from <= i <= n,
                bound == (if beyond {
                    col + 1
                } else {
                    col as int
                }),
                first_right_at_least(gs, bound, from as int) == first_right_at_least(gs, bound, i as int),
            decreases n - i,
        {
            proof {
                self.lemma_cols_fit(i + 1);
                assert(self.fragments@[i as int]@ == fragment_of(gs[i as int], col_of(gs, i as int)));
                assert(col_of(gs, i + 1) == col_of(gs, i as int) + fragment_width(gs[i as int], col_of(gs, i as int)));
            }
            let right = self.fragments[i].left_col_width() + self.fragments[i].width();
            assert(right == col_of(gs, i + 1));
            if (beyond && right > col) || (!beyond && right >= col) {
                return i;
            }
            i = i + 1;
        }
        i
    }

    /// The character offset of cluster `k` in the content.
    fn char_offset(&self, k: usize) -> (r: usize)
        requires
            self.wf(),
            k <= graphemes_of(self@).len(),
        ensures
            r == concat(graphemes_of(self@).take(k as int)).len(),
            r <= self@.len(),
    {
        let ghost gs = graphemes_of(self@);
        let mut off: usize = 0;
        let mut i: usize = 0;
        while i < k
            invariant
                self.wf(),
                gs == graphemes_of(self@),
                k <= gs.len(),
                i <= k,
                off == concat(gs.take(i as int)).len(),
            decreases k - i,
        {
            proof {
                lemma_concat_push(gs.take(i as int), gs[i as int]);
                assert(gs.take(i as int).push(gs[i as int]) =~= gs.take(i + 1));
                lemma_concat_split(gs, i + 1);
            }
            off = off + self.fragments[i].grapheme().unicode_len();
            i = i + 1;
        }
        proof {
            lemma_concat_split(gs, k as int);
        }
        off
    }

    pub fn get_str(&self) -> (r: String)
        requires
            self.wf(),
        ensures
            r@ == str_by_col_range(self@, 0, line_width(self@) as int),
    {
        self.get_str_by_col_range(0..self.col_width)
    }

    pub fn get_str_by_col_range(&self, range: Range<usize>) -> (r: String)
        requires
            self.wf(),
        ensures
            r@ == str_by_col_range(self@, range.start as int, range.end as int),
    {
        let ghost gs = graphemes_of(self@);
        let start = range.start;
        let end = range.end;
        if start >= end {
            return String::new();
        }
        let n = self.fragments.len();
        let w = self.col_width;
        let lo = if start < w {
            start
        } else {
            w
        };
        let hi = if end < w {
            end
        } else {
            w
        };
        let mut out = String::new();
        let ghost left_mark: Seq<char> = Seq::empty();
        let k_lo = self.first_right_from(lo, true, 0);
        if lo < w && self.col_at(k_lo) < lo {
            proof {
                reveal_strlit("«");
                left_mark = seq!['«'];
            }
            out.append("«");
        }
        let mut j: usize = 0;
        while j < n
            invariant
                self.wf(),
                gs == graphemes_of(self@),
                n == gs.len(),
                j <= n,
                lo <= w,
                hi <= w,
                w == col_of(gs, n as int),
                out@ == left_mark + shown_within(gs, lo as int, hi as int, j as int),
            decreases n - j,
        {
            proof {
                self.lemma_cols_fit(j + 1);
                assert(self.fragments@[j as int]@ == fragment_of(gs[j as int], col_of(gs, j as int)));
                assert(col_of(gs, j + 1) == col_of(gs, j as int) + fragment_width(gs[j as int], col_of(gs, j as int)));
            }
            let left = self.fragments[j].left_col_width();
            let right = left + self.fragments[j].width();
            if lo <= left && right <= hi {
                let t = self.fragments[j].text();
                out.append(t);
            }
            assert(out@ =~= left_mark + shown_within(gs, lo as int, hi as int, j + 1));
            j = j + 1;
        }
        let k_hi = self.first_right_from(hi, true, 0);
        if hi < w && self.col_at(k_hi) < hi {
            proof {
                reveal_strlit("»");
            }
            out.append("»");
        }
        assert(out@ =~= str_by_col_range(self@, start as int, end as int));
        out
    }

    pub fn get_fragment_by_col_idx(&self, col_idx: usize) -> (r: Option<&TextFragment>)
        requires
            self.wf(),
        ensures
            ({
                let gs = graphemes_of(self@);
                let k = cluster_at_col(gs, col_idx as int);
                &&& k == gs.len() ==> r is None
                &&& k < gs.len() ==> (r matches Some(f) && f@ == fragment_of(gs[k], col_of(gs, k)))
            }),
    {
        let k = self.first_right_from(col_idx, true, 0);
        if k < self.fragments.len() {
            Some(&self.fragments[k])
        } else {
            None
        }
    }

    pub fn grapheme_idx_to_col_idx(&self, grapheme_idx: usize) -> (r: usize)
        requires
            self.wf(),
        ensures
            r == col_of(
                graphemes_of(self@),
                if grapheme_idx < graphemes_of(self@).len() {
                    grapheme_idx as int
                } else {
                    graphemes_of(self@).len() as int
                },
            ),
    {
        if grapheme_idx < self.fragments.len() {
            self.col_at(grapheme_idx)
        } else {
            self.col_width
        }
    }

    /// The index of the cluster whose columns hold column `col_idx`; the
    /// cluster count where `col_idx` is at or past the end.
    pub fn grapheme_idx_at_col(&self, col_idx: usize) -> (r: usize)
        requires
            self.wf(),
        ensures
            r as int == cluster_at_col(graphemes_of(self@), col_idx as int),
            r <= graphemes_of(self@).len(),
    {
        self.first_right_from(col_idx, true, 0)
    }

    pub fn col_idx_to_grapheme_idx(&self, col_idx: usize) -> (r: usize)
        requires
            self.wf(),
        ensures
            r as int == col_to_grapheme(self@, col_idx as int),
    {
        self.first_left_reaching(col_idx)
    }

    pub fn split_off(&mut self, at_col_idx: usize) -> (r: Self)
        requires
            old(self).wf(),
        ensures
            final(self).wf(),
            r.wf(),
            ({
                let gs = graphemes_of(old(self)@);
                let k = col_to_grapheme(old(self)@, at_col_idx as int);
                &&& final(self)@ == concat(gs.take(k))
                &&& r@ == concat(gs.skip(k))
            }),
    {
        let ghost gs = graphemes_of(self@);
        let k = self.first_left_reaching(at_col_idx);
        let off = self.char_offset(k);
        let len = self.string.as_str().unicode_len();
        proof {
            lemma_concat_split(gs, k as int);
        }
        let head = String::from_str(self.string.as_str().substring_char(0, off));
        let tail = self.string.as_str().substring_char(off, len);
        assert(head@ =~= concat(gs.take(k as int)));
        assert(tail@ =~= concat(gs.skip(k as int)));
        let remainder = Line::from(tail);
        self.string = head;
        self.rebuild_fragments();
        remainder
    }

    pub fn insert(&mut self, at_col_idx: usize, string: &str)
        requires
            old(self).wf(),
            fits_columns(old(self)@.len() + string@.len()),
        ensures
            final(self).wf(),
            final(self)@ == insert_at(old(self)@, col_to_grapheme(old(self)@, at_col_idx as int), string@),
    {
        let ghost gs = graphemes_of(self@);
        let k = self.first_left_reaching(at_col_idx);
        let off = self.char_offset(k);
        let len = self.string.as_str().unicode_len();
        proof {
            lemma_concat_split(gs, k as int);
        }
        let mut joined = String::from_str(self.string.as_str().substring_char(0, off));
        joined.append(string);
        joined.append(self.string.as_str().substring_char(off, len));
        assert(joined@ =~= concat(gs.take(k as int)) + string@ + concat(gs.skip(k as int)));
        self.string = joined;
        self.rebuild_fragments();
    }

    pub fn append(&mut self, other: &Self)
        requires
            old(self).wf(),
            fits_columns(old(self)@.len() + other@.len()),
        ensures
            final(self).wf(),
            final(self)@ == old(self)@ + other@,
    {
        self.string.append(other.string.as_str());
        self.rebuild_fragments();
    }

    pub fn remove(&mut self, start_grapheme_idx: usize, grapheme_count: usize)
        requires
            old(self).wf(),
        ensures
            final(self).wf(),
            final(self)@ == remove_clusters(old(self)@, start_grapheme_idx as int, grapheme_count as int),
    {
        let ghost gs = graphemes_of(self@);
        let n = self.fragments.len();
        if start_grapheme_idx < n {
            let end = if grapheme_count < n - start_grapheme_idx {
                start_grapheme_idx + grapheme_count
            } else {
                n
            };
            let a = self.char_offset(start_grapheme_idx);
            let b = self.char_offset(end);
            let len = self.string.as_str().unicode_len();
            proof {
                lemma_concat_split(gs, start_grapheme_idx as int);
                lemma_concat_split(gs, end as int);
                lemma_concat_split(gs.take(end as int), start_grapheme_idx as int);
                assert(gs.take(end as int).take(start_grapheme_idx as int) =~= gs.take(start_grapheme_idx as int));
            }
            let mut joined = String::from_str(self.string.as_str().substring_char(0, a));
            joined.append(self.string.as_str().substring_char(b, len));
            assert(joined@ =~= concat(gs.take(start_grapheme_idx as int)) + concat(gs.skip(end as int)));
            self.string = joined;
            self.rebuild_fragments();
        }
    }
}

/// The widths of a line's fragments add up to the line's width.
pub proof fn lemma_fragment_widths_sum(s: Seq<char>)
    ensures
        sum_widths(fragment_views(s)) == line_width(s),
{
    let gs = graphemes_of(s);
    lemma_widths_prefix(gs, gs.len() as int);
    assert(fragment_views(s).take(gs.len() as int) =~= fragment_views(s));
}

proof fn lemma_widths_prefix(gs: Seq<Seq<char>>, k: int)
    requires
        0 <= k <= gs.len(),
    ensures
        sum_widths(Seq::new(gs.len(), |i: int| fragment_of(gs[i], col_of(gs, i))).take(k)) == col_of(gs, k),
    decreases k,
{
    let fv = Seq::new(gs.len(), |i: int| fragment_of(gs[i], col_of(gs, i)));
    if k > 0 {
        lemma_widths_prefix(gs, k - 1);
        assert(fv.take(k).drop_last() =~= fv.take(k - 1));
    }
}

/// Putting a run of clusters into a line and then taking out as many
/// clusters at the same index gives the line back, provided the run stays
/// whole: the clusters of the new content are those before the index, the
/// run, then those after.
pub proof fn lemma_insert_then_remove(line: Line, at_col_idx: usize, run: Seq<Seq<char>>)
    requires
        line.wf(),
        ({
            let gs = graphemes_of(line@);
            let k = col_to_grapheme(line@, at_col_idx as int);
            graphemes_of(insert_at(line@, k, concat(run))) == gs.take(k) + run + gs.skip(k)
        }),
    ensures
        ({
            let k = col_to_grapheme(line@, at_col_idx as int);
            remove_clusters(insert_at(line@, k, concat(run)), k, run.len() as int) == line@
        }),
{
    let s = line@;
    let gs = graphemes_of(s);
    let k = col_to_grapheme(s, at_col_idx as int);
    lemma_first_left_range(gs, at_col_idx as int, 0);
    let m = insert_at(s, k, concat(run));
    let gs2 = graphemes_of(m);
    lemma_concat_split(gs, k);
    if k < gs2.len() {
        assert(gs2.take(k) =~= gs.take(k));
        assert(gs2.skip(k + run.len()) =~= gs.skip(k));
    } else {
        assert(run.len() == 0);
        assert(run =~= Seq::<Seq<char>>::empty());
        assert(m =~= s);
    }
}

/// A column before the end of a line lies in one of its clusters.
pub proof fn lemma_cluster_found(gs: Seq<Seq<char>>, c: int, i: int)
    requires
        0 <= i < gs.len(),
        col_of(gs, gs.len() as int) >= c,
    ensures
        i <= first_right_at_least(gs, c, i) < gs.len(),
    decreases gs.len() - i,
{
    if col_of(gs, i + 1) < c {
        lemma_cluster_found(gs, c, i + 1);
    }
}

pub proof fn lemma_first_right_range(gs: Seq<Seq<char>>, col: int, i: int)
    requires
        0 <= i <= gs.len(),
    ensures
        i <= first_right_at_least(gs, col, i) <= gs.len(),
    decreases gs.len() - i,
{
    if i < gs.len() && col_of(gs, i + 1) < col {
        lemma_first_right_range(gs, col, i + 1);
    }
}

pub proof fn lemma_first_left_range(gs: Seq<Seq<char>>, col: int, i: int)
    requires
        0 <= i,
    ensures
        i <= first_left_at_least(gs, col, i) <= gs.len() || (i > gs.len() && first_left_at_least(gs, col, i) == gs.len()),
    decreases gs.len() - i,
{
    if i < gs.len() && col_of(gs, i) < col {
        lemma_first_left_range(gs, col, i + 1);
    }
}

} // verus!
