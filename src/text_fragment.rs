//! One grapheme cluster together with how it is shown on a terminal.
use crate::unicode::{char_to_string, display_width, option_view, str_width};
use vstd::prelude::*;
use vstd::string::*;

verus! {

/// Tab stops are this many columns apart.
pub const TAB_WIDTH: usize = 4;

/// The columns that a tab takes when its left edge is at column `left`.
pub open spec fn tab_width(left: nat) -> nat {
    (TAB_WIDTH - left % (TAB_WIDTH as nat)) as nat
}

/// A control code point (general category Cc): C0, DEL and C1.
pub open spec fn is_control(c: char) -> bool {
    (c as u32) < 0x20 || (0x7f <= (c as u32) && (c as u32) < 0xa0)
}

/// The letter that follows the caret in caret notation (`\x01` is `^A`).
pub open spec fn caret_letter(c: char) -> char {
    ((c as u32 + 64) as u8) as char
}

pub open spec fn spaces(n: nat) -> Seq<char> {
    Seq::new(n, |i: int| ' ')
}

pub open spec fn is_single(g: Seq<char>, c: char) -> bool {
    g.len() == 1 && g[0] == c
}

/// The glyphs shown in place of a cluster, if any.
pub open spec fn replacement_of(g: Seq<char>, left: nat) -> Option<Seq<char>> {
    if is_single(g, ' ') {
        None
    } else if is_single(g, '\t') {
        Some(seq!['→'] + spaces((tab_width(left) - 1) as nat))
    } else if is_single(g, '\u{a0}') || is_single(g, '\u{202f}') {
        Some(seq!['␣'])
    } else if display_width(g) == 0 {
        Some(seq!['·'])
    } else if g.len() == 1 && is_control(g[0]) {
        Some(seq!['^', caret_letter(g[0])])
    } else {
        None
    }
}

/// The columns that a cluster takes. Each replacement glyph is one column
/// wide; a cluster shown as itself takes one column if it is narrow, else two.
pub open spec fn fragment_width(g: Seq<char>, left: nat) -> nat {
    match replacement_of(g, left) {
        Some(r) => r.len(),
        None => if display_width(g) <= 1 {
            1
        } else {
            2
        },
    }
}

/// What is shown for a cluster: its replacement if it has one, else itself.
pub open spec fn shown_text(g: Seq<char>, left: nat) -> Seq<char> {
    match replacement_of(g, left) {
        Some(r) => r,
        None => g,
    }
}

/// The abstract value of a fragment.
pub struct FragmentView {
    pub grapheme: Seq<char>,
    pub width: nat,
    pub left_col_width: nat,
    pub replacement: Option<Seq<char>>,
}

pub open spec fn fragment_of(g: Seq<char>, left: nat) -> FragmentView {
    FragmentView {
        grapheme: g,
        width: fragment_width(g, left),
        left_col_width: left,
        replacement: replacement_of(g, left),
    }
}

pub proof fn lemma_fragment_width_bounds(g: Seq<char>, left: nat)
    ensures
        1 <= fragment_width(g, left) <= TAB_WIDTH,
{
}

pub struct TextFragment {
    grapheme: String,
    width: usize,
    left_col_width: usize,
    replacement: Option<String>,
}

impl View for TextFragment {
    type V = FragmentView;

    closed spec fn view(&self) -> FragmentView {
        FragmentView {
            grapheme: self.grapheme@,
            width: self.width as nat,
            left_col_width: self.left_col_width as nat,
            replacement: option_view(self.replacement),
        }
    }
}

fn is_single_char(s: &str, c: char) -> (r: bool)
    ensures
        r == is_single(s@, c),
{
    s.unicode_len() == 1 && s.get_char(0) == c
}

pub open spec fn views_of(v: Seq<TextFragment>) -> Seq<FragmentView> {
    v.map_values(|f: TextFragment| f@)
}

/// Whether a cluster is a space or a tab.
pub fn is_blank(g: &str) -> (r: bool)
    ensures
        r == (is_single(g@, ' ') || is_single(g@, '\t')),
{
    is_single_char(g, ' ') || is_single_char(g, '\t')
}

impl TextFragment {
    /// The fragment for cluster `grapheme` whose left edge is at column
    /// `left_col_width`.
    pub fn new(grapheme: &str, left_col_width: usize) -> (r: Self)
        ensures
            r@ == fragment_of(grapheme@, left_col_width as nat),
    {
        let replacement = Self::get_replacement(grapheme, left_col_width);
        let width = match &replacement {
            Some(r) => r.as_str().unicode_len(),
            None => if str_width(grapheme) <= 1 {
                1
            } else {
                2
            },
        };
        TextFragment { grapheme: String::from_str(grapheme), width, left_col_width, replacement }
    }

    fn get_replacement(grapheme: &str, left_col_width: usize) -> (r: Option<String>)
        ensures
            option_view(r) == replacement_of(grapheme@, left_col_width as nat),
    {
        if is_single_char(grapheme, ' ') {
            return None;
        }
        if is_single_char(grapheme, '\t') {
            let g_width = TAB_WIDTH - left_col_width % TAB_WIDTH;
            proof {
                reveal_strlit("→");
                reveal_strlit(" ");
            }
            let mut s = String::from_str("→");
            let mut i: usize = 1;
            while i < g_width
                invariant
                    1 <= i <= g_width,
                    g_width == tab_width(left_col_width as nat),
                    s@ == seq!['→'] + spaces((i - 1) as nat),
                decreases g_width - i,
            {
                proof {
                    reveal_strlit(" ");
                }
                assert(" "@ =~= seq![' ']);
                s.append(" ");
                assert(s@ =~= seq!['→'] + spaces(i as nat));
                i = i + 1;
            }
            return Some(s);
        }
        if is_single_char(grapheme, '\u{a0}') || is_single_char(grapheme, '\u{202f}') {
            proof {
                reveal_strlit("␣");
            }
            return Some(String::from_str("␣"));
        }
        if str_width(grapheme) == 0 {
            proof {
                reveal_strlit("·");
            }
            return Some(String::from_str("·"));
        }
        if grapheme.unicode_len() == 1 {
            let c = grapheme.get_char(0);
            let code = c as u32;
            if code < 0x20 || (0x7f <= code && code < 0xa0) {
                let letter = ((code + 64) as u8) as char;
                proof {
                    reveal_strlit("^");
                }
                let mut s = String::from_str("^");
                let tail = char_to_string(letter);
                s.append(tail.as_str());
                assert(s@ =~= seq!['^', caret_letter(c)]);
                return Some(s);
            }
        }
        None
    }

    pub fn grapheme(&self) -> (r: &str)
        ensures
            r@ == self@.grapheme,
    {
        self.grapheme.as_str()
    }

    pub fn width(&self) -> (r: usize)
        ensures
            r == self@.width,
    {
        self.width
    }

    pub fn left_col_width(&self) -> (r: usize)
        ensures
            r == self@.left_col_width,
    {
        self.left_col_width
    }

    pub fn replacement(&self) -> (r: Option<&str>)
        ensures
            r matches Some(s) ==> self@.replacement == Some(s@),
            r is None ==> self@.replacement is None,
    {
        match &self.replacement {
            Some(s) => Some(s.as_str()),
            None => None,
        }
    }

    /// The text shown for this fragment: the replacement if there is one,
    /// else the grapheme.
    pub fn text(&self) -> (r: &str)
        ensures
            r@ == match self@.replacement {
                Some(s) => s,
                None => self@.grapheme,
            },
    {
        match &self.replacement {
            Some(s) => s.as_str(),
            None => self.grapheme.as_str(),
        }
    }
}

} // verus!
