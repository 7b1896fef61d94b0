//! The status line: what is known of the document, laid out in one row.
use crate::file_info::FileType;
use crate::mode::{mode_name, Mode};
use crate::position::sat_sub;
use crate::text_fragment::spaces;
use crate::unicode::{display_width, option_view, str_width};
use crate::buffer::{row_accepted, row_refused};
use vstd::prelude::*;
use vstd::string::*;

verus! {

pub open spec fn digit_char(d: int) -> char {
    seq!['0', '1', '2', '3', '4', '5', '6', '7', '8', '9'][d]
}

/// The decimal digits of `n`.
pub open spec fn decimal(n: nat) -> Seq<char>
    decreases n,
{
    if n < 10 {
        seq![digit_char(n as int)]
    } else {
        decimal(n / 10).push(digit_char((n % 10) as int))
    }
}

/// Relies on `usize`'s `to_string`: the decimal digits of `n`.
#[verifier::external_body]
pub(crate) fn decimal_string(n: usize) -> (r: String)
    ensures
        r@ == decimal(n as nat),
{
    n.to_string()
}

pub open spec fn file_type_label(t: Option<FileType>) -> Seq<char> {
    match t {
        Some(FileType::Rust) => seq!['R', 'u', 's', 't'],
        Some(FileType::Text) => seq!['T', 'e', 'x', 't'],
        Some(FileType::Gitignore) => seq!['G', 'i', 't', 'i', 'g', 'n', 'o', 'r', 'e'],
        Some(FileType::Gitcommit) => seq!['G', 'i', 't', 'c', 'o', 'm', 'm', 'i', 't'],
        Some(FileType::Vim) => seq!['V', 'i', 'm'],
        None => seq!['N', 'o', ' ', 'T', 'y', 'p', 'e'],
    }
}

pub open spec fn bar() -> Seq<char> {
    seq![' ', '|', ' ']
}

/// A snapshot of the document for the status line.
pub struct DocumentStatus {
    pub file_name: Option<String>,
    pub file_type: Option<FileType>,
    pub total_lines: usize,
    pub total_cols: usize,
    pub current_line_idx: usize,
    pub current_col_idx: usize,
    pub modified: bool,
    pub mode: Mode,
}

impl Default for DocumentStatus {
    fn default() -> (r: Self)
        ensures
            r.file_name is None,
            r.file_type is None,
            r.total_lines == 0 && r.total_cols == 0,
            r.current_line_idx == 0 && r.current_col_idx == 0,
            !r.modified,
            r.mode == Mode::Normal,
    {
        DocumentStatus {
            file_name: None,
            file_type: None,
            total_lines: 0,
            total_cols: 0,
            current_line_idx: 0,
            current_col_idx: 0,
            modified: false,
            mode: Mode::Normal,
        }
    }
}

impl DocumentStatus {
    pub open spec fn file_name_text(&self) -> Seq<char> {
        match self.file_name {
            Some(n) => n@,
            None => seq!['N', 'o', ' ', 'N', 'a', 'm', 'e'],
        }
    }

    pub open spec fn modified_text(&self) -> Seq<char> {
        if self.modified {
            seq!['(', 'm', 'o', 'd', 'i', 'f', 'i', 'e', 'd', ')']
        } else {
            Seq::empty()
        }
    }

    pub open spec fn same(&self, other: &Self) -> bool {
        &&& option_view(self.file_name) == option_view(other.file_name)
        &&& self.file_type == other.file_type
        &&& self.total_lines == other.total_lines
        &&& self.total_cols == other.total_cols
        &&& self.current_line_idx == other.current_line_idx
        &&& self.current_col_idx == other.current_col_idx
        &&& self.modified == other.modified
        &&& self.mode == other.mode
    }

    /// The status of the editor's current document and cursor.
    pub fn from(editor: &crate::editor::Editor) -> (r: Self)
        requires
            editor.wf(),
        ensures
            ({
                let view = editor.view_at();
                &&& option_view(r.file_name) == match view.buffer.file_info.path_view() {
                    Some(p) => crate::file_info::file_name_of(p),
                    None => None,
                }
                &&& r.file_type == view.buffer.file_info.file_type_view()
                &&& r.total_lines == view.buffer.lines@.len()
                &&& r.total_cols == crate::cursor::width_at(view.buffer.contents(), view.cursor@.line_idx as int)
                &&& r.current_line_idx == view.cursor@.line_idx
                &&& r.current_col_idx == view.cursor@.col_idx
                &&& r.modified == (view.buffer.modified_count != 0)
                &&& r.mode == editor.mode
            }),
    {
        let view = editor.current_view();
        assert(editor.views@[editor.current_view_idx as int].wf());
        let line_idx = view.cursor.line_idx();
        DocumentStatus {
            file_name: view.buffer.file_info.get_file_name(),
            file_type: view.buffer.file_info.get_file_type(),
            total_lines: view.buffer.get_lines_count(),
            total_cols: view.buffer.get_line_col_width(line_idx),
            current_line_idx: line_idx,
            current_col_idx: view.cursor.col_idx(),
            modified: view.buffer.modified_count != 0,
            mode: editor.mode,
        }
    }

    /// Whether two snapshots hold the same facts.
    pub fn same_as(&self, other: &Self) -> (r: bool)
        ensures
            r == self.same(other),
    {
        let names = match (&self.file_name, &other.file_name) {
            (Some(a), Some(b)) => a.eq(b),
            (None, None) => true,
            _ => false,
        };
        let types = match (self.file_type, other.file_type) {
            (Some(a), Some(b)) => a == b,
            (None, None) => true,
            _ => false,
        };
        names && types && self.total_lines == other.total_lines
            && self.total_cols == other.total_cols && self.current_line_idx == other.current_line_idx
            && self.current_col_idx == other.current_col_idx && self.modified == other.modified
            && self.mode == other.mode
    }

    pub fn file_name_string(&self) -> (r: String)
        ensures
            r@ == self.file_name_text(),
    {
        proof {
            reveal_strlit("No Name");
        }
        match &self.file_name {
            Some(n) => n.clone(),
            None => {
                assert("No Name"@ =~= seq!['N', 'o', ' ', 'N', 'a', 'm', 'e']);
                String::from_str("No Name")
            },
        }
    }

    pub fn modified_string(&self) -> (r: String)
        ensures
            r@ == self.modified_text(),
    {
        proof {
            reveal_strlit("(modified)");
        }
        if self.modified {
            assert("(modified)"@ =~= seq!['(', 'm', 'o', 'd', 'i', 'f', 'i', 'e', 'd', ')']);
            String::from_str("(modified)")
        } else {
            String::new()
        }
    }

    pub fn file_type_string(&self) -> (r: String)
        ensures
            r@ == file_type_label(self.file_type),
    {
        proof {
            reveal_strlit("Rust");
            reveal_strlit("Text");
            reveal_strlit("Gitignore");
            reveal_strlit("Gitcommit");
            reveal_strlit("Vim");
            reveal_strlit("No Type");
        }
        let name = match self.file_type {
            Some(FileType::Rust) => "Rust",
            Some(FileType::Text) => "Text",
            Some(FileType::Gitignore) => "Gitignore",
            Some(FileType::Gitcommit) => "Gitcommit",
            Some(FileType::Vim) => "Vim",
            None => "No Type",
        };
        assert(name@ =~= file_type_label(self.file_type));
        String::from_str(name)
    }

    /// The cursor's line and the line count, as `line/count`.
    pub fn lines_info_string(&self) -> (r: String)
        ensures
            r@ == decimal(self.current_line_idx as nat) + seq!['/'] + decimal(self.total_lines as nat),
    {
        fraction(self.current_line_idx, self.total_lines)
    }

    /// The cursor's column and the line's width, as `column/width`.
    pub fn cols_info_string(&self) -> (r: String)
        ensures
            r@ == decimal(self.current_col_idx as nat) + seq!['/'] + decimal(self.total_cols as nat),
    {
        fraction(self.current_col_idx, self.total_cols)
    }
}

fn fraction(a: usize, b: usize) -> (r: String)
    ensures
        r@ == decimal(a as nat) + seq!['/'] + decimal(b as nat),
{
    proof {
        reveal_strlit("/");
    }
    assert("/"@ =~= seq!['/']);
    let mut r = decimal_string(a);
    r.append("/");
    let tail = decimal_string(b);
    r.append(tail.as_str());
    r
}

/// The left part of the status line: mode, file name, modified mark.
pub open spec fn left_text(ds: DocumentStatus) -> Seq<char> {
    seq![' '] + mode_name(ds.mode) + bar() + ds.file_name_text() + seq![' '] + ds.modified_text()
}

/// The right part of the status line: file type, line and column info.
pub open spec fn right_text(ds: DocumentStatus) -> Seq<char> {
    file_type_label(ds.file_type) + bar() + decimal(ds.current_line_idx as nat) + seq!['/'] + decimal(
        ds.total_lines as nat,
    ) + seq!['|'] + decimal(ds.current_col_idx as nat) + seq!['/'] + decimal(ds.total_cols as nat) + seq![' ']
}

/// `s` with spaces put before it to make it `n` characters long, if it is
/// shorter.
pub open spec fn pad_left(s: Seq<char>, n: nat) -> Seq<char> {
    if s.len() < n {
        spaces((n - s.len()) as nat) + s
    } else {
        s
    }
}

/// The status line for a bar `width` columns wide: the left part, a space,
/// the right part pushed to the right, all cut to `width` characters.
pub open spec fn status_text(ds: DocumentStatus, width: usize) -> Seq<char> {
    let left = left_text(ds);
    let room = sat_sub(sat_sub(width, display_width(left) as usize), 1);
    let full = left + seq![' '] + pad_left(right_text(ds), room as nat);
    if full.len() > width {
        full.take(width as int)
    } else {
        full
    }
}

pub struct StatusBar {
    pub document_status: DocumentStatus,
    pub needs_redraw: bool,
    pub width: usize,
}

impl Default for StatusBar {
    fn default() -> (r: Self)
        ensures
            !r.needs_redraw,
            r.width == 0,
            r.document_status.file_name is None,
            r.document_status.mode == Mode::Normal,
    {
        StatusBar { document_status: DocumentStatus::default(), needs_redraw: false, width: 0 }
    }
}

impl StatusBar {
    pub fn new(width: usize) -> (r: Self)
        ensures
            r.needs_redraw,
            r.width == width,
            r.document_status.file_name is None,
            r.document_status.mode == Mode::Normal,
    {
        StatusBar { document_status: DocumentStatus::default(), needs_redraw: true, width }
    }

    /// Takes a new snapshot; a redraw is due if it differs from the last.
    pub fn update_status(&mut self, status: DocumentStatus)
        ensures
            final(self).document_status == status,
            final(self).needs_redraw == (old(self).needs_redraw || !old(self).document_status.same(&status)),
            final(self).width == old(self).width,
    {
        if !self.document_status.same_as(&status) {
            self.needs_redraw = true;
        }
        self.document_status = status;
    }

    pub fn set_size(&mut self, width: usize)
        ensures
            final(self).width == width,
            final(self).needs_redraw,
            final(self).document_status == old(self).document_status,
    {
        self.width = width;
        self.needs_redraw = true;
    }

    /// The text of the status line.
    pub fn status_line(&self) -> (r: String)
        ensures
            r@ == status_text(self.document_status, self.width),
    {
        let ds = &self.document_status;
        proof {
            reveal_strlit(" ");
            reveal_strlit(" | ");
            reveal_strlit("|");
        }
        assert(" "@ =~= seq![' ']);
        assert(" | "@ =~= bar());
        assert("|"@ =~= seq!['|']);
        let mut left = String::from_str(" ");
        left.append(ds.mode.name());
        left.append(" | ");
        let name = ds.file_name_string();
        left.append(name.as_str());
        left.append(" ");
        let modified = ds.modified_string();
        left.append(modified.as_str());
        assert(left@ =~= left_text(*ds));
        let mut right = ds.file_type_string();
        right.append(" | ");
        let lines = ds.lines_info_string();
        right.append(lines.as_str());
        right.append("|");
        let cols = ds.cols_info_string();
        right.append(cols.as_str());
        right.append(" ");
        assert(right@ =~= right_text(*ds));
        let room = self.width.saturating_sub(str_width(left.as_str())).saturating_sub(1);
        let mut full = left;
        full.append(" ");
        let right_len = right.as_str().unicode_len();
        let mut pad: usize = right_len;
        let ghost before = full@;
        while pad < room
            invariant
                right_len == right@.len(),
                right_len <= pad <= room || (pad == right_len && right_len >= room),
                full@ == before + spaces((pad - right_len) as nat),
            decreases room - pad,
        {
            proof {
                reveal_strlit(" ");
            }
            assert(" "@ =~= seq![' ']);
            full.append(" ");
            assert(full@ =~= before + spaces((pad + 1 - right_len) as nat));
            pad = pad + 1;
        }
        full.append(right.as_str());
        assert(full@ =~= left_text(*ds) + seq![' '] + pad_left(right_text(*ds), room as nat));
        let n = full.as_str().unicode_len();
        if n > self.width {
            String::from_str(full.as_str().substring_char(0, self.width))
        } else {
            full
        }
    }

    /// Hands the status line to `printer` for row `line_idx` when a redraw is
    /// due; a successful print clears the redraw flag.
    pub fn render<E, F: Fn(usize, &str) -> Result<(), E>>(&mut self, line_idx: usize, printer: F) -> (r: Result<(), E>)
        requires
            forall|row: usize, text: &str| printer.requires((row, text)),
        ensures
            r is Ok ==> !final(self).needs_redraw,
            r is Err ==> final(self).needs_redraw == old(self).needs_redraw,
            !old(self).needs_redraw ==> r is Ok,
            old(self).needs_redraw && r is Ok ==> row_accepted(printer, line_idx as int, status_text(old(self).document_status, old(self).width)),
            old(self).needs_redraw ==> (r matches Err(e) ==> row_refused(printer, line_idx as int, status_text(old(self).document_status, old(self).width), e)),
            final(self).document_status == old(self).document_status,
            final(self).width == old(self).width,
    {
        if !self.needs_redraw {
            return Ok(());
        }
        let text = self.status_line();
        let t = text.as_str();
        let res = printer(line_idx, t);
        assert(printer.ensures((line_idx, t), res));
        assert(((line_idx as int) as usize) == line_idx);
        match res {
            Ok(()) => {
                assert(row_accepted(printer, line_idx as int, t@));
            },
            Err(e) => {
                assert(row_refused(printer, line_idx as int, t@, e));
                return Err(e);
            },
        }
        self.needs_redraw = false;
        Ok(())
    }
}

} // verus!
