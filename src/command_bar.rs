//! The one-line prompt where commands and search queries are typed.
use crate::mode::Mode;
use crate::unicode::{char_to_string, display_width, str_width};
use crate::buffer::{row_accepted, row_refused};
use vstd::prelude::*;
use vstd::string::*;

verus! {

pub open spec fn prompt_of(mode: Mode) -> Seq<char> {
    if mode == Mode::Command {
        seq![':']
    } else {
        seq!['/']
    }
}

pub struct CommandBar {
    pub prompt: String,
    pub value: String,
    pub needs_redraw: bool,
    pub caret_col: usize,
    pub mode: Mode,
}

impl CommandBar {
    /// A bar for `mode`, which is `Command` (prompt `:`) or `Search` (`/`).
    pub fn new(mode: Mode) -> (r: Self)
        requires
            mode == Mode::Command || mode == Mode::Search,
        ensures
            r.prompt@ == prompt_of(mode),
            r.value@ == Seq::<char>::empty(),
            r.needs_redraw,
            r.caret_col == display_width(prompt_of(mode)),
            r.mode == mode,
    {
        proof {
            reveal_strlit(":");
            reveal_strlit("/");
        }
        let prompt = if mode == Mode::Command {
            ":"
        } else {
            "/"
        };
        assert(":"@ =~= seq![':']);
        assert("/"@ =~= seq!['/']);
        CommandBar {
            prompt: String::from_str(prompt),
            value: String::new(),
            needs_redraw: true,
            caret_col: str_width(prompt),
            mode,
        }
    }

    pub fn insert(&mut self, c: char)
        ensures
            final(self).value@ == old(self).value@.push(c),
            final(self).prompt@ == old(self).prompt@,
            final(self).needs_redraw,
            final(self).caret_col == display_width(final(self).prompt@ + final(self).value@),
            final(self).mode == old(self).mode,
    {
        let tail = char_to_string(c);
        self.value.append(tail.as_str());
        self.needs_redraw = true;
        let text = self.text();
        self.caret_col = str_width(text.as_str());
    }

    /// Takes back the last character typed, if any.
    pub fn delete_backward(&mut self)
        ensures
            final(self).value@ == if old(self).value@.len() > 0 {
                old(self).value@.drop_last()
            } else {
                old(self).value@
            },
            final(self).prompt@ == old(self).prompt@,
            final(self).needs_redraw,
            final(self).caret_col == display_width(final(self).prompt@ + final(self).value@),
            final(self).mode == old(self).mode,
    {
        let n = self.value.as_str().unicode_len();
        if n > 0 {
            let kept = String::from_str(self.value.as_str().substring_char(0, n - 1));
            assert(kept@ =~= old(self).value@.drop_last());
            self.value = kept;
        }
        self.needs_redraw = true;
        let text = self.text();
        self.caret_col = str_width(text.as_str());
    }

    pub fn value(&self) -> (r: &str)
        ensures
            r@ == self.value@,
    {
        self.value.as_str()
    }

    /// The prompt followed by what has been typed.
    pub fn text(&self) -> (r: String)
        ensures
            r@ == self.prompt@ + self.value@,
    {
        let mut r = self.prompt.clone();
        r.append(self.value.as_str());
        r
    }

    /// Hands the bar's text to `printer` for row `bottom_line` when a redraw
    /// is due; a successful print clears the redraw flag.
    pub fn render<E, F: Fn(usize, &str) -> Result<(), E>>(&mut self, bottom_line: usize, printer: F) -> (r: Result<(), E>)
        requires
            forall|row: usize, text: &str| printer.requires((row, text)),
        ensures
            r is Ok ==> !final(self).needs_redraw,
            r is Err ==> final(self).needs_redraw == old(self).needs_redraw,
            !old(self).needs_redraw ==> r is Ok,
            old(self).needs_redraw && r is Ok ==> row_accepted(printer, bottom_line as int, old(self).prompt@ + old(self).value@),
            old(self).needs_redraw ==> (r matches Err(e) ==> row_refused(printer, bottom_line as int, old(self).prompt@ + old(self).value@, e)),
            final(self).value@ == old(self).value@,
            final(self).prompt@ == old(self).prompt@,
            final(self).caret_col == old(self).caret_col,
            final(self).mode == old(self).mode,
    {
        if !self.needs_redraw {
            return Ok(());
        }
        let text = self.text();
        let t = text.as_str();
        let res = printer(bottom_line, t);
        assert(printer.ensures((bottom_line, t), res));
        assert(((bottom_line as int) as usize) == bottom_line);
        match res {
            Ok(()) => {
                assert(row_accepted(printer, bottom_line as int, t@));
            },
            Err(e) => {
                assert(row_refused(printer, bottom_line as int, t@, e));
                return Err(e);
            },
        }
        self.needs_redraw = false;
        Ok(())
    }
}

} // verus!
