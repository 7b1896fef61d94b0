//! The editor's state machine: which key does what in which mode. What needs
//! the terminal or the disk is handed back as effects for the caller to carry
//! out.
use crate::buffer::Buffer;
use crate::command_bar::CommandBar;
use crate::mode::Mode;
use crate::position::{sat_sub, Position};
use crate::size::Size;
use crate::status_bar::{decimal, decimal_string, StatusBar};
use crate::unicode::{char_to_string, same_text, trim, trimmed_of, upper_of, uppercase};
use crate::view::{delete_fits, position_of, typing_fits, MoveCode, ScrollCode};
use vstd::prelude::*;
use vstd::string::*;

verus! {

#[derive(Copy, Clone, PartialEq, Eq, Structural, Debug, Default)]
pub struct Modifiers {
    pub shift: bool,
    pub alt: bool,
    pub control: bool,
}

/// A key, as far as the editor tells keys apart.
#[derive(Copy, Clone, PartialEq, Eq, Structural, Debug)]
pub enum Key {
    Char(char),
    Enter,
    Tab,
    Backspace,
    Delete,
    Esc,
    Left,
    Right,
    Up,
    Down,
    Home,
    End,
    PageUp,
    PageDown,
    Other,
}

/// The name of a key before modifiers are added.
pub open spec fn key_base(k: Key) -> Seq<char> {
    match k {
        Key::Char(c) => if c == ' ' {
            "Space"@
        } else {
            seq![c]
        },
        Key::Enter => "CR"@,
        Key::Tab => "Tab"@,
        Key::Backspace => "BS"@,
        Key::Delete => "Del"@,
        Key::Esc => "Esc"@,
        Key::Left => "Left"@,
        Key::Right => "Right"@,
        Key::Up => "Up"@,
        Key::Down => "Down"@,
        Key::Home => "Home"@,
        Key::End => "End"@,
        Key::PageUp => "PageUp"@,
        Key::PageDown => "PageDown"@,
        Key::Other => "Other"@,
    }
}

/// Whether a key's name takes more than one byte in UTF-8.
pub open spec fn key_is_long(k: Key) -> bool {
    match k {
        Key::Char(c) => c == ' ' || (c as u32) >= 0x80,
        _ => true,
    }
}

/// The text a key press is known by: a one-byte character alone, else the
/// name with `S-`, `A-`, `C-` for the modifiers, in upper case and in angle
/// brackets (shift is named only on long names).
pub open spec fn key_string(k: Key, m: Modifiers) -> Seq<char> {
    let s1 = if m.shift && key_is_long(k) {
        "S-"@ + key_base(k)
    } else {
        key_base(k)
    };
    let s2 = if m.alt {
        "A-"@ + s1
    } else {
        s1
    };
    let s3 = if m.control {
        "C-"@ + s2
    } else {
        s2
    };
    if key_is_long(k) || m.alt || m.control {
        "<"@ + upper_of(s3) + ">"@
    } else {
        s3
    }
}

/// What a key does in normal mode.
#[derive(Copy, Clone, PartialEq, Eq, Structural, Debug)]
pub enum NormalCommand {
    QuitWithConfirm,
    Quit,
    Insert,
    Append,
    InsertAtStart,
    AppendAtEnd,
    OpenBelow,
    OpenAbove,
    DeleteChar,
    ShowCursorInfo,
    Save,
    EnterCommand,
    EnterSearch,
    SearchNext,
    SearchPrev,
    Scroll(ScrollCode),
    PageDown,
    PageUp,
    Move(MoveCode),
    Nothing,
}

pub open spec fn normal_command_of(k: Seq<char>) -> NormalCommand {
    if k == "q"@ {
        NormalCommand::QuitWithConfirm
    } else if k == "Q"@ {
        NormalCommand::Quit
    } else if k == "i"@ {
        NormalCommand::Insert
    } else if k == "a"@ {
        NormalCommand::Append
    } else if k == "I"@ {
        NormalCommand::InsertAtStart
    } else if k == "A"@ {
        NormalCommand::AppendAtEnd
    } else if k == "o"@ {
        NormalCommand::OpenBelow
    } else if k == "O"@ {
        NormalCommand::OpenAbove
    } else if k == "x"@ {
        NormalCommand::DeleteChar
    } else if k == "<C-G>"@ {
        NormalCommand::ShowCursorInfo
    } else if k == "<C-S>"@ {
        NormalCommand::Save
    } else if k == ":"@ {
        NormalCommand::EnterCommand
    } else if k == "/"@ {
        NormalCommand::EnterSearch
    } else if k == "n"@ {
        NormalCommand::SearchNext
    } else if k == "N"@ {
        NormalCommand::SearchPrev
    } else if k == "<S-LEFT>"@ {
        NormalCommand::Scroll(ScrollCode::Left(1))
    } else if k == "<S-RIGHT>"@ {
        NormalCommand::Scroll(ScrollCode::Right(1))
    } else if k == "<S-DOWN>"@ {
        NormalCommand::Scroll(ScrollCode::Down(1))
    } else if k == "<S-UP>"@ {
        NormalCommand::Scroll(ScrollCode::Up(1))
    } else if k == "<PAGEDOWN>"@ || k == "<C-F>"@ {
        NormalCommand::PageDown
    } else if k == "<PAGEUP>"@ || k == "<C-B>"@ {
        NormalCommand::PageUp
    } else if k == "<LEFT>"@ || k == "h"@ {
        NormalCommand::Move(MoveCode::Left)
    } else if k == "<HOME>"@ || k == "0"@ {
        NormalCommand::Move(MoveCode::FirstChar)
    } else if k == "H"@ {
        NormalCommand::Move(MoveCode::FirstNonBlank)
    } else if k == "<DOWN>"@ || k == "j"@ {
        NormalCommand::Move(MoveCode::Down)
    } else if k == "<UP>"@ || k == "k"@ {
        NormalCommand::Move(MoveCode::Up)
    } else if k == "<RIGHT>"@ || k == "l"@ {
        NormalCommand::Move(MoveCode::Right)
    } else if k == "<END>"@ || k == "L"@ {
        NormalCommand::Move(MoveCode::LastChar)
    } else if k == "g"@ {
        NormalCommand::Move(MoveCode::FirstLine)
    } else if k == "G"@ {
        NormalCommand::Move(MoveCode::LastLine)
    } else {
        NormalCommand::Nothing
    }
}

/// What a command line asks for.
#[derive(Debug)]
pub enum CommandLine {
    QuitWithConfirm,
    Quit,
    Write,
    WriteAs(String),
    Echo(String),
    Unknown(String),
}

/// The index of the first space in `s`; `s.len()` if there is none.
pub open spec fn space_index(s: Seq<char>, i: int) -> int
    decreases s.len() - i,
{
    if i >= s.len() {
        s.len() as int
    } else if s[i] == ' ' {
        i
    } else {
        space_index(s, i + 1)
    }
}

/// The command word of a command line and the rest after the first space.
pub open spec fn command_parts(s: Seq<char>) -> (Seq<char>, Seq<char>) {
    let i = space_index(s, 0);
    if i < s.len() {
        (s.take(i), s.skip(i + 1))
    } else {
        (s, Seq::empty())
    }
}

pub open spec fn command_line_of(line: Seq<char>) -> (Seq<char>, Seq<char>, int) {
    let (word, args) = command_parts(trimmed_of(line));
    let kind = if word == "q"@ || word == "quit"@ {
        0
    } else if word == "q!"@ || word == "quit!"@ {
        1
    } else if word == "w"@ || word == "write"@ {
        if args.len() == 0 {
            2
        } else {
            3
        }
    } else if word == "echo"@ {
        4
    } else {
        5
    };
    (word, args, kind)
}

/// The view of a parsed command line.
pub open spec fn command_line_view(c: CommandLine) -> (int, Seq<char>) {
    match c {
        CommandLine::QuitWithConfirm => (0, Seq::empty()),
        CommandLine::Quit => (1, Seq::empty()),
        CommandLine::Write => (2, Seq::empty()),
        CommandLine::WriteAs(p) => (3, p@),
        CommandLine::Echo(t) => (4, t@),
        CommandLine::Unknown(w) => (5, w@),
    }
}

/// The shape the terminal's caret should take.
#[derive(Copy, Clone, PartialEq, Eq, Structural, Debug)]
pub enum CaretShape {
    Default,
    Bar,
}

/// The caret shape for a mode.
pub open spec fn caret_for(mode: Mode) -> CaretShape {
    if mode == Mode::Normal {
        CaretShape::Default
    } else {
        CaretShape::Bar
    }
}

/// Work left to the caller after a key: a caret shape to set, a save of the
/// current buffer to its file.
#[derive(Copy, Clone, PartialEq, Eq, Structural, Debug, Default)]
pub struct Effects {
    pub caret: Option<CaretShape>,
    pub save: bool,
}

/// The mode after normal-mode command `cmd`.
pub open spec fn normal_mode_after(cmd: NormalCommand, mode: Mode) -> Mode {
    match cmd {
        NormalCommand::Insert | NormalCommand::Append | NormalCommand::InsertAtStart
        | NormalCommand::AppendAtEnd | NormalCommand::OpenBelow | NormalCommand::OpenAbove => Mode::Insert,
        NormalCommand::EnterCommand => Mode::Command,
        NormalCommand::EnterSearch => Mode::Search,
        _ => mode,
    }
}

/// Whether normal-mode command `cmd` switches mode.
pub open spec fn sets_mode(cmd: NormalCommand) -> bool {
    match cmd {
        NormalCommand::Insert | NormalCommand::Append | NormalCommand::InsertAtStart
        | NormalCommand::AppendAtEnd | NormalCommand::OpenBelow | NormalCommand::OpenAbove
        | NormalCommand::EnterCommand | NormalCommand::EnterSearch => true,
        _ => false,
    }
}

/// No modifier, or shift alone.
pub open spec fn plain(m: Modifiers) -> bool {
    !m.alt && !m.control
}

pub open spec fn no_modifier(m: Modifiers) -> bool {
    !m.shift && !m.alt && !m.control
}

/// Whether a key deletes backward in insert and command modes: backspace,
/// or control-h.
pub open spec fn is_backspace(k: Key, m: Modifiers) -> bool {
    (k == Key::Backspace && no_modifier(m)) || (k == Key::Char('h') && m == Modifiers {
        shift: false,
        alt: false,
        control: true,
    })
}

/// The fragment part of the cursor report: what the cluster under the
/// cursor shows, its width and its left edge.
pub open spec fn fragment_info(lines: Seq<Seq<char>>, pos: Position) -> Seq<char> {
    if pos.line_idx < lines.len() {
        let gs = crate::unicode::graphemes_of(lines[pos.line_idx as int]);
        let k = crate::line::cluster_at_col(gs, pos.col_idx as int);
        if k < gs.len() {
            let left = crate::line::col_of(gs, k);
            crate::text_fragment::shown_text(gs[k], left) + ", "@ + decimal(
                crate::text_fragment::fragment_width(gs[k], left),
            ) + ", "@ + decimal(left)
        } else {
            Seq::empty()
        }
    } else {
        Seq::empty()
    }
}

/// The start of the cursor report: cursor, caret on the screen, viewport
/// offset.
pub open spec fn cursor_info_head(v: crate::view::View) -> Seq<char> {
    let c = v.cursor@;
    "cursor: ("@ + decimal(c.line_idx as nat) + ", "@ + decimal(c.col_idx as nat) + ", "@ + decimal(
        c.col_want as nat,
    ) + "), screen: ("@ + decimal(sat_sub(c.line_idx, v.offset.line_idx) as nat) + ", "@ + decimal(
        sat_sub(c.col_idx, v.offset.col_idx) as nat,
    ) + "), off: ("@ + decimal(v.offset.line_idx as nat) + ", "@ + decimal(v.offset.col_idx as nat)
        + "), ["@
}

/// The cursor report: the start, then the fragment under the cursor.
pub open spec fn cursor_info(v: crate::view::View) -> Seq<char> {
    cursor_info_head(v) + fragment_info(v.buffer.contents(), position_of(v.cursor@)) + "]"@
}

pub struct Editor {
    pub should_quit: bool,
    pub views: Vec<crate::view::View>,
    pub current_view_idx: usize,
    pub mode: Mode,
    pub size: Size,
    pub message: Option<String>,
    pub command_bar: Option<CommandBar>,
    pub status_bar: StatusBar,
}

fn text(s: &str) -> (r: String)
    ensures
        r@ == s@,
{
    String::from_str(s)
}

impl Editor {
    pub open spec fn wf(&self) -> bool {
        &&& self.current_view_idx < self.views@.len()
        &&& forall|i: int| 0 <= i < self.views@.len() ==> #[trigger] self.views@[i].wf()
    }

    pub open spec fn view_at(&self) -> crate::view::View {
        self.views@[self.current_view_idx as int]
    }

    /// An editor over `buffer` on a screen of `size`, of which the last two
    /// rows hold the status line and the message line.
    pub fn new(buffer: Buffer, size: Size, message: &str) -> (r: Self)
        requires
            buffer.wf(),
        ensures
            r.wf(),
            r.view_at().buffer == buffer,
            r.view_at().size == (Size { width: size.width, height: sat_sub(size.height, 2) }),
            r.mode == Mode::Normal,
            !r.should_quit,
            r.size == size,
            r.message matches Some(m) && m@ == message@,
            r.command_bar is None,
    {
        let view_size = Size { width: size.width, height: size.height.saturating_sub(2) };
        let mut views = Vec::new();
        views.push(crate::view::View::new(buffer, view_size));
        Editor {
            should_quit: false,
            views,
            current_view_idx: 0,
            mode: Mode::Normal,
            size,
            message: Some(text(message)),
            command_bar: None,
            status_bar: StatusBar::new(size.width),
        }
    }

    pub fn current_view(&self) -> (r: &crate::view::View)
        requires
            self.wf(),
        ensures
            *r == self.view_at(),
    {
        &self.views[self.current_view_idx]
    }

    pub fn set_message(&mut self, message: &str)
        ensures
            final(self).message matches Some(m) && m@ == message@,
            final(self).views == old(self).views,
            final(self).current_view_idx == old(self).current_view_idx,
            final(self).mode == old(self).mode,
            final(self).should_quit == old(self).should_quit,
            final(self).command_bar == old(self).command_bar,
            final(self).status_bar == old(self).status_bar,
            final(self).size == old(self).size,
    {
        self.message = Some(text(message));
    }

    pub fn key_to_string(code: Key, modifiers: Modifiers) -> (r: String)
        ensures
            r@ == key_string(code, modifiers),
    {
        let mut result = match code {
            Key::Char(' ') => text("Space"),
            Key::Char(c) => char_to_string(c),
            Key::Enter => text("CR"),
            Key::Tab => text("Tab"),
            Key::Backspace => text("BS"),
            Key::Delete => text("Del"),
            Key::Esc => text("Esc"),
            Key::Left => text("Left"),
            Key::Right => text("Right"),
            Key::Up => text("Up"),
            Key::Down => text("Down"),
            Key::Home => text("Home"),
            Key::End => text("End"),
            Key::PageUp => text("PageUp"),
            Key::PageDown => text("PageDown"),
            Key::Other => text("Other"),
        };
        let long = match code {
            Key::Char(c) => c == ' ' || (c as u32) >= 0x80,
            _ => true,
        };
        if modifiers.shift && long {
            let mut s = text("S-");
            s.append(result.as_str());
            result = s;
        }
        if modifiers.alt {
            let mut s = text("A-");
            s.append(result.as_str());
            result = s;
        }
        if modifiers.control {
            let mut s = text("C-");
            s.append(result.as_str());
            result = s;
        }
        if long || modifiers.alt || modifiers.control {
            let mut s = text("<");
            let upper = uppercase(result.as_str());
            s.append(upper.as_str());
            s.append(">");
            s
        } else {
            result
        }
    }

    pub fn normal_command(key_repr: &str) -> (r: NormalCommand)
        ensures
            r == normal_command_of(key_repr@),
    {
        let k = key_repr;
        if same_text(k, "q") {
            NormalCommand::QuitWithConfirm
        } else if same_text(k, "Q") {
            NormalCommand::Quit
        } else if same_text(k, "i") {
            NormalCommand::Insert
        } else if same_text(k, "a") {
            NormalCommand::Append
        } else if same_text(k, "I") {
            NormalCommand::InsertAtStart
        } else if same_text(k, "A") {
            NormalCommand::AppendAtEnd
        } else if same_text(k, "o") {
            NormalCommand::OpenBelow
        } else if same_text(k, "O") {
            NormalCommand::OpenAbove
        } else if same_text(k, "x") {
            NormalCommand::DeleteChar
        } else if same_text(k, "<C-G>") {
            NormalCommand::ShowCursorInfo
        } else if same_text(k, "<C-S>") {
            NormalCommand::Save
        } else if same_text(k, ":") {
            NormalCommand::EnterCommand
        } else if same_text(k, "/") {
            NormalCommand::EnterSearch
        } else if same_text(k, "n") {
            NormalCommand::SearchNext
        } else if same_text(k, "N") {
            NormalCommand::SearchPrev
        } else if same_text(k, "<S-LEFT>") {
            NormalCommand::Scroll(ScrollCode::Left(1))
        } else if same_text(k, "<S-RIGHT>") {
            NormalCommand::Scroll(ScrollCode::Right(1))
        } else if same_text(k, "<S-DOWN>") {
            NormalCommand::Scroll(ScrollCode::Down(1))
        } else if same_text(k, "<S-UP>") {
            NormalCommand::Scroll(ScrollCode::Up(1))
        } else if same_text(k, "<PAGEDOWN>") || same_text(k, "<C-F>") {
            NormalCommand::PageDown
        } else if same_text(k, "<PAGEUP>") || same_text(k, "<C-B>") {
            NormalCommand::PageUp
        } else if same_text(k, "<LEFT>") || same_text(k, "h") {
            NormalCommand::Move(MoveCode::Left)
        } else if same_text(k, "<HOME>") || same_text(k, "0") {
            NormalCommand::Move(MoveCode::FirstChar)
        } else if same_text(k, "H") {
            NormalCommand::Move(MoveCode::FirstNonBlank)
        } else if same_text(k, "<DOWN>") || same_text(k, "j") {
            NormalCommand::Move(MoveCode::Down)
        } else if same_text(k, "<UP>") || same_text(k, "k") {
            NormalCommand::Move(MoveCode::Up)
        } else if same_text(k, "<RIGHT>") || same_text(k, "l") {
            NormalCommand::Move(MoveCode::Right)
        } else if same_text(k, "<END>") || same_text(k, "L") {
            NormalCommand::Move(MoveCode::LastChar)
        } else if same_text(k, "g") {
            NormalCommand::Move(MoveCode::FirstLine)
        } else if same_text(k, "G") {
            NormalCommand::Move(MoveCode::LastLine)
        } else {
            NormalCommand::Nothing
        }
    }

    /// Reads a command line: the trimmed text split at its first space into
    /// a command word and its argument.
    pub fn parse_command(line: &str) -> (r: CommandLine)
        ensures
            ({
                let (word, args, kind) = command_line_of(line@);
                &&& command_line_view(r).0 == kind
                &&& kind == 3 ==> command_line_view(r).1 == args
                &&& kind == 4 ==> command_line_view(r).1 == args
                &&& kind == 5 ==> command_line_view(r).1 == word
            }),
    {
        let trimmed = trim(line);
        let s = trimmed.as_str();
        let n = s.unicode_len();
        let mut i: usize = 0;
        while i < n && s.get_char(i) != ' '
            invariant
                n == s@.len(),
                i <= n,
                space_index(s@, 0) == space_index(s@, i as int),
            decreases n - i,
        {
            i = i + 1;
        }
        let (word, args) = if i < n {
            (s.substring_char(0, i), s.substring_char(i + 1, n))
        } else {
            (s, "")
        };
        proof {
            reveal_strlit("");
        }
        assert(word@ == command_parts(s@).0);
        assert(args@ =~= command_parts(s@).1);
        if same_text(word, "q") || same_text(word, "quit") {
            CommandLine::QuitWithConfirm
        } else if same_text(word, "q!") || same_text(word, "quit!") {
            CommandLine::Quit
        } else if same_text(word, "w") || same_text(word, "write") {
            if args.unicode_len() == 0 {
                CommandLine::Write
            } else {
                CommandLine::WriteAs(text(args))
            }
        } else if same_text(word, "echo") {
            CommandLine::Echo(text(args))
        } else {
            CommandLine::Unknown(text(word))
        }
    }

    /// Switches to `mode`; the command bar opens for command and search and
    /// closes in normal mode. Returns the caret shape for the mode.
    pub fn set_mode(&mut self, mode: Mode) -> (r: CaretShape)
        ensures
            final(self).mode == mode,
            r == caret_for(mode),
            mode == Mode::Normal ==> final(self).command_bar is None,
            (mode == Mode::Command || mode == Mode::Search) ==> (final(self).command_bar matches Some(
                b,
            ) && b.mode == mode && b.value@ == Seq::<char>::empty()),
            mode == Mode::Insert ==> final(self).command_bar == old(self).command_bar,
            final(self).views == old(self).views,
            final(self).current_view_idx == old(self).current_view_idx,
            final(self).should_quit == old(self).should_quit,
            final(self).message == old(self).message,
    {
        self.mode = mode;
        match mode {
            Mode::Normal => {
                self.command_bar = None;
                CaretShape::Default
            },
            Mode::Insert => CaretShape::Bar,
            Mode::Command | Mode::Search => {
                self.command_bar = Some(CommandBar::new(mode));
                CaretShape::Bar
            },
        }
    }

    /// Quits unless the buffer holds unsaved changes, which it reports.
    pub fn quit_with_confirm(&mut self)
        requires
            old(self).wf(),
        ensures
            final(self).should_quit == (old(self).should_quit || old(self).view_at().buffer.modified_count
                == 0),
            final(self).views == old(self).views,
            final(self).current_view_idx == old(self).current_view_idx,
            final(self).mode == old(self).mode,
    {
        if self.views[self.current_view_idx].buffer.modified_count == 0 {
            self.should_quit = true;
        } else {
            self.set_message("Unsaved changes.");
        }
    }

    /// Asks for a save when the buffer is bound to a file; else reports that
    /// it has no file name.
    pub fn save(&mut self) -> (r: Effects)
        requires
            old(self).wf(),
        ensures
            r.save == old(self).view_at().buffer.file_info.path_view() is Some,
            r.caret is None,
            final(self).views == old(self).views,
            final(self).current_view_idx == old(self).current_view_idx,
            final(self).mode == old(self).mode,
            final(self).should_quit == old(self).should_quit,
    {
        if self.views[self.current_view_idx].has_path() {
            Effects { caret: None, save: true }
        } else {
            self.set_message("Error: No file name");
            Effects { caret: None, save: false }
        }
    }

    /// Binds the buffer to `filename` and asks for a save.
    pub fn save_as(&mut self, filename: &str) -> (r: Effects)
        requires
            old(self).wf(),
        ensures
            final(self).wf(),
            r.save,
            r.caret is None,
            final(self).view_at().buffer.file_info.path_view() == Some(filename@),
            final(self).view_at().buffer.lines@ == old(self).view_at().buffer.lines@,
            final(self).current_view_idx == old(self).current_view_idx,
            final(self).mode == old(self).mode,
            final(self).should_quit == old(self).should_quit,
    {
        let idx = self.current_view_idx;
        assert(self.views@[idx as int].wf());
        self.views[idx].save_as(filename);
        proof {
            assert(self.views@[idx as int].wf());
            assert forall|i: int| 0 <= i < self.views@.len() implies #[trigger] self.views@[i].wf() by {
                if i != idx {
                    assert(self.views@[i] == old(self).views@[i]);
                }
            }
        }
        Effects { caret: None, save: true }
    }

    /// Reports how a save went.
    pub fn saved(&mut self, ok: bool)
        ensures
            final(self).message matches Some(m) && m@ == if ok {
                "File saved successfully"@
            } else {
                "Error: Saving file failed"@
            },
            final(self).views == old(self).views,
            final(self).current_view_idx == old(self).current_view_idx,
            final(self).mode == old(self).mode,
            final(self).should_quit == old(self).should_quit,
    {
        if ok {
            self.set_message("File saved successfully");
        } else {
            self.set_message("Error: Saving file failed");
        }
    }

    /// Carries out a command line.
    pub fn run_command(&mut self, prompt: &str) -> (r: Effects)
        requires
            old(self).wf(),
        ensures
            final(self).wf(),
            final(self).current_view_idx == old(self).current_view_idx,
            final(self).mode == old(self).mode,
            ({
                let (word, args, kind) = command_line_of(prompt@);
                &&& kind == 1 ==> final(self).should_quit
                &&& kind == 0 ==> final(self).should_quit == (old(self).should_quit
                    || old(self).view_at().buffer.modified_count == 0)
                &&& (kind == 2 || kind == 4 || kind == 5) ==> final(self).should_quit == old(self).should_quit
                &&& kind == 2 ==> r.save == old(self).view_at().buffer.file_info.path_view() is Some
                &&& kind == 3 ==> r.save && final(self).view_at().buffer.file_info.path_view() == Some(args)
                &&& kind == 4 ==> (final(self).message matches Some(m) && m@ == args)
                &&& kind == 5 ==> (final(self).message matches Some(m) && m@ == "Unknown command: "@ + word)
                &&& kind != 2 && kind != 3 ==> !r.save
                &&& r.caret is None
            }),
    {
        let none = Effects { caret: None, save: false };
        match Self::parse_command(prompt) {
            CommandLine::QuitWithConfirm => {
                self.quit_with_confirm();
                none
            },
            CommandLine::Quit => {
                self.should_quit = true;
                none
            },
            CommandLine::Write => self.save(),
            CommandLine::WriteAs(path) => self.save_as(path.as_str()),
            CommandLine::Echo(t) => {
                self.set_message(t.as_str());
                none
            },
            CommandLine::Unknown(word) => {
                let mut m = text("Unknown command: ");
                m.append(word.as_str());
                self.set_message(m.as_str());
                none
            },
        }
    }

    proof fn lemma_views_wf(a: Seq<crate::view::View>, b: Seq<crate::view::View>, idx: int)
        requires
            a.len() == b.len(),
            0 <= idx < a.len(),
            b[idx].wf(),
            forall|i: int| 0 <= i < a.len() && i != idx ==> b[i] == a[i],
            forall|i: int| 0 <= i < a.len() ==> #[trigger] a[i].wf(),
        ensures
            forall|i: int| 0 <= i < b.len() ==> #[trigger] b[i].wf(),
    {
        assert forall|i: int| 0 <= i < b.len() implies #[trigger] b[i].wf() by {
            if i != idx {
                assert(b[i] == a[i]);
            }
        }
    }

    /// Moves the current view's cursor.
    fn move_view(&mut self, code: MoveCode)
        requires
            old(self).wf(),
        ensures
            final(self).wf(),
            final(self).view_at().cursor@ == crate::view::moved(
                code,
                old(self).view_at().cursor@,
                old(self).view_at().buffer.contents(),
            ),
            final(self).view_at().buffer.lines@ == old(self).view_at().buffer.lines@,
            final(self).views@.len() == old(self).views@.len(),
            final(self).current_view_idx == old(self).current_view_idx,
            final(self).mode == old(self).mode,
            final(self).should_quit == old(self).should_quit,
            final(self).command_bar == old(self).command_bar,
            final(self).message == old(self).message,
    {
        let idx = self.current_view_idx;
        assert(self.views@[idx as int].wf());
        self.views[idx].move_position(code);
        proof {
            Self::lemma_views_wf(old(self).views@, self.views@, idx as int);
        }
    }

    /// Scrolls the current view.
    fn scroll_view(&mut self, code: ScrollCode)
        requires
            old(self).wf(),
        ensures
            final(self).wf(),
            final(self).view_at().buffer.lines@ == old(self).view_at().buffer.lines@,
            final(self).views@.len() == old(self).views@.len(),
            final(self).current_view_idx == old(self).current_view_idx,
            final(self).mode == old(self).mode,
            final(self).should_quit == old(self).should_quit,
            final(self).command_bar == old(self).command_bar,
    {
        let idx = self.current_view_idx;
        assert(self.views@[idx as int].wf());
        self.views[idx].scroll_screen(code);
        proof {
            Self::lemma_views_wf(old(self).views@, self.views@, idx as int);
        }
    }

    /// Types `c` at the cursor, moving the cursor on when `advance`; reports
    /// a line that would grow past its column limit instead.
    fn type_char(&mut self, c: char, advance: bool)
        requires
            old(self).wf(),
        ensures
            final(self).wf(),
            final(self).views@.len() == old(self).views@.len(),
            final(self).current_view_idx == old(self).current_view_idx,
            final(self).mode == old(self).mode,
            final(self).should_quit == old(self).should_quit,
            final(self).command_bar == old(self).command_bar,
    {
        let idx = self.current_view_idx;
        assert(self.views@[idx as int].wf());
        let line_idx = self.views[idx].cursor.line_idx();
        if line_idx < self.views[idx].buffer.lines.len() {
            let n = self.views[idx].buffer.lines[line_idx].content().unicode_len();
            if n >= usize::MAX / 4 {
                self.set_message("Error: line too long");
                return;
            }
        }
        assert(typing_fits(self.views@[idx as int].buffer.contents(), position_of(self.views@[idx as int].cursor@)));
        if advance {
            self.views[idx].insert_char(c);
        } else {
            self.views[idx].insert_char_without_move(c);
        }
        proof {
            Self::lemma_views_wf(old(self).views@, self.views@, idx as int);
        }
    }

    /// Deletes forward at the cursor; reports a join that would grow a line
    /// past its column limit instead.
    fn delete_char(&mut self)
        requires
            old(self).wf(),
        ensures
            final(self).wf(),
            final(self).views@.len() == old(self).views@.len(),
            final(self).current_view_idx == old(self).current_view_idx,
            final(self).mode == old(self).mode,
            final(self).should_quit == old(self).should_quit,
            final(self).command_bar == old(self).command_bar,
    {
        let idx = self.current_view_idx;
        assert(self.views@[idx as int].wf());
        let line_idx = self.views[idx].cursor.line_idx();
        let count = self.views[idx].buffer.lines.len();
        if line_idx < count && line_idx + 1 < count {
            let a = self.views[idx].buffer.lines[line_idx].content().unicode_len();
            let b = self.views[idx].buffer.lines[line_idx + 1].content().unicode_len();
            if a >= usize::MAX / 4 || b >= usize::MAX / 4 - a {
                self.set_message("Error: line too long");
                return;
            }
        }
        assert(delete_fits(self.views@[idx as int].buffer.contents(), position_of(self.views@[idx as int].cursor@)));
        self.views[idx].remove_char();
        proof {
            Self::lemma_views_wf(old(self).views@, self.views@, idx as int);
        }
    }

    /// Reports where the cursor is, on the screen and in its line.
    pub fn show_cursor_info(&mut self)
        requires
            old(self).wf(),
        ensures
            final(self).message matches Some(m) && m@ == cursor_info(old(self).view_at()),
            final(self).views == old(self).views,
            final(self).current_view_idx == old(self).current_view_idx,
            final(self).mode == old(self).mode,
            final(self).should_quit == old(self).should_quit,
    {
        let view = &self.views[self.current_view_idx];
        assert(view.wf());
        let cursor = &view.cursor;
        let caret = view.caret_screen_position();
        let mut m = text("cursor: (");
        let t = decimal_string(cursor.line_idx());
        m.append(t.as_str());
        m.append(", ");
        let t = decimal_string(cursor.col_idx());
        m.append(t.as_str());
        m.append(", ");
        let t = decimal_string(cursor.col_want());
        m.append(t.as_str());
        m.append("), screen: (");
        let t = decimal_string(caret.line_idx);
        m.append(t.as_str());
        m.append(", ");
        let t = decimal_string(caret.col_idx);
        m.append(t.as_str());
        m.append("), off: (");
        let t = decimal_string(view.offset.line_idx);
        m.append(t.as_str());
        m.append(", ");
        let t = decimal_string(view.offset.col_idx);
        m.append(t.as_str());
        m.append("), [");
        let ghost head = m@;
        assert(head == cursor_info_head(*view));
        let pos = cursor.position();
        let ghost lines = view.buffer.contents();
        let ghost frag = fragment_info(lines, pos);
        match view.get_fragment_by_position(pos) {
            Some(f) => {
                proof {
                    let gs = crate::unicode::graphemes_of(lines[pos.line_idx as int]);
                    crate::line::lemma_first_right_range(gs, pos.col_idx + 1, 0);
                    let k = crate::line::cluster_at_col(gs, pos.col_idx as int);
                    assert(pos.line_idx < lines.len());
                    assert(k < gs.len());
                    assert(f@ == crate::text_fragment::fragment_of(gs[k], crate::line::col_of(gs, k)));
                }
                m.append(f.text());
                m.append(", ");
                let t = decimal_string(f.width());
                m.append(t.as_str());
                m.append(", ");
                let t = decimal_string(f.left_col_width());
                m.append(t.as_str());
            },
            None => {},
        }
        assert(m@ =~= head + frag);
        m.append("]");
        assert(m@ =~= cursor_info(*view));
        self.set_message(m.as_str());
    }

    pub fn handle_resize_event(&mut self, width16: u16, height16: u16)
        requires
            old(self).wf(),
        ensures
            final(self).wf(),
            final(self).size == (Size { width: width16 as usize, height: height16 as usize }),
            final(self).view_at().size == (Size { width: width16 as usize, height: sat_sub(height16 as usize, 2) }),
            final(self).view_at().buffer.needs_redraw,
            final(self).status_bar.width == width16 as usize,
            final(self).mode == old(self).mode,
            final(self).should_quit == old(self).should_quit,
    {
        let width = width16 as usize;
        let height = height16 as usize;
        self.size = Size { width, height };
        let view_size = Size { width, height: height.saturating_sub(2) };
        let idx = self.current_view_idx;
        assert(self.views@[idx as int].wf());
        self.views[idx].set_size(view_size);
        proof {
            Self::lemma_views_wf(old(self).views@, self.views@, idx as int);
        }
        self.status_bar.set_size(width);
    }

    pub fn handle_key_event_normal(&mut self, code: Key, modifiers: Modifiers) -> (r: Effects)
        requires
            old(self).wf(),
        ensures
            final(self).wf(),
            ({
                let cmd = normal_command_of(key_string(code, modifiers));
                let mode = normal_mode_after(cmd, old(self).mode);
                &&& final(self).mode == mode
                &&& r.caret == if sets_mode(cmd) {
                    Some(caret_for(mode))
                } else {
                    None
                }
                &&& r.save == (cmd == NormalCommand::Save && old(self).view_at().buffer.file_info.path_view() is Some)
                &&& final(self).should_quit == (old(self).should_quit || cmd == NormalCommand::Quit || (cmd
                    == NormalCommand::QuitWithConfirm && old(self).view_at().buffer.modified_count == 0))
                &&& (cmd matches NormalCommand::Move(m) ==> final(self).view_at().cursor@ == crate::view::moved(
                    m,
                    old(self).view_at().cursor@,
                    old(self).view_at().buffer.contents(),
                ))
            }),
    {
        let key_repr = Self::key_to_string(code, modifiers);
        let none = Effects { caret: None, save: false };
        match Self::normal_command(key_repr.as_str()) {
            NormalCommand::QuitWithConfirm => {
                self.quit_with_confirm();
                none
            },
            NormalCommand::Quit => {
                self.should_quit = true;
                none
            },
            NormalCommand::Insert => Effects { caret: Some(self.set_mode(Mode::Insert)), save: false },
            NormalCommand::Append => {
                self.move_view(MoveCode::Right);
                Effects { caret: Some(self.set_mode(Mode::Insert)), save: false }
            },
            NormalCommand::InsertAtStart => {
                self.move_view(MoveCode::FirstChar);
                Effects { caret: Some(self.set_mode(Mode::Insert)), save: false }
            },
            NormalCommand::AppendAtEnd => {
                self.move_view(MoveCode::LastChar);
                Effects { caret: Some(self.set_mode(Mode::Insert)), save: false }
            },
            NormalCommand::OpenBelow => {
                self.move_view(MoveCode::LastChar);
                let caret = self.set_mode(Mode::Insert);
                self.type_char('\n', true);
                Effects { caret: Some(caret), save: false }
            },
            NormalCommand::OpenAbove => {
                self.move_view(MoveCode::FirstChar);
                let caret = self.set_mode(Mode::Insert);
                self.type_char('\n', false);
                Effects { caret: Some(caret), save: false }
            },
            NormalCommand::DeleteChar => {
                self.delete_char();
                none
            },
            NormalCommand::ShowCursorInfo => {
                self.show_cursor_info();
                none
            },
            NormalCommand::Save => self.save(),
            NormalCommand::EnterCommand => Effects { caret: Some(self.set_mode(Mode::Command)), save: false },
            NormalCommand::EnterSearch => Effects { caret: Some(self.set_mode(Mode::Search)), save: false },
            NormalCommand::SearchNext => {
                self.set_message("TODO: search next");
                none
            },
            NormalCommand::SearchPrev => {
                self.set_message("TODO: search prev");
                none
            },
            NormalCommand::Scroll(s) => {
                self.scroll_view(s);
                none
            },
            NormalCommand::PageDown => {
                let height = self.views[self.current_view_idx].height();
                self.scroll_view(ScrollCode::Down(height));
                none
            },
            NormalCommand::PageUp => {
                let height = self.views[self.current_view_idx].height();
                self.scroll_view(ScrollCode::Up(height));
                none
            },
            NormalCommand::Move(m) => {
                self.move_view(m);
                none
            },
            NormalCommand::Nothing => none,
        }
    }

    pub fn handle_key_event_insert(&mut self, code: Key, modifiers: Modifiers) -> (r: Effects)
        requires
            old(self).wf(),
        ensures
            final(self).wf(),
            final(self).mode == if code == Key::Esc {
                Mode::Normal
            } else {
                old(self).mode
            },
            r.caret == if code == Key::Esc {
                Some(CaretShape::Default)
            } else {
                None
            },
            !r.save,
            final(self).should_quit == old(self).should_quit,
    {
        let none = Effects { caret: None, save: false };
        let plain_keys = !modifiers.alt && !modifiers.control;
        let no_mods = plain_keys && !modifiers.shift;
        match code {
            Key::Esc => Effects { caret: Some(self.set_mode(Mode::Normal)), save: false },
            Key::Char(c) => {
                if plain_keys {
                    self.type_char(c, true);
                } else if c == 'h' && modifiers.control && !modifiers.alt && !modifiers.shift {
                    self.delete_backward();
                }
                none
            },
            Key::Tab => {
                if no_mods {
                    self.type_char('\t', true);
                }
                none
            },
            Key::Enter => {
                if no_mods {
                    self.type_char('\n', true);
                }
                none
            },
            Key::Delete => {
                if no_mods {
                    self.delete_char();
                }
                none
            },
            Key::Backspace => {
                if no_mods {
                    self.delete_backward();
                }
                none
            },
            _ => none,
        }
    }

    /// Deletes the cluster before the cursor, joining lines at a line start;
    /// nothing happens at the very start of the buffer.
    fn delete_backward(&mut self)
        requires
            old(self).wf(),
        ensures
            final(self).wf(),
            final(self).views@.len() == old(self).views@.len(),
            final(self).current_view_idx == old(self).current_view_idx,
            final(self).mode == old(self).mode,
            final(self).should_quit == old(self).should_quit,
            final(self).command_bar == old(self).command_bar,
    {
        let idx = self.current_view_idx;
        let line_idx = self.views[idx].cursor.line_idx();
        let col_idx = self.views[idx].cursor.col_idx();
        if col_idx > 0 || line_idx > 0 {
            self.move_view(MoveCode::Left);
            self.delete_char();
        }
    }

    pub fn handle_key_event_command(&mut self, code: Key, modifiers: Modifiers) -> (r: Effects)
        requires
            old(self).wf(),
        ensures
            final(self).wf(),
            code == Key::Esc ==> final(self).mode == Mode::Normal && final(self).command_bar is None
                && r.caret == Some(CaretShape::Default),
            code == Key::Enter && no_modifier(modifiers) ==> final(self).mode == Mode::Normal
                && final(self).command_bar is None && r.caret == Some(CaretShape::Default),
            code matches Key::Char(c) ==> (plain(modifiers) ==> (final(self).mode == old(self).mode
                && r.caret is None && match (old(self).command_bar, final(self).command_bar) {
                (Some(a), Some(b)) => b.value@ == a.value@.push(c),
                (None, None) => true,
                _ => false,
            })),
    {
        let none = Effects { caret: None, save: false };
        let plain_keys = !modifiers.alt && !modifiers.control;
        let no_mods = plain_keys && !modifiers.shift;
        match code {
            Key::Esc => Effects { caret: Some(self.set_mode(Mode::Normal)), save: false },
            Key::Char(c) => {
                if plain_keys {
                    if let Some(bar) = &mut self.command_bar {
                        bar.insert(c);
                    }
                } else if c == 'h' && modifiers.control && !modifiers.alt && !modifiers.shift {
                    if let Some(bar) = &mut self.command_bar {
                        bar.delete_backward();
                    }
                }
                none
            },
            Key::Backspace => {
                if no_mods {
                    if let Some(bar) = &mut self.command_bar {
                        bar.delete_backward();
                    }
                }
                none
            },
            Key::Enter => {
                if !no_mods {
                    return none;
                }
                let mut effects = none;
                match self.command_bar.take() {
                    Some(bar) => {
                        if bar.mode == Mode::Command {
                            effects = self.run_command(bar.value());
                        } else {
                            self.views[self.current_view_idx].search(bar.value());
                            let mut m = text("search: ");
                            m.append(bar.value());
                            self.set_message(m.as_str());
                        }
                    },
                    None => {},
                }
                Effects { caret: Some(self.set_mode(Mode::Normal)), save: effects.save }
            },
            _ => none,
        }
    }

    /// Acts on a key press in the current mode.
    pub fn handle_key(&mut self, code: Key, modifiers: Modifiers) -> (r: Effects)
        requires
            old(self).wf(),
        ensures
            final(self).wf(),
            old(self).mode == Mode::Normal ==> final(self).mode == normal_mode_after(
                normal_command_of(key_string(code, modifiers)),
                Mode::Normal,
            ),
            old(self).mode == Mode::Insert ==> final(self).mode == if code == Key::Esc {
                Mode::Normal
            } else {
                Mode::Insert
            },
            (old(self).mode == Mode::Command || old(self).mode == Mode::Search) && (code == Key::Esc || (
            code == Key::Enter && no_modifier(modifiers))) ==> final(self).mode == Mode::Normal,
    {
        match self.mode {
            Mode::Normal => self.handle_key_event_normal(code, modifiers),
            Mode::Insert => self.handle_key_event_insert(code, modifiers),
            Mode::Command | Mode::Search => self.handle_key_event_command(code, modifiers),
        }
    }
}

} // verus!
