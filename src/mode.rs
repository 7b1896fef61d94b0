//! The editor's input modes.
use vstd::prelude::*;

verus! {

#[derive(Copy, Clone, PartialEq, Eq, Structural, Debug, Default)]
pub enum Mode {
    #[default]
    Normal,
    Insert,
    Command,
    Search,
}

impl Mode {
    /// The mode's name as the status bar shows it.
    pub fn name(&self) -> (r: &'static str)
        ensures
            r@ == mode_name(*self),
    {
        proof {
            reveal_strlit("Normal");
            reveal_strlit("Insert");
            reveal_strlit("Command");
            reveal_strlit("Search");
        }
        match self {
            Mode::Normal => "Normal",
            Mode::Insert => "Insert",
            Mode::Command => "Command",
            Mode::Search => "Search",
        }
    }
}

pub open spec fn mode_name(m: Mode) -> Seq<char> {
    match m {
        Mode::Normal => seq!['N', 'o', 'r', 'm', 'a', 'l'],
        Mode::Insert => seq!['I', 'n', 's', 'e', 'r', 't'],
        Mode::Command => seq!['C', 'o', 'm', 'm', 'a', 'n', 'd'],
        Mode::Search => seq!['S', 'e', 'a', 'r', 'c', 'h'],
    }
}

} // verus!
