//! The file a buffer is bound to, and the kind of file it is.
use crate::unicode::{option_view, same_text};
use vstd::prelude::*;
use vstd::string::*;

verus! {

/// The extension of a path's file name, as `std::path::Path` finds it.
pub uninterp spec fn extension_of(path: Seq<char>) -> Option<Seq<char>>;

/// The last component of a path, as `std::path::Path` finds it.
pub uninterp spec fn file_name_of(path: Seq<char>) -> Option<Seq<char>>;

/// Relies on `Path::extension`: the part of the file name after its last
/// dot, a function of the path's text alone.
#[verifier::external_body]
fn path_extension(path: &str) -> (r: Option<String>)
    ensures
        option_view(r) == extension_of(path@),
{
    std::path::Path::new(path).extension().and_then(|e| e.to_str()).map(String::from)
}

/// Relies on `Path::file_name`: the last component of the path, a function
/// of the path's text alone.
#[verifier::external_body]
fn path_file_name(path: &str) -> (r: Option<String>)
    ensures
        option_view(r) == file_name_of(path@),
{
    std::path::Path::new(path).file_name().and_then(|e| e.to_str()).map(String::from)
}

#[derive(Copy, Clone, PartialEq, Eq, Structural, Debug)]
pub enum FileType {
    Rust,
    Text,
    Gitignore,
    Gitcommit,
    Vim,
}

pub open spec fn type_of_ext(ext: Seq<char>) -> Option<FileType> {
    if ext == seq!['t', 'x', 't'] {
        Some(FileType::Text)
    } else if ext == seq!['r', 's'] {
        Some(FileType::Rust)
    } else {
        None
    }
}

pub open spec fn type_of_file_name(name: Seq<char>) -> Option<FileType> {
    if name == seq!['.', 'g', 'i', 't', 'i', 'g', 'n', 'o', 'r', 'e'] {
        Some(FileType::Gitignore)
    } else if name == seq!['C', 'O', 'M', 'M', 'I', 'T', '_', 'E', 'D', 'I', 'T', 'M', 'S', 'G'] {
        Some(FileType::Gitcommit)
    } else if name == seq!['.', 'v', 'i', 'm', 'r', 'c'] {
        Some(FileType::Vim)
    } else {
        None
    }
}

/// The file type of a path: by its extension, else by its file name.
pub open spec fn type_of_path(path: Seq<char>) -> Option<FileType> {
    let by_ext = match extension_of(path) {
        Some(e) => type_of_ext(e),
        None => None,
    };
    match by_ext {
        Some(t) => Some(t),
        None => match file_name_of(path) {
            Some(n) => type_of_file_name(n),
            None => None,
        },
    }
}

impl FileType {
    pub fn from_ext(ext: &str) -> (r: Option<Self>)
        ensures
            r == type_of_ext(ext@),
    {
        proof {
            reveal_strlit("txt");
            reveal_strlit("rs");
        }
        assert("txt"@ =~= seq!['t', 'x', 't']);
        assert("rs"@ =~= seq!['r', 's']);
        if same_text(ext, "txt") {
            Some(FileType::Text)
        } else if same_text(ext, "rs") {
            Some(FileType::Rust)
        } else {
            None
        }
    }

    pub fn from_file_name(file_name: &str) -> (r: Option<Self>)
        ensures
            r == type_of_file_name(file_name@),
    {
        proof {
            reveal_strlit(".gitignore");
            reveal_strlit("COMMIT_EDITMSG");
            reveal_strlit(".vimrc");
        }
        assert(".gitignore"@ =~= seq!['.', 'g', 'i', 't', 'i', 'g', 'n', 'o', 'r', 'e']);
        assert("COMMIT_EDITMSG"@ =~= seq!['C', 'O', 'M', 'M', 'I', 'T', '_', 'E', 'D', 'I', 'T', 'M', 'S', 'G']);
        assert(".vimrc"@ =~= seq!['.', 'v', 'i', 'm', 'r', 'c']);
        if same_text(file_name, ".gitignore") {
            Some(FileType::Gitignore)
        } else if same_text(file_name, "COMMIT_EDITMSG") {
            Some(FileType::Gitcommit)
        } else if same_text(file_name, ".vimrc") {
            Some(FileType::Vim)
        } else {
            None
        }
    }
}

pub struct FileInfo {
    path: Option<String>,
    file_type: Option<FileType>,
}

impl Default for FileInfo {
    fn default() -> (r: Self)
        ensures
            r.path_view() is None,
            r.file_type_view() is None,
    {
        FileInfo { path: None, file_type: None }
    }
}

impl FileInfo {
    pub closed spec fn path_view(&self) -> Option<Seq<char>> {
        option_view(self.path)
    }

    pub closed spec fn file_type_view(&self) -> Option<FileType> {
        self.file_type
    }

    pub fn from(path: &str) -> (r: Self)
        ensures
            r.path_view() == Some(path@),
            r.file_type_view() == type_of_path(path@),
    {
        let by_ext = match path_extension(path) {
            Some(e) => FileType::from_ext(e.as_str()),
            None => None,
        };
        let file_type = match by_ext {
            Some(t) => Some(t),
            None => match path_file_name(path) {
                Some(n) => FileType::from_file_name(n.as_str()),
                None => None,
            },
        };
        FileInfo { path: Some(String::from_str(path)), file_type }
    }

    pub fn has_path(&self) -> (r: bool)
        ensures
            r == self.path_view() is Some,
    {
        self.path.is_some()
    }

    pub fn get_path(&self) -> (r: Option<&str>)
        ensures
            r matches Some(p) ==> self.path_view() == Some(p@),
            r is None ==> self.path_view() is None,
    {
        match &self.path {
            Some(p) => Some(p.as_str()),
            None => None,
        }
    }

    pub fn get_file_name(&self) -> (r: Option<String>)
        ensures
            option_view(r) == match self.path_view() {
                Some(p) => file_name_of(p),
                None => None,
            },
    {
        match &self.path {
            Some(p) => path_file_name(p.as_str()),
            None => None,
        }
    }

    pub fn get_file_type(&self) -> (r: Option<FileType>)
        ensures
            r == self.file_type_view(),
    {
        self.file_type
    }
}

} // verus!
