use koi::file_info::{FileInfo, FileType};

#[test]
fn test_from() {
    let fi = FileInfo::from("test.txt");
    assert_eq!(fi.get_path(), Some("test.txt"));
    assert_eq!(fi.get_file_type(), Some(FileType::Text));
    let fi = FileInfo::from("/User/home/test.rs");
    assert_eq!(fi.get_path(), Some("/User/home/test.rs"));
    assert_eq!(fi.get_file_name(), Some(String::from("test.rs")));
    assert_eq!(fi.get_file_type(), Some(FileType::Rust));
    let fi = FileInfo::from(".gitignore");
    assert_eq!(fi.get_path(), Some(".gitignore"));
    assert_eq!(fi.get_file_type(), Some(FileType::Gitignore));
    let fi = FileInfo::from(".vimrc");
    assert_eq!(fi.get_path(), Some(".vimrc"));
    assert_eq!(fi.get_file_type(), Some(FileType::Vim));
}

#[test]
fn file_types_by_extension_and_name() {
    assert_eq!(FileType::from_ext("txt"), Some(FileType::Text));
    assert_eq!(FileType::from_ext("rs"), Some(FileType::Rust));
    assert_eq!(FileType::from_ext("md"), None);
    assert_eq!(FileType::from_file_name("COMMIT_EDITMSG"), Some(FileType::Gitcommit));
    assert_eq!(FileType::from_file_name("README"), None);
    assert_eq!(FileInfo::from("repo/.git/COMMIT_EDITMSG").get_file_type(), Some(FileType::Gitcommit));
    assert_eq!(FileInfo::from("notes.md").get_file_type(), None);
}

#[test]
fn default_info_has_no_path() {
    let fi = FileInfo::default();
    assert!(!fi.has_path());
    assert_eq!(fi.get_path(), None);
    assert_eq!(fi.get_file_name(), None);
    assert_eq!(fi.get_file_type(), None);
    assert!(FileInfo::from("x").has_path());
}
