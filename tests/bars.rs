use koi::buffer::Buffer;
use koi::editor::Editor;
use koi::command_bar::CommandBar;
use koi::file_info::FileType;
use koi::mode::Mode;
use koi::position::Position;
use koi::size::Size;
use koi::status_bar::{DocumentStatus, StatusBar};
use std::cell::RefCell;

#[test]
fn command_bar_tracks_typing() {
    let mut bar = CommandBar::new(Mode::Command);
    assert_eq!(bar.text(), ":");
    assert_eq!(bar.caret_col, 1);
    bar.insert('w');
    assert_eq!(bar.value(), "w");
    assert_eq!(bar.text(), ":w");
    assert_eq!(bar.caret_col, 2);
    bar.insert('緑');
    assert_eq!(bar.caret_col, 4);
    bar.delete_backward();
    assert_eq!(bar.text(), ":w");
    assert_eq!(bar.caret_col, 2);
    bar.delete_backward();
    bar.delete_backward();
    assert_eq!(bar.value(), "");
    assert_eq!(bar.caret_col, 1);
    let search = CommandBar::new(Mode::Search);
    assert_eq!(search.text(), "/");
    assert_eq!(search.mode, Mode::Search);
}

#[test]
fn command_bar_renders_once() {
    let mut bar = CommandBar::new(Mode::Search);
    bar.insert('x');
    let rows = RefCell::new(Vec::new());
    let printer = |row: usize, text: &str| -> Result<(), ()> {
        rows.borrow_mut().push((row, text.to_string()));
        Ok(())
    };
    assert!(bar.render(7, &printer).is_ok());
    assert!(bar.render(7, &printer).is_ok());
    assert_eq!(rows.into_inner(), vec![(7, "/x".to_string())]);
}

#[test]
fn document_status_from_view() {
    let buffer = Buffer::from_file("src/test.rs", Some("ab\ncd"));
    let mut editor = Editor::new(buffer, Size::new(10, 12), "");
    editor.mode = Mode::Insert;
    let view = &mut editor.views[0];
    view.cursor.set_position(Position::new(1, 1), &view.buffer);
    let status = DocumentStatus::from(&editor);
    assert_eq!(status.file_name_string(), "test.rs");
    assert_eq!(status.file_type, Some(FileType::Rust));
    assert_eq!(status.file_type_string(), "Rust");
    assert_eq!(status.lines_info_string(), "1/2");
    assert_eq!(status.cols_info_string(), "1/2");
    assert_eq!(status.modified_string(), "");
    editor.views[0].insert_char('z');
    let status = DocumentStatus::from(&editor);
    assert_eq!(status.modified_string(), "(modified)");
    assert_eq!(status.cols_info_string(), "2/3");
    let blank = DocumentStatus::default();
    assert_eq!(blank.file_name_string(), "No Name");
    assert_eq!(blank.file_type_string(), "No Type");
    assert_eq!(blank.lines_info_string(), "0/0");
}

#[test]
fn status_line_puts_right_part_at_the_edge() {
    let buffer = Buffer::from_file("src/test.rs", Some("ab\ncd"));
    let editor = Editor::new(buffer, Size::new(10, 12), "");
    let mut bar = StatusBar::new(40);
    bar.update_status(DocumentStatus::from(&editor));
    let left = " Normal | test.rs ";
    let right = "Rust | 0/2|0/2 ";
    assert_eq!(bar.status_line(), format!("{left} {right:>21}"));
    assert_eq!(bar.status_line().chars().count(), 40);
    bar.set_size(10);
    assert_eq!(bar.status_line(), " Normal | ");
}

#[test]
fn status_bar_redraws_only_on_change() {
    let buffer = Buffer::from_string("ab\n");
    let mut editor = Editor::new(buffer, Size::new(10, 12), "");
    let mut bar = StatusBar::new(30);
    let printed = RefCell::new(0);
    let printer = |_: usize, _: &str| -> Result<(), ()> {
        *printed.borrow_mut() += 1;
        Ok(())
    };
    bar.update_status(DocumentStatus::from(&editor));
    assert!(bar.render(3, &printer).is_ok());
    bar.update_status(DocumentStatus::from(&editor));
    assert!(!bar.needs_redraw);
    assert!(bar.render(3, &printer).is_ok());
    editor.mode = Mode::Insert;
    bar.update_status(DocumentStatus::from(&editor));
    assert!(bar.needs_redraw);
    assert!(bar.render(3, &printer).is_ok());
    assert_eq!(printed.into_inner(), 2);
}
