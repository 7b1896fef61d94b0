use koi::buffer::Buffer;
use koi::position::Position;
use koi::size::Size;
use std::cell::RefCell;

#[test]
fn test_insert() {
    let mut buffer = Buffer::default();
    buffer.lines = Buffer::gen_lines("this\nis\ntest.\n");
    buffer.insert("ok", Position::new(0, 1));
    assert_eq!(buffer.lines[0].content(), "tokhis");

    let mut buffer = Buffer::default();
    buffer.lines = Buffer::gen_lines("qwert");
    buffer.insert("\t", Position::new(0, 1));
    assert_eq!(buffer.lines[0].content(), "q\twert");
    buffer.insert("a", Position::new(0, 4));
    assert_eq!(buffer.lines[0].content(), "q\tawert");
}

#[test]
fn test_insert_newline() {
    let mut buffer = Buffer::default();
    buffer.lines = Buffer::gen_lines("this\nis\ntest.\n");
    buffer.insert_newline(Position::new(1, 0));
    assert_eq!(buffer.lines.len(), 4);
    assert_eq!(buffer.lines[1].content(), "");
    assert_eq!(buffer.lines[2].content(), "is");
    buffer.insert_newline(Position::new(2, 2));
    assert_eq!(buffer.lines.len(), 5);
    assert_eq!(buffer.lines[2].content(), "is");
    assert_eq!(buffer.lines[3].content(), "");
    buffer.insert_newline(Position::new(2, 1));
    assert_eq!(buffer.lines.len(), 6);
    assert_eq!(buffer.lines[2].content(), "i");
    assert_eq!(buffer.lines[3].content(), "s");
}

#[test]
fn buffer_test_remove_char() {
    let mut buffer = Buffer::default();
    buffer.lines = Buffer::gen_lines("this\nis\ntest.\n");
    buffer.remove_char(Position::new(1, 0));
    assert_eq!(buffer.lines.len(), 3);
    assert_eq!(buffer.lines[1].content(), "s");
    buffer.remove_char(Position::new(1, 1));
    assert_eq!(buffer.lines.len(), 2);
    assert_eq!(buffer.lines[1].content(), "stest.");
}

fn contents(buffer: &Buffer) -> Vec<String> {
    buffer.lines.iter().map(|l| l.content().to_string()).collect()
}

#[test]
fn gen_lines_splits_at_line_breaks() {
    let lines = Buffer::gen_lines("a\r\nb\n\nc");
    let texts: Vec<&str> = lines.iter().map(|l| l.content()).collect();
    assert_eq!(texts, vec!["a", "b", "", "c"]);
    assert!(Buffer::gen_lines("").is_empty());
    assert_eq!(Buffer::gen_lines("\n").len(), 1);
}

#[test]
fn save_text_then_reload_gives_same_lines() {
    for text in ["this\nis\ntest.\n", "no final break", "\n\nx\n", "", "タブ\tと\n文字"] {
        let buffer = Buffer::from_string(text);
        let saved = buffer.save_text();
        let again = Buffer::from_string(&saved);
        assert_eq!(contents(&again), contents(&buffer));
    }
    assert_eq!(Buffer::from_string("a\nb").save_text(), "a\nb\n");
}

#[test]
fn from_file_binds_the_path() {
    let buffer = Buffer::from_file("notes.txt", Some("one\ntwo\n"));
    assert!(buffer.has_path());
    assert_eq!(contents(&buffer), vec!["one", "two"]);
    assert_eq!(buffer.file_info.get_path(), Some("notes.txt"));
    let buffer = Buffer::from_file("missing.txt", None);
    assert!(buffer.has_path());
    assert!(buffer.lines.is_empty());
    assert!(!Buffer::default().has_path());
}

#[test]
fn insert_bumps_count_and_past_end_is_refused() {
    let mut buffer = Buffer::from_string("ab\n");
    buffer.needs_redraw = false;
    assert!(!buffer.insert("x", Position::new(2, 0)));
    assert_eq!(buffer.modified_count, 0);
    assert!(!buffer.needs_redraw);
    assert!(buffer.insert("x", Position::new(1, 0)));
    assert_eq!(contents(&buffer), vec!["ab", "x"]);
    assert_eq!(buffer.modified_count, 1);
    assert!(buffer.needs_redraw);
}

#[test]
fn newline_past_end_adds_empty_line() {
    let mut buffer = Buffer::from_string("ab");
    assert!(buffer.insert_newline(Position::new(7, 0)));
    assert_eq!(contents(&buffer), vec!["ab", ""]);
    assert_eq!(buffer.modified_count, 1);
}

#[test]
fn remove_char_at_end_of_document_is_refused() {
    let mut buffer = Buffer::from_string("ab\ncd");
    assert!(!buffer.remove_char(Position::new(1, 2)));
    assert!(!buffer.remove_char(Position::new(5, 0)));
    assert_eq!(buffer.modified_count, 0);
    assert!(buffer.remove_char(Position::new(0, 2)));
    assert_eq!(contents(&buffer), vec!["abcd"]);
}

#[test]
fn remove_char_takes_the_wide_cluster_under_the_column() {
    let mut buffer = Buffer::from_string("aこb");
    assert!(buffer.remove_char(Position::new(0, 2)));
    assert_eq!(contents(&buffer), vec!["ab"]);
}

#[test]
fn set_remove_and_cutoff_lines() {
    let mut buffer = Buffer::from_string("one\ntwo\nthree");
    buffer.set_line("uno", 0);
    buffer.set_line("four", 9);
    assert_eq!(contents(&buffer), vec!["uno", "two", "three", "four"]);
    buffer.remove_line(1);
    assert_eq!(contents(&buffer), vec!["uno", "three", "four"]);
    buffer.cutoff_line(Position::new(1, 2));
    assert_eq!(contents(&buffer), vec!["uno", "th", "four"]);
    buffer.cutoff_line(Position::new(8, 0));
    assert_eq!(buffer.modified_count, 4);
    assert_eq!(buffer.get_lines_count(), 3);
    assert_eq!(buffer.get_line_col_width(2), 4);
    assert_eq!(buffer.get_line_col_width(3), 0);
}

#[test]
fn save_as_and_mark_saved() {
    let mut buffer = Buffer::from_string("x");
    buffer.insert("y", Position::new(0, 1));
    buffer.save_as("out.rs");
    assert_eq!(buffer.file_info.get_path(), Some("out.rs"));
    assert_eq!(buffer.modified_count, 1);
    buffer.mark_saved();
    assert_eq!(buffer.modified_count, 0);
}

#[test]
fn render_emits_clipped_rows_and_tildes() {
    let mut buffer = Buffer::from_string("hello\nこんにちは\n");
    let rows = RefCell::new(Vec::new());
    let result: Result<(), ()> = buffer.render(Size::new(3, 4), Position::new(0, 1), |row, text| {
        rows.borrow_mut().push((row, text.to_string()));
        Ok(())
    });
    assert!(result.is_ok());
    assert!(!buffer.needs_redraw);
    assert_eq!(
        rows.into_inner(),
        vec![(0, "ell".to_string()), (1, "«ん".to_string()), (2, "~".to_string()), (3, "~".to_string())]
    );
    let again: Result<(), ()> = buffer.render(Size::new(3, 4), Position::new(0, 0), |_, _| Err(()));
    assert!(again.is_ok());
}

#[test]
fn render_stops_at_first_error_and_stays_dirty() {
    let mut buffer = Buffer::from_string("a\nb\n");
    let result = buffer.render(Size::new(2, 2), Position::new(0, 0), |row, _| if row == 1 { Err(row) } else { Ok(()) });
    assert_eq!(result, Err(1));
    assert!(buffer.needs_redraw);
    let rows = buffer.render_rows(Size::new(0, 2), Position::new(0, 0));
    assert!(rows.is_empty());
}

#[test]
fn save_text_reproduces_text_ending_in_line_breaks() {
    for text in ["this\nis\ntest.\n", "", "\n\nx\n", "タブ\tと\n"] {
        assert_eq!(Buffer::from_string(text).save_text(), text);
    }
}
