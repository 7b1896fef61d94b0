use koi::buffer::Buffer;
use koi::position::Position;
use koi::size::Size;
use koi::view::{MoveCode, ScrollCode, View};

#[test]
fn test_scroll() {
    let buffer = Buffer::from_string("ab\ncd\n");
    let size = Size::new(2, 2);
    let mut view = View::new(buffer, size);
    view.scroll_screen(ScrollCode::Down(1));
    assert_eq!(view.caret_screen_position(), Position::new(0, 0));
    assert_eq!(view.offset, Position::new(1, 0));
    assert_eq!(view.buffer.needs_redraw, true);
    view.buffer.needs_redraw = false;
    view.scroll_screen(ScrollCode::Down(1));
    assert_eq!(view.caret_screen_position(), Position::new(1, 0));
    assert_eq!(view.offset, Position::new(1, 0));
    assert_eq!(view.buffer.needs_redraw, false);
    view.buffer.needs_redraw = false;
    view.scroll_screen(ScrollCode::Up(1));
    assert_eq!(view.caret_screen_position(), Position::new(1, 0));
    assert_eq!(view.offset, Position::new(0, 0));
    assert_eq!(view.buffer.needs_redraw, true);
    view.buffer.needs_redraw = false;
    view.scroll_screen(ScrollCode::Up(1));
    assert_eq!(view.caret_screen_position(), Position::new(0, 0));
    assert_eq!(view.offset, Position::new(0, 0));
    assert_eq!(view.buffer.needs_redraw, false);
    view.buffer.needs_redraw = false;

    view.scroll_screen(ScrollCode::Right(1));
    assert_eq!(view.caret_screen_position(), Position::new(0, 0));
    assert_eq!(view.offset, Position::new(0, 1));
    assert_eq!(view.buffer.needs_redraw, true);
    view.buffer.needs_redraw = false;
    view.scroll_screen(ScrollCode::Right(1));
    assert_eq!(view.caret_screen_position(), Position::new(0, 1));
    assert_eq!(view.offset, Position::new(0, 1));
    assert_eq!(view.buffer.needs_redraw, false);
    view.buffer.needs_redraw = false;
    view.scroll_screen(ScrollCode::Left(1));
    assert_eq!(view.caret_screen_position(), Position::new(0, 1));
    assert_eq!(view.offset, Position::new(0, 0));
    assert_eq!(view.buffer.needs_redraw, true);
    view.buffer.needs_redraw = false;
    view.scroll_screen(ScrollCode::Left(1));
    assert_eq!(view.caret_screen_position(), Position::new(0, 0));
    assert_eq!(view.offset, Position::new(0, 0));
    assert_eq!(view.buffer.needs_redraw, false);
    view.buffer.needs_redraw = false;
}

#[test]
fn test_insert_char() {
    let buffer = Buffer::from_string("this\nis\ntest.\n");
    let size = Size::new(10, 10);
    let mut view = View::new(buffer, size);
    view.cursor.set_position(Position::new(0, 1), &view.buffer);
    view.insert_char('o');
    assert_eq!(view.buffer.lines[0].content(), "tohis");
    assert_eq!(view.cursor.position(), Position::new(0, 2));
    view.insert_char('\n');
    assert_eq!(view.buffer.lines[0].content(), "to");
    assert_eq!(view.buffer.lines[1].content(), "his");
    assert_eq!(view.cursor.position(), Position::new(1, 0));
}

#[test]
fn view_test_remove_char() {
    let buffer = Buffer::from_string("this\nis\ntest.\n");
    let size = Size::new(10, 10);
    let mut view = View::new(buffer, size);
    view.cursor.set_position(Position::new(0, 1), &view.buffer);
    view.remove_char();
    assert_eq!(view.buffer.lines[0].content(), "tis");
    view.cursor.set_position(Position::new(0, 3), &view.buffer);
    view.remove_char();
    assert_eq!(view.buffer.lines[0].content(), "tisis");
}

#[test]
fn caret_stays_in_viewport_while_moving() {
    let buffer = Buffer::from_string("abcdefgh\nこんにちは\nx\ny\nz\n");
    let mut view = View::new(buffer, Size::new(3, 2));
    let codes = [
        MoveCode::Right,
        MoveCode::Right,
        MoveCode::Right,
        MoveCode::Right,
        MoveCode::Down,
        MoveCode::Down,
        MoveCode::LastLine,
        MoveCode::FirstLine,
        MoveCode::LastChar,
        MoveCode::Left,
        MoveCode::FirstChar,
        MoveCode::Up,
        MoveCode::FirstNonBlank,
    ];
    for code in codes {
        view.move_position(code);
        let caret = view.caret_screen_position();
        assert!(caret.col_idx < 3 && caret.line_idx < 2);
        assert_eq!(view.offset.col_idx + caret.col_idx, view.cursor.col_idx());
        assert_eq!(view.offset.line_idx + caret.line_idx, view.cursor.line_idx());
    }
}

#[test]
fn move_right_scrolls_and_marks_dirty() {
    let buffer = Buffer::from_string("abcd\n");
    let mut view = View::new(buffer, Size::new(2, 5));
    view.buffer.needs_redraw = false;
    view.move_position(MoveCode::Right);
    assert_eq!(view.offset, Position::new(0, 0));
    assert!(!view.buffer.needs_redraw);
    view.move_position(MoveCode::Right);
    assert_eq!(view.offset, Position::new(0, 1));
    assert!(view.buffer.needs_redraw);
}

#[test]
fn insert_without_move_keeps_the_caret() {
    let buffer = Buffer::from_string("ab\ncd\n");
    let mut view = View::new(buffer, Size::new(10, 10));
    view.cursor.set_position(Position::new(1, 0), &view.buffer);
    assert!(view.insert_char_without_move('\n'));
    assert_eq!(view.buffer.lines.len(), 3);
    assert_eq!(view.buffer.lines[1].content(), "");
    assert_eq!(view.cursor.position(), Position::new(1, 0));
    assert!(view.insert_char_without_move('z'));
    assert_eq!(view.buffer.lines[1].content(), "z");
    assert_eq!(view.buffer.modified_count, 2);
}

#[test]
fn typing_wide_char_advances_two_columns() {
    let buffer = Buffer::from_string("ab\n");
    let mut view = View::new(buffer, Size::new(10, 10));
    view.cursor.set_position(Position::new(0, 1), &view.buffer);
    view.insert_char('緑');
    assert_eq!(view.buffer.lines[0].content(), "a緑b");
    assert_eq!(view.cursor.position(), Position::new(0, 3));
    view.insert_char('\t');
    assert_eq!(view.buffer.lines[0].get_str(), "a緑→b");
    assert_eq!(view.cursor.position(), Position::new(0, 4));
}

#[test]
fn size_lines_and_fragments() {
    let buffer = Buffer::from_string("aこ\n");
    let mut view = View::new(buffer, Size::new(4, 3));
    assert_eq!(view.height(), 3);
    view.buffer.needs_redraw = false;
    view.set_size(Size::new(5, 6));
    assert_eq!(view.height(), 6);
    assert!(view.buffer.needs_redraw);
    assert_eq!(view.get_line(0).map(|l| l.content()), Some("aこ"));
    assert!(view.get_line(1).is_none());
    let f = view.get_fragment_by_position(Position::new(0, 2));
    assert_eq!(f.map(|f| f.grapheme()), Some("こ"));
    assert!(view.get_fragment_by_position(Position::new(0, 3)).is_none());
    assert!(!view.has_path());
    view.save_as("a.txt");
    assert!(view.has_path());
    view.search("anything");
    view.ensure_redraw();
    assert!(view.buffer.needs_redraw);
}

#[test]
fn view_render_hands_rows_over() {
    let buffer = Buffer::from_string("abc\n");
    let mut view = View::new(buffer, Size::new(2, 2));
    let rows = std::cell::RefCell::new(Vec::new());
    let result: Result<(), ()> = view.render(|row, text| {
        rows.borrow_mut().push((row, text.to_string()));
        Ok(())
    });
    assert!(result.is_ok());
    assert_eq!(rows.into_inner(), vec![(0, "ab".to_string()), (1, "~".to_string())]);
    assert!(!view.buffer.needs_redraw);
}

#[test]
fn scroll_without_offset_change_keeps_pending_redraw() {
    let buffer = Buffer::from_string("ab\ncd\n");
    let mut view = View::new(buffer, Size::new(2, 2));
    view.scroll_screen(ScrollCode::Down(1));
    view.scroll_screen(ScrollCode::Down(1));
    assert_eq!(view.offset, Position::new(1, 0));
    assert!(view.buffer.needs_redraw);
}

#[test]
fn shift_scroll_moves_by_whole_clusters() {
    let buffer = Buffer::from_string("こんにちは\n");
    let mut view = View::new(buffer, Size::new(4, 2));
    view.scroll_screen(ScrollCode::Right(1));
    assert_eq!(view.cursor.position(), Position::new(0, 2));
    assert_eq!(view.offset, Position::new(0, 1));
    view.scroll_screen(ScrollCode::Left(1));
    assert_eq!(view.cursor.position(), Position::new(0, 0));
    assert_eq!(view.offset, Position::new(0, 0));
}
