use koi::buffer::Buffer;
use koi::editor::{CaretShape, CommandLine, Editor, Key, Modifiers, NormalCommand};
use koi::mode::Mode;
use koi::position::Position;
use koi::size::Size;
use koi::status_bar::StatusBar;
use koi::view::{MoveCode, View};

const NONE: Modifiers = Modifiers { shift: false, alt: false, control: false };
const SHIFT: Modifiers = Modifiers { shift: true, alt: false, control: false };
const ALT: Modifiers = Modifiers { shift: false, alt: true, control: false };
const CONTROL: Modifiers = Modifiers { shift: false, alt: false, control: true };

fn editor_over(text: &str) -> Editor {
    Editor::new(Buffer::from_string(text), Size::new(20, 12), "")
}

fn line(editor: &Editor, idx: usize) -> String {
    editor.views[0].buffer.lines[idx].content().to_string()
}

#[test]
fn test_resize() {
    let buffer = Buffer::from_string("this\nis\ntest.\n");
    let size = Size::new(10, 10);
    let view = View::new(buffer, size);
    let mut editor = Editor {
        should_quit: false,
        views: vec![view],
        current_view_idx: 0,
        mode: Mode::Normal,
        size: Size::default(),
        message: None,
        command_bar: None,
        status_bar: StatusBar::default(),
    };
    assert_eq!(editor.size, Size::default());
    editor.handle_resize_event(10, 10);
    assert_eq!(editor.size, Size::new(10, 10));
}

#[test]
fn test_key_to_string() {
    let str = Editor::key_to_string(Key::Char('a'), NONE);
    assert_eq!(str, "a");
    let str = Editor::key_to_string(Key::Char('A'), SHIFT);
    assert_eq!(str, "A");
    let str = Editor::key_to_string(Key::Char('a'), CONTROL);
    assert_eq!(str, "<C-A>");
    let str = Editor::key_to_string(Key::Char('a'), ALT);
    assert_eq!(str, "<A-A>");
    let str = Editor::key_to_string(Key::Char('a'), Modifiers { shift: false, alt: true, control: true });
    assert_eq!(str, "<C-A-A>");
    let str = Editor::key_to_string(Key::Char(' '), NONE);
    assert_eq!(str, "<SPACE>");
    let str = Editor::key_to_string(Key::Left, NONE);
    assert_eq!(str, "<LEFT>");
    let str = Editor::key_to_string(Key::Enter, NONE);
    assert_eq!(str, "<CR>");
    let str = Editor::key_to_string(Key::Enter, SHIFT);
    assert_eq!(str, "<S-CR>");
}

#[test]
fn resize_leaves_room_for_two_bars() {
    let mut editor = editor_over("ab\n");
    editor.views[0].buffer.needs_redraw = false;
    editor.handle_resize_event(30, 1);
    assert_eq!(editor.views[0].size, Size::new(30, 0));
    assert_eq!(editor.status_bar.width, 30);
    assert!(editor.views[0].buffer.needs_redraw);
}

#[test]
fn normal_keys_map_to_commands() {
    assert_eq!(Editor::normal_command("q"), NormalCommand::QuitWithConfirm);
    assert_eq!(Editor::normal_command("<PAGEDOWN>"), NormalCommand::PageDown);
    assert_eq!(Editor::normal_command("<C-F>"), NormalCommand::PageDown);
    assert_eq!(Editor::normal_command("l"), NormalCommand::Move(MoveCode::Right));
    assert_eq!(Editor::normal_command("G"), NormalCommand::Move(MoveCode::LastLine));
    assert_eq!(Editor::normal_command("z"), NormalCommand::Nothing);
}

#[test]
fn command_lines_are_parsed() {
    assert!(matches!(Editor::parse_command("  q  "), CommandLine::QuitWithConfirm));
    assert!(matches!(Editor::parse_command("quit!"), CommandLine::Quit));
    assert!(matches!(Editor::parse_command("w"), CommandLine::Write));
    match Editor::parse_command("write out.txt") {
        CommandLine::WriteAs(p) => assert_eq!(p, "out.txt"),
        other => panic!("unexpected {other:?}"),
    }
    match Editor::parse_command("echo hello there") {
        CommandLine::Echo(t) => assert_eq!(t, "hello there"),
        other => panic!("unexpected {other:?}"),
    }
    match Editor::parse_command("frob x") {
        CommandLine::Unknown(w) => assert_eq!(w, "frob"),
        other => panic!("unexpected {other:?}"),
    }
}

#[test]
fn typing_in_insert_mode() {
    let mut editor = editor_over("ab\n");
    let effects = editor.handle_key(Key::Char('i'), NONE);
    assert_eq!(editor.mode, Mode::Insert);
    assert_eq!(effects.caret, Some(CaretShape::Bar));
    editor.handle_key(Key::Char('X'), SHIFT);
    editor.handle_key(Key::Enter, NONE);
    editor.handle_key(Key::Tab, NONE);
    assert_eq!(line(&editor, 0), "X");
    assert_eq!(line(&editor, 1), "\tab");
    editor.handle_key(Key::Backspace, NONE);
    assert_eq!(line(&editor, 1), "ab");
    editor.handle_key(Key::Char('h'), CONTROL);
    assert_eq!(editor.views[0].buffer.lines.len(), 1);
    assert_eq!(line(&editor, 0), "Xab");
    editor.handle_key(Key::Delete, NONE);
    assert_eq!(line(&editor, 0), "Xb");
    let effects = editor.handle_key(Key::Esc, NONE);
    assert_eq!(editor.mode, Mode::Normal);
    assert_eq!(effects.caret, Some(CaretShape::Default));
}

#[test]
fn open_line_below_and_above() {
    let mut editor = editor_over("one\ntwo\n");
    editor.handle_key(Key::Char('o'), NONE);
    assert_eq!(editor.mode, Mode::Insert);
    assert_eq!(editor.views[0].buffer.lines.len(), 3);
    assert_eq!(line(&editor, 1), "");
    assert_eq!(editor.views[0].cursor.position(), Position::new(1, 0));
    editor.handle_key(Key::Esc, NONE);
    editor.handle_key(Key::Char('j'), NONE);
    editor.handle_key(Key::Char('O'), SHIFT);
    assert_eq!(editor.views[0].buffer.lines.len(), 4);
    assert_eq!(line(&editor, 2), "");
    assert_eq!(line(&editor, 3), "two");
    assert_eq!(editor.views[0].cursor.position(), Position::new(2, 0));
}

#[test]
fn quit_needs_saved_buffer() {
    let mut editor = editor_over("ab\n");
    editor.handle_key(Key::Char('x'), NONE);
    assert_eq!(line(&editor, 0), "b");
    editor.handle_key(Key::Char('q'), NONE);
    assert!(!editor.should_quit);
    assert_eq!(editor.message.as_deref(), Some("Unsaved changes."));
    editor.handle_key(Key::Char('Q'), SHIFT);
    assert!(editor.should_quit);
}

#[test]
fn command_mode_runs_commands() {
    let mut editor = editor_over("ab\n");
    let effects = editor.handle_key(Key::Char(':'), NONE);
    assert_eq!(editor.mode, Mode::Command);
    assert_eq!(effects.caret, Some(CaretShape::Bar));
    for c in "echo hi".chars() {
        editor.handle_key(Key::Char(c), NONE);
    }
    editor.handle_key(Key::Backspace, NONE);
    assert_eq!(editor.command_bar.as_ref().map(|b| b.text()), Some(":echo h".to_string()));
    let effects = editor.handle_key(Key::Enter, NONE);
    assert_eq!(editor.mode, Mode::Normal);
    assert!(editor.command_bar.is_none());
    assert!(!effects.save);
    assert_eq!(editor.message.as_deref(), Some("h"));

    editor.handle_key(Key::Char(':'), NONE);
    editor.handle_key(Key::Char('w'), NONE);
    let effects = editor.handle_key(Key::Enter, NONE);
    assert!(!effects.save);
    assert_eq!(editor.message.as_deref(), Some("Error: No file name"));

    editor.handle_key(Key::Char(':'), NONE);
    for c in "w out.txt".chars() {
        editor.handle_key(Key::Char(c), NONE);
    }
    let effects = editor.handle_key(Key::Enter, NONE);
    assert!(effects.save);
    assert_eq!(editor.views[0].buffer.file_info.get_path(), Some("out.txt"));
    editor.saved(true);
    assert_eq!(editor.message.as_deref(), Some("File saved successfully"));
}

#[test]
fn search_mode_reports_query() {
    let mut editor = editor_over("ab\n");
    editor.handle_key(Key::Char('/'), NONE);
    assert_eq!(editor.mode, Mode::Search);
    editor.handle_key(Key::Char('a'), NONE);
    editor.handle_key(Key::Enter, NONE);
    assert_eq!(editor.message.as_deref(), Some("search: a"));
    assert_eq!(editor.mode, Mode::Normal);
}

#[test]
fn cursor_info_reports_fragment() {
    let mut editor = editor_over("a\tb\n");
    editor.handle_key(Key::Char('l'), NONE);
    editor.show_cursor_info();
    assert_eq!(
        editor.message.as_deref(),
        Some("cursor: (0, 1, 1), screen: (0, 1), off: (0, 0), [→  , 3, 1]")
    );
}

#[test]
fn page_keys_scroll_by_view_height() {
    let text: String = (0..30).map(|i| format!("line {i}\n")).collect();
    let mut editor = editor_over(&text);
    editor.handle_key(Key::PageDown, NONE);
    assert_eq!(editor.views[0].offset.line_idx, 10);
    assert_eq!(editor.views[0].cursor.line_idx(), 10);
    editor.handle_key(Key::Char('b'), CONTROL);
    assert_eq!(editor.views[0].offset.line_idx, 0);
}
