use fedit::editor::input::command_for;
use fedit::editor::{Command, Direction, Key, Modifiers, MouseInput, Request};
use fedit::{Editor, Line, Point};

const NONE: Modifiers = Modifiers {
    shift: false,
    control: false,
    alt: false,
    super_key: false,
    hyper: false,
    meta: false,
};
const SHIFT: Modifiers = Modifiers { shift: true, ..NONE };
const SUPER: Modifiers = Modifiers { super_key: true, ..NONE };
const CONTROL: Modifiers = Modifiers { control: true, ..NONE };

fn text_of(editor: &Editor) -> Vec<String> {
    editor.content.iter().map(|line| line.graphemes.concat()).collect()
}

fn editor_with(rows: &[&str], cursor: Point) -> Editor {
    let mut editor = Editor::new();
    editor.content = rows.iter().map(|row| Line::from_string(row.to_string())).collect();
    editor.cursor = cursor;
    editor.dimensions = Point::new(80, 24);
    editor
}

#[test]
fn previous_and_next_point_step_over_row_ends() {
    let mut editor = editor_with(&["ab", "", "cd"], Point::new(1, 0));
    assert_eq!(editor.get_previous_point(), Some(Point::new(0, 0)));
    assert_eq!(editor.get_next_point(), Some(Point::new(2, 0)));
    editor.cursor = Point::new(0, 0);
    assert_eq!(editor.get_previous_point(), None);
    editor.cursor = Point::new(2, 0);
    assert_eq!(editor.get_next_point(), Some(Point::new(0, 1)));
    editor.cursor = Point::new(0, 1);
    assert_eq!(editor.get_previous_point(), Some(Point::new(2, 0)));
    assert_eq!(editor.get_next_point(), Some(Point::new(0, 2)));
    editor.cursor = Point::new(2, 2);
    assert_eq!(editor.get_next_point(), None);
    assert_eq!(editor.get_previous_point(), Some(Point::new(1, 2)));
}

#[test]
fn offset_follows_the_cursor_down_and_up() {
    let mut editor = editor_with(&["a", "b", "c", "d", "e", "f"], Point::new(0, 0));
    editor.dimensions = Point::new(10, 3);
    editor.move_cursor(Point::new(0, 2));
    assert_eq!(editor.offset, Point::new(0, 0));
    editor.move_cursor(Point::new(0, 3));
    assert_eq!(editor.offset, Point::new(0, 1));
    editor.move_cursor(Point::new(1, 5));
    assert_eq!(editor.offset, Point::new(0, 3));
    editor.move_cursor(Point::new(0, 4));
    assert_eq!(editor.offset, Point::new(0, 3));
    editor.move_cursor(Point::new(0, 1));
    assert_eq!(editor.offset, Point::new(0, 1));
    assert_eq!(editor.cursor, Point::new(0, 1));
}

#[test]
fn offset_follows_the_display_column_of_the_cursor() {
    let mut editor = editor_with(&["\tabcdefghij"], Point::new(0, 0));
    editor.dimensions = Point::new(5, 3);
    editor.move_cursor(Point::new(1, 0));
    assert_eq!(editor.offset, Point::new(0, 0));
    editor.move_cursor(Point::new(2, 0));
    assert_eq!(editor.offset, Point::new(1, 0));
    editor.move_cursor(Point::new(8, 0));
    assert_eq!(editor.offset, Point::new(7, 0));
    editor.move_cursor(Point::new(1, 0));
    assert_eq!(editor.offset, Point::new(4, 0));
    editor.cursor = Point::new(0, 0);
    editor.adjust_offset();
    assert_eq!(editor.offset, Point::new(0, 0));
}

#[test]
fn left_and_right_step_by_graphemes_and_set_the_preferred_width() {
    let mut editor = editor_with(&["a\tb", "cd"], Point::new(1, 0));
    editor.handle_movement_input(Direction::Right, NONE);
    assert_eq!(editor.cursor, Point::new(2, 0));
    assert_eq!(editor.preferred_width, 4);
    editor.handle_movement_input(Direction::Right, NONE);
    editor.handle_movement_input(Direction::Right, NONE);
    assert_eq!(editor.cursor, Point::new(0, 1));
    assert_eq!(editor.preferred_width, 0);
    editor.handle_movement_input(Direction::Left, NONE);
    assert_eq!(editor.cursor, Point::new(3, 0));
    assert_eq!(editor.preferred_width, 5);
    editor.cursor = Point::new(0, 0);
    editor.handle_movement_input(Direction::Left, NONE);
    assert_eq!(editor.cursor, Point::new(0, 0));
    editor.cursor = Point::new(2, 1);
    editor.handle_movement_input(Direction::Right, NONE);
    assert_eq!(editor.cursor, Point::new(2, 1));
    assert_eq!(editor.preferred_width, 2);
}

#[test]
fn up_and_down_keep_the_preferred_width() {
    let mut editor = editor_with(&["abcdef", "\tx", "ab", "abcdef"], Point::new(5, 0));
    editor.preferred_width = 5;
    editor.handle_movement_input(Direction::Down, NONE);
    assert_eq!(editor.cursor, Point::new(2, 1));
    assert_eq!(editor.preferred_width, 5);
    editor.handle_movement_input(Direction::Down, NONE);
    assert_eq!(editor.cursor, Point::new(2, 2));
    editor.handle_movement_input(Direction::Down, NONE);
    assert_eq!(editor.cursor, Point::new(5, 3));
    editor.handle_movement_input(Direction::Down, NONE);
    assert_eq!(editor.cursor, Point::new(5, 3));
    editor.preferred_width = 2;
    editor.handle_movement_input(Direction::Up, NONE);
    assert_eq!(editor.cursor, Point::new(2, 2));
    editor.handle_movement_input(Direction::Up, NONE);
    assert_eq!(editor.cursor, Point::new(0, 1));
    editor.handle_movement_input(Direction::Up, NONE);
    editor.handle_movement_input(Direction::Up, NONE);
    assert_eq!(editor.cursor, Point::new(2, 0));
}

#[test]
fn super_jumps_to_the_ends() {
    let mut editor = editor_with(&["abc", "de", "fgh"], Point::new(1, 1));
    editor.preferred_width = 7;
    editor.handle_movement_input(Direction::Left, SUPER);
    assert_eq!(editor.cursor, Point::new(0, 1));
    assert_eq!(editor.preferred_width, 7);
    editor.handle_movement_input(Direction::Left, SUPER);
    assert_eq!(editor.cursor, Point::new(3, 0));
    editor.handle_movement_input(Direction::Right, SUPER);
    assert_eq!(editor.cursor, Point::new(0, 1));
    editor.handle_movement_input(Direction::Right, SUPER);
    assert_eq!(editor.cursor, Point::new(2, 1));
    editor.handle_movement_input(Direction::Down, SUPER);
    assert_eq!(editor.cursor, Point::new(3, 2));
    assert_eq!(editor.preferred_width, 0);
    editor.handle_movement_input(Direction::Right, SUPER);
    assert_eq!(editor.cursor, Point::new(3, 2));
    editor.handle_movement_input(Direction::Up, SUPER);
    assert_eq!(editor.cursor, Point::new(0, 0));
    editor.handle_movement_input(Direction::Left, SUPER);
    assert_eq!(editor.cursor, Point::new(0, 0));
}

#[test]
fn shift_extends_the_selection_and_a_plain_move_drops_it() {
    let mut editor = editor_with(&["abc", "de"], Point::new(1, 0));
    editor.handle_movement_input(Direction::Right, SHIFT);
    assert_eq!(editor.selection, Some([Point::new(1, 0), Point::new(2, 0)]));
    editor.handle_movement_input(Direction::Down, SHIFT);
    assert_eq!(editor.selection, Some([Point::new(1, 0), Point::new(2, 1)]));
    editor.handle_movement_input(Direction::Left, NONE);
    assert_eq!(editor.selection, None);
    assert_eq!(editor.cursor, Point::new(1, 1));
}

#[test]
fn handle_selection_keeps_the_anchor() {
    let mut editor = editor_with(&["abc", "de"], Point::new(0, 0));
    editor.handle_selection(Point::new(2, 0), Point::new(1, 1));
    assert_eq!(editor.selection, Some([Point::new(2, 0), Point::new(1, 1)]));
    editor.handle_selection(Point::new(1, 1), Point::new(0, 0));
    assert_eq!(editor.selection, Some([Point::new(2, 0), Point::new(0, 0)]));
}

#[test]
fn click_puts_the_cursor_under_the_mouse() {
    let mut editor = editor_with(&["abcdef", "\txy", "z"], Point::new(0, 0));
    editor.offset = Point::new(2, 0);
    let changed =
        editor.handle_mouse_event(MouseInput { left_button_down: true, column: 1, row: 0 });
    assert!(changed);
    assert_eq!(editor.cursor, Point::new(3, 0));
    assert_eq!(editor.preferred_width, 3);
    assert_eq!(editor.offset, Point::new(2, 0));
    let changed =
        editor.handle_mouse_event(MouseInput { left_button_down: true, column: 2, row: 1 });
    assert!(changed);
    assert_eq!(editor.cursor, Point::new(0, 1));
    assert_eq!(editor.preferred_width, 2);
    assert_eq!(editor.offset, Point::new(0, 0));
    editor.handle_mouse_event(MouseInput { left_button_down: true, column: 30, row: 2 });
    assert_eq!(editor.cursor, Point::new(1, 2));
    assert_eq!(editor.preferred_width, 30);
    let changed =
        editor.handle_mouse_event(MouseInput { left_button_down: false, column: 0, row: 0 });
    assert!(!changed);
    assert_eq!(editor.cursor, Point::new(1, 2));
}

#[test]
fn keys_map_to_commands() {
    assert_eq!(command_for(Key::Char('q'), CONTROL), Command::Quit);
    assert_eq!(command_for(Key::Char('s'), CONTROL), Command::Save);
    assert_eq!(command_for(Key::Char('c'), CONTROL), Command::Copy);
    assert_eq!(command_for(Key::Char('v'), CONTROL), Command::Paste);
    assert_eq!(command_for(Key::Char('z'), CONTROL), Command::Undo);
    assert_eq!(command_for(Key::Char('y'), CONTROL), Command::Redo);
    assert_eq!(command_for(Key::Char('x'), CONTROL), Command::Ignore);
    assert_eq!(command_for(Key::Char('q'), Modifiers { shift: true, ..CONTROL }), Command::Ignore);
    assert_eq!(command_for(Key::Char('q'), NONE), Command::InsertChar('q'));
    assert_eq!(command_for(Key::Char('Q'), SHIFT), Command::InsertChar('Q'));
    assert_eq!(command_for(Key::Char('a'), Modifiers { alt: true, ..NONE }), Command::Ignore);
    assert_eq!(command_for(Key::Char('a'), SUPER), Command::Ignore);
    assert_eq!(command_for(Key::Up, CONTROL), Command::Move(Direction::Up));
    assert_eq!(command_for(Key::Down, NONE), Command::Move(Direction::Down));
    assert_eq!(command_for(Key::Left, SHIFT), Command::Move(Direction::Left));
    assert_eq!(command_for(Key::Right, SUPER), Command::Move(Direction::Right));
    assert_eq!(command_for(Key::Backspace, CONTROL), Command::RemoveChar);
    assert_eq!(command_for(Key::Tab, SHIFT), Command::InsertChar('\t'));
    assert_eq!(command_for(Key::Enter, NONE), Command::InsertNewline);
    assert_eq!(command_for(Key::Other, NONE), Command::Ignore);
}

#[test]
fn key_events_drive_the_editor() {
    let mut editor = editor_with(&[""], Point::new(0, 0));
    assert_eq!(editor.handle_key_event(Key::Char('a'), NONE), Request::Draw);
    assert_eq!(editor.handle_key_event(Key::Char('B'), SHIFT), Request::Draw);
    assert_eq!(editor.handle_key_event(Key::Enter, NONE), Request::Draw);
    assert_eq!(editor.handle_key_event(Key::Tab, NONE), Request::Draw);
    assert_eq!(text_of(&editor), vec!["aB", "\t"]);
    assert_eq!(editor.handle_key_event(Key::Backspace, NONE), Request::Draw);
    assert_eq!(text_of(&editor), vec!["aB", ""]);
    assert_eq!(editor.handle_key_event(Key::Char('z'), CONTROL), Request::Draw);
    assert_eq!(text_of(&editor), vec!["aB", "\t"]);
    assert_eq!(editor.handle_key_event(Key::Char('z'), CONTROL), Request::Draw);
    assert_eq!(editor.handle_key_event(Key::Char('z'), CONTROL), Request::Draw);
    assert_eq!(text_of(&editor), vec!["aB"]);
    assert_eq!(editor.handle_key_event(Key::Char('y'), CONTROL), Request::Draw);
    assert_eq!(text_of(&editor), vec!["aB", ""]);
    assert_eq!(editor.handle_key_event(Key::Up, NONE), Request::Draw);
    assert_eq!(editor.handle_key_event(Key::Right, SHIFT), Request::Draw);
    assert_eq!(editor.handle_key_event(Key::Char('c'), CONTROL), Request::Draw);
    assert_eq!(editor.handle_key_event(Key::Char('v'), CONTROL), Request::Draw);
    assert_eq!(text_of(&editor), vec!["aaB", ""]);
    assert_eq!(editor.handle_key_event(Key::Char('s'), CONTROL), Request::Save);
    assert_eq!(editor.handle_key_event(Key::Char('q'), CONTROL), Request::Quit);
    assert_eq!(editor.handle_key_event(Key::Other, NONE), Request::Draw);
    assert_eq!(editor.handle_key_event(Key::Char('k'), SUPER), Request::Draw);
    assert_eq!(text_of(&editor), vec!["aaB", ""]);
}
