use fedit::action::UndoNode;
use fedit::{Action, ActionType, Editor, Line, Point, UndoStack};

fn text_of(editor: &Editor) -> Vec<String> {
    editor.content.iter().map(|line| line.graphemes.concat()).collect()
}

fn editor_with(rows: &[&str], cursor: Point) -> Editor {
    let mut editor = Editor::new();
    editor.content = rows.iter().map(|row| Line::from_string(row.to_string())).collect();
    editor.cursor = cursor;
    editor
}

fn insert(start: Point, rows: &[&str]) -> Action {
    Action {
        start,
        end: None,
        payload: Some(rows.iter().map(|row| Line::from_string(row.to_string())).collect()),
        kind: ActionType::Insert,
    }
}

fn remove(start: Point, end: Point) -> Action {
    Action { start, end: Some(end), payload: None, kind: ActionType::Remove }
}

#[test]
fn insert_of_one_row_splices_into_the_row() {
    let mut editor = editor_with(&["abcd", "ef"], Point::new(0, 1));
    editor.apply_action(&insert(Point::new(2, 0), &["XY"]));
    assert_eq!(text_of(&editor), vec!["abXYcd", "ef"]);
    assert_eq!(editor.cursor, Point::new(4, 0));
}

#[test]
fn insert_of_several_rows_replaces_the_row() {
    let mut editor = editor_with(&["abcd", "ef"], Point::new(0, 0));
    editor.apply_action(&insert(Point::new(1, 0), &["1", "22", "333", "4"]));
    assert_eq!(text_of(&editor), vec!["a1", "22", "333", "4bcd", "ef"]);
    assert_eq!(editor.cursor, Point::new(1, 3));
}

#[test]
fn insert_of_two_rows_on_the_last_row() {
    let mut editor = editor_with(&["ab", "cd"], Point::new(0, 0));
    editor.apply_action(&insert(Point::new(1, 1), &["", ""]));
    assert_eq!(text_of(&editor), vec!["ab", "c", "d"]);
    assert_eq!(editor.cursor, Point::new(0, 2));
}

#[test]
fn insert_beyond_the_end_of_the_row_appends() {
    let mut editor = editor_with(&["ab"], Point::new(0, 0));
    editor.apply_action(&insert(Point::new(7, 0), &["cd"]));
    assert_eq!(text_of(&editor), vec!["abcd"]);
    assert_eq!(editor.cursor, Point::new(4, 0));
    editor.apply_action(&insert(Point::new(9, 0), &["x", "y"]));
    assert_eq!(text_of(&editor), vec!["abcdx", "y"]);
    assert_eq!(editor.cursor, Point::new(1, 1));
}

#[test]
fn remove_within_a_row() {
    let mut editor = editor_with(&["abcdef"], Point::new(6, 0));
    editor.apply_action(&remove(Point::new(1, 0), Point::new(4, 0)));
    assert_eq!(text_of(&editor), vec!["aef"]);
    assert_eq!(editor.cursor, Point::new(1, 0));
    editor.apply_action(&remove(Point::new(1, 0), Point::new(1, 0)));
    assert_eq!(text_of(&editor), vec!["aef"]);
}

#[test]
fn remove_over_several_rows_joins_the_ends() {
    let mut editor = editor_with(&["abc", "def", "ghi", "jkl"], Point::new(0, 3));
    editor.apply_action(&remove(Point::new(2, 0), Point::new(1, 2)));
    assert_eq!(text_of(&editor), vec!["abhi", "jkl"]);
    assert_eq!(editor.cursor, Point::new(2, 0));
}

#[test]
fn remove_takes_back_an_insert() {
    let mut editor = editor_with(&["abc", "def"], Point::new(0, 0));
    let start = Point::new(2, 1);
    editor.apply_action(&insert(start, &["1", "2", "3"]));
    let end = editor.cursor;
    assert_eq!(end, Point::new(1, 3));
    editor.apply_action(&remove(start, end));
    assert_eq!(text_of(&editor), vec!["abc", "def"]);
    assert_eq!(editor.cursor, start);
}

#[test]
fn apply_action_lets_the_screen_follow_the_cursor() {
    let mut editor = editor_with(&["a", "b", "c", "d", "e"], Point::new(0, 0));
    editor.dimensions = Point::new(10, 2);
    editor.apply_action(&insert(Point::new(1, 3), &["x"]));
    assert_eq!(editor.cursor, Point::new(2, 3));
    assert_eq!(editor.offset, Point::new(0, 2));
}

#[test]
fn action_clone_keeps_every_field() {
    let action = insert(Point::new(3, 4), &["ab", "c"]);
    let copy = action.clone();
    assert_eq!(copy.start, Point::new(3, 4));
    assert!(copy.end.is_none());
    assert!(matches!(copy.kind, ActionType::Insert));
    let rows = copy.payload.unwrap();
    assert_eq!(rows.len(), 2);
    assert_eq!(rows[0].graphemes, vec!["a", "b"]);
    assert_eq!(rows[1].graphemes, vec!["c"]);
    let copy = remove(Point::new(0, 1), Point::new(2, 1)).clone();
    assert_eq!(copy.end, Some(Point::new(2, 1)));
    assert!(copy.payload.is_none());
    assert!(matches!(copy.kind, ActionType::Remove));
}

#[test]
fn undo_stack_starts_empty() {
    let mut stack = UndoStack::new();
    assert_eq!(stack.nodes.len(), 0);
    assert_eq!(stack.index, 0);
    assert!(stack.undo().is_none());
    assert!(stack.redo().is_none());
}

#[test]
fn undo_stack_hands_out_inverse_and_forward_actions() {
    let mut stack = UndoStack::new();
    stack.add(insert(Point::new(0, 0), &["a"]), remove(Point::new(0, 0), Point::new(1, 0)));
    stack.add(insert(Point::new(1, 0), &["b"]), remove(Point::new(1, 0), Point::new(2, 0)));
    assert_eq!(stack.index, 2);
    let undo = stack.undo().unwrap();
    assert!(matches!(undo.kind, ActionType::Remove));
    assert_eq!(undo.start, Point::new(1, 0));
    assert_eq!(undo.end, Some(Point::new(2, 0)));
    assert_eq!(stack.index, 1);
    assert_eq!(stack.nodes.len(), 2);
    let redo = stack.redo().unwrap();
    assert!(matches!(redo.kind, ActionType::Insert));
    assert_eq!(redo.start, Point::new(1, 0));
    assert_eq!(redo.payload.unwrap()[0].graphemes, vec!["b"]);
    assert_eq!(stack.index, 2);
    assert!(stack.redo().is_none());
    assert_eq!(stack.index, 2);
}

#[test]
fn undo_stack_drops_the_undone_branch_on_add() {
    let mut stack = UndoStack::new();
    stack.add(insert(Point::new(0, 0), &["A"]), remove(Point::new(0, 0), Point::new(1, 0)));
    stack.add(insert(Point::new(1, 0), &["B"]), remove(Point::new(1, 0), Point::new(2, 0)));
    assert_eq!(stack.index, 2);
    assert!(stack.undo().is_some());
    assert_eq!(stack.index, 1);
    stack.add(insert(Point::new(1, 0), &["C"]), remove(Point::new(1, 0), Point::new(2, 0)));
    assert!(stack.redo().is_none());
    assert_eq!(stack.index, 2);
    let kept: Vec<String> = stack
        .nodes
        .iter()
        .map(|node: &UndoNode| node.redo.payload.as_ref().unwrap()[0].graphemes.concat())
        .collect();
    assert_eq!(kept, vec!["A", "C"]);
}

#[test]
fn undo_stack_at_the_start_keeps_its_index() {
    let mut stack = UndoStack::new();
    stack.add(insert(Point::new(0, 0), &["A"]), remove(Point::new(0, 0), Point::new(1, 0)));
    assert!(stack.undo().is_some());
    assert!(stack.undo().is_none());
    assert_eq!(stack.index, 0);
    assert_eq!(stack.nodes.len(), 1);
}

#[test]
fn undo_stack_hands_back_what_was_stored_field_by_field() {
    let mut stack = UndoStack::new();
    stack.add(insert(Point::new(2, 3), &["ab", ""]), remove(Point::new(2, 3), Point::new(0, 4)));
    let undo = stack.undo().unwrap();
    assert!(matches!(undo.kind, ActionType::Remove));
    assert_eq!(undo.start, Point::new(2, 3));
    assert_eq!(undo.end, Some(Point::new(0, 4)));
    assert!(undo.payload.is_none());
    let redo = stack.redo().unwrap();
    assert!(matches!(redo.kind, ActionType::Insert));
    assert_eq!(redo.start, Point::new(2, 3));
    assert!(redo.end.is_none());
    let rows = redo.payload.unwrap();
    assert_eq!(rows.len(), 2);
    assert_eq!(rows[0].graphemes, vec!["a", "b"]);
    assert_eq!(rows[1].len(), 0);
    assert_eq!(stack.nodes.len(), 1);
    assert_eq!(stack.nodes[0].redo.start, Point::new(2, 3));
    assert_eq!(stack.nodes[0].undo.end, Some(Point::new(0, 4)));
}
