use todo_board::editor::Editor;
use todo_board::item::Item;
use todo_board::position::Position;

fn type_text(editor: &mut Editor, cursor: &mut Position, text: &str) {
    for c in text.chars() {
        editor.insert_char(cursor, c);
    }
}

#[test]
fn new_editor_is_empty() {
    assert_eq!(Editor::new().text(), "");
}

#[test]
fn insert_char_appends_and_moves_right() {
    let mut editor = Editor::new();
    let mut cursor = Position::new(0, 1);
    editor.insert_char(&mut cursor, 'a');
    assert_eq!(editor.text(), "a");
    assert_eq!(cursor, Position { x: 1, y: 1, max_y: 1 });
    editor.insert_char(&mut cursor, 'é');
    assert_eq!(editor.text(), "aé");
    assert_eq!(cursor.x, 2);
}

#[test]
fn backspace_removes_last_and_moves_left() {
    let mut editor = Editor::new();
    let mut cursor = Position::new(0, 1);
    type_text(&mut editor, &mut cursor, "abé");
    editor.backspace(&mut cursor);
    assert_eq!(editor.text(), "ab");
    assert_eq!(cursor.x, 2);
    editor.backspace(&mut cursor);
    assert_eq!(editor.text(), "a");
    assert_eq!(cursor.x, 1);
}

#[test]
fn backspace_on_empty_buffer_does_nothing() {
    let mut editor = Editor::new();
    let mut cursor = Position { x: 3, y: 1, max_y: 2 };
    editor.backspace(&mut cursor);
    assert_eq!(editor.text(), "");
    assert_eq!(cursor, Position { x: 3, y: 1, max_y: 2 });
}

#[test]
fn commit_gives_open_item_and_clears() {
    let mut editor = Editor::new();
    let mut cursor = Position::new(0, 1);
    type_text(&mut editor, &mut cursor, "Buy milk");
    let item = editor.commit();
    assert_eq!(item, Item { text: "Buy milk".to_string(), completed: false });
    assert_eq!(editor.text(), "");
}

#[test]
fn commit_of_empty_buffer_gives_empty_item() {
    let mut editor = Editor::new();
    let item = editor.commit();
    assert_eq!(item, Item { text: String::new(), completed: false });
    assert_eq!(editor.text(), "");
}

#[test]
fn cancel_clears() {
    let mut editor = Editor::new();
    let mut cursor = Position::new(0, 1);
    type_text(&mut editor, &mut cursor, "never mind");
    editor.cancel();
    assert_eq!(editor.text(), "");
}
