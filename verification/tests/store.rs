use todo_board::item::Item;
use todo_board::store::{load, parse_line, save, ParseError};

fn item(text: &str, completed: bool) -> Item {
    Item { text: text.to_string(), completed }
}

#[test]
fn load_reads_one_item_per_line() {
    let items = load("TODO:Buy milk\nDONE:Write report\n").unwrap();
    assert_eq!(items, vec![item("Buy milk", false), item("Write report", true)]);
}

#[test]
fn load_of_empty_file_is_empty_store() {
    assert_eq!(load("").unwrap(), Vec::<Item>::new());
}

#[test]
fn load_needs_no_trailing_newline() {
    assert_eq!(load("TODO:a\nDONE:b").unwrap(), vec![item("a", false), item("b", true)]);
}

#[test]
fn load_skips_malformed_line() {
    let items = load("garbage\nTODO:x\n").unwrap();
    assert_eq!(items, vec![item("x", false)]);
    let items = load("TODO:x\ngarbage").unwrap();
    assert_eq!(items, vec![item("x", false)]);
}

#[test]
fn load_skips_blank_lines_and_empty_parts() {
    let items = load("\n\nTODO:\n:text\nDONE:kept\n:\n").unwrap();
    assert_eq!(items, vec![item("kept", true)]);
}

#[test]
fn load_fails_on_lowercase_state() {
    assert_eq!(load("todo:bad"), Err(ParseError::UnknownState));
    assert_eq!(load("TODO:fine\ntodo:bad\nDONE:later\n"), Err(ParseError::UnknownState));
}

#[test]
fn load_fails_on_unknown_state_in_last_line() {
    assert_eq!(load("TODO:a\nDOING:b"), Err(ParseError::UnknownState));
    assert_eq!(load("TODO :a\n"), Err(ParseError::UnknownState));
}

#[test]
fn load_cuts_at_first_colon_only() {
    let items = load("TODO:meet at 10:30: room 2\nDONE:::\n").unwrap();
    assert_eq!(items, vec![item("meet at 10:30: room 2", false), item("::", true)]);
}

#[test]
fn load_keeps_carriage_return_in_text() {
    assert_eq!(load("TODO:a\r\n").unwrap(), vec![item("a\r", false)]);
}

#[test]
fn parse_line_tells_the_three_outcomes() {
    assert_eq!(parse_line("TODO:a"), Ok(Some(item("a", false))));
    assert_eq!(parse_line("DONE:a"), Ok(Some(item("a", true))));
    assert_eq!(parse_line("no colon here"), Ok(None));
    assert_eq!(parse_line(""), Ok(None));
    assert_eq!(parse_line("TODO:"), Ok(None));
    assert_eq!(parse_line(":a"), Ok(None));
    assert_eq!(parse_line("Done:a"), Err(ParseError::UnknownState));
    assert_eq!(parse_line("x:"), Ok(None));
}

#[test]
fn parse_line_reads_text_beyond_ascii() {
    assert_eq!(parse_line("TODO:café ☕"), Ok(Some(item("café ☕", false))));
}

#[test]
fn save_writes_state_colon_text_newline() {
    let items = vec![item("Buy milk", false), item("Write report", true)];
    assert_eq!(save(&items), "TODO:Buy milk\nDONE:Write report\n");
}

#[test]
fn save_of_empty_store_is_empty() {
    assert_eq!(save(&Vec::new()), "");
}

#[test]
fn load_of_saved_gives_items_back() {
    let items = vec![
        item("plain", false),
        item("with: colons: inside", true),
        item(":", false),
        item("DONE:looks like a line", false),
        item(" ", true),
        item("tab\tand\rreturn", false),
    ];
    assert_eq!(load(&save(&items)).unwrap(), items);
}

#[test]
fn empty_text_does_not_come_back() {
    let items = vec![item("", false), item("kept", true)];
    assert_eq!(save(&items), "TODO:\nDONE:kept\n");
    assert_eq!(load(&save(&items)).unwrap(), vec![item("kept", true)]);
}

#[test]
fn parse_error_has_message() {
    assert_eq!(ParseError::UnknownState.message(), "Only accepts DONE or TODO state");
}
