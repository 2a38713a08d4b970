use securepad::editor::Editor;

fn lines_of(ed: &Editor) -> Vec<String> {
    let mut out = Vec::new();
    let mut i = 0;
    while i < ed.line_count() {
        out.push(ed.line_text(i));
        i += 1;
    }
    out
}

#[test]
fn insert_on_empty_document() {
    let mut ed = Editor::new("", 0);
    assert_eq!(ed.line_count(), 1);
    assert_eq!(ed.line_text(0).as_str(), "");
    let mutated = ed.insert_char('x');
    assert!(mutated);
    assert_eq!(ed.line_count(), 1);
    assert_eq!(ed.line_text(0).as_str(), "x");
    assert_eq!(ed.cursor_line(), 0);
    assert_eq!(ed.cursor_col(), 1);
    assert!(ed.is_modified());
}

#[test]
fn typing_two_lines() {
    let mut ed = Editor::new("", 0);
    ed.insert_char('a');
    ed.insert_char('b');
    ed.split_line();
    ed.insert_char('c');
    ed.insert_char('d');
    assert_eq!(ed.line_count(), 2);
    assert_eq!(ed.line_text(0).as_str(), "ab");
    assert_eq!(ed.line_text(1).as_str(), "cd");
    assert_eq!(ed.cursor_line(), 1);
    assert_eq!(ed.cursor_col(), 2);
}

#[test]
fn backspace_at_document_start_is_noop() {
    let mut ed = Editor::new("hello\nworld", 0);
    let before = lines_of(&ed);
    let mutated = ed.backspace();
    assert!(!mutated);
    assert_eq!(lines_of(&ed), before);
    assert_eq!(ed.cursor_line(), 0);
    assert_eq!(ed.cursor_col(), 0);
    assert!(!ed.is_modified());
}

#[test]
fn backspace_removes_character() {
    let mut ed = Editor::new("abc", 0);
    ed.move_right();
    ed.move_right();
    let mutated = ed.backspace();
    assert!(mutated);
    assert_eq!(ed.line_text(0).as_str(), "ac");
    assert_eq!(ed.cursor_col(), 1);
}

#[test]
fn backspace_merges_lines() {
    let mut ed = Editor::new("ab\ncd", 0);
    ed.move_down();
    assert_eq!(ed.cursor_line(), 1);
    assert_eq!(ed.cursor_col(), 0);
    let mutated = ed.backspace();
    assert!(mutated);
    assert_eq!(ed.line_count(), 1);
    assert_eq!(ed.line_text(0).as_str(), "abcd");
    assert_eq!(ed.cursor_line(), 0);
    assert_eq!(ed.cursor_col(), 2);
}

#[test]
fn delete_forward_removes_character_under_cursor() {
    let mut ed = Editor::new("abc", 0);
    let mutated = ed.delete_forward();
    assert!(mutated);
    assert_eq!(ed.line_text(0).as_str(), "bc");
    assert_eq!(ed.cursor_col(), 0);
}

#[test]
fn delete_forward_merges_next_line() {
    let mut ed = Editor::new("ab\ncd", 0);
    ed.move_right();
    ed.move_right();
    assert_eq!(ed.cursor_col(), 2);
    let mutated = ed.delete_forward();
    assert!(mutated);
    assert_eq!(ed.line_count(), 1);
    assert_eq!(ed.line_text(0).as_str(), "abcd");
    assert_eq!(ed.cursor_col(), 2);
}

#[test]
fn delete_forward_at_document_end_is_noop() {
    let mut ed = Editor::new("ab", 0);
    ed.move_right();
    ed.move_right();
    let mutated = ed.delete_forward();
    assert!(!mutated);
    assert_eq!(ed.line_text(0).as_str(), "ab");
    assert!(!ed.is_modified());
}

#[test]
fn split_line_in_middle() {
    let mut ed = Editor::new("abcd", 0);
    ed.move_right();
    ed.move_right();
    let mutated = ed.split_line();
    assert!(mutated);
    assert_eq!(ed.line_count(), 2);
    assert_eq!(ed.line_text(0).as_str(), "ab");
    assert_eq!(ed.line_text(1).as_str(), "cd");
    assert_eq!(ed.cursor_line(), 1);
    assert_eq!(ed.cursor_col(), 0);
}

#[test]
fn split_then_backspace_restores_line_and_cursor() {
    let mut ed = Editor::new("abcd", 0);
    ed.move_right();
    ed.move_right();
    ed.split_line();
    ed.backspace();
    assert_eq!(ed.line_count(), 1);
    assert_eq!(ed.line_text(0).as_str(), "abcd");
    assert_eq!(ed.cursor_line(), 0);
    assert_eq!(ed.cursor_col(), 2);
}

#[test]
fn move_right_at_end_of_last_line_is_noop() {
    let mut ed = Editor::new("ab", 0);
    ed.move_right();
    ed.move_right();
    assert_eq!(ed.cursor_col(), 2);
    ed.move_right();
    assert_eq!(ed.cursor_line(), 0);
    assert_eq!(ed.cursor_col(), 2);
}

#[test]
fn move_right_wraps_to_next_line() {
    let mut ed = Editor::new("ab\ncd", 0);
    ed.move_right();
    ed.move_right();
    ed.move_right();
    assert_eq!(ed.cursor_line(), 1);
    assert_eq!(ed.cursor_col(), 0);
}

#[test]
fn move_left_wraps_to_previous_line_end() {
    let mut ed = Editor::new("ab\ncd", 0);
    ed.move_down();
    ed.move_left();
    assert_eq!(ed.cursor_line(), 0);
    assert_eq!(ed.cursor_col(), 2);
}

#[test]
fn move_left_at_document_start_is_noop() {
    let mut ed = Editor::new("ab", 0);
    ed.move_left();
    assert_eq!(ed.cursor_line(), 0);
    assert_eq!(ed.cursor_col(), 0);
}

#[test]
fn vertical_moves_clamp_column() {
    let mut ed = Editor::new("abcd\nx\nefgh", 0);
    ed.move_right();
    ed.move_right();
    ed.move_right();
    assert_eq!(ed.cursor_col(), 3);
    ed.move_down();
    assert_eq!(ed.cursor_line(), 1);
    assert_eq!(ed.cursor_col(), 1);
    ed.move_down();
    assert_eq!(ed.cursor_line(), 2);
    assert_eq!(ed.cursor_col(), 1);
    ed.move_up();
    ed.move_up();
    assert_eq!(ed.cursor_line(), 0);
    assert_eq!(ed.cursor_col(), 1);
    ed.move_up();
    assert_eq!(ed.cursor_line(), 0);
}

#[test]
fn buffer_never_loses_its_last_line() {
    let mut ed = Editor::new("a", 0);
    ed.move_right();
    ed.backspace();
    assert_eq!(ed.line_count(), 1);
    ed.backspace();
    ed.delete_forward();
    assert_eq!(ed.line_count(), 1);
    assert_eq!(ed.line_text(0).as_str(), "");
}

#[test]
fn cursor_stays_in_bounds_over_a_busy_sequence() {
    let mut ed = Editor::new("one\ntwo\nthree", 0);
    ed.move_down();
    ed.move_right();
    ed.split_line();
    ed.insert_char('!');
    ed.backspace();
    ed.backspace();
    ed.move_up();
    ed.move_up();
    ed.delete_forward();
    ed.move_down();
    ed.move_down();
    ed.move_down();
    assert!(ed.line_count() >= 1);
    let line = ed.cursor_line();
    assert!(line < ed.line_count());
    let text = ed.line_text(line);
    assert!(ed.cursor_col() <= text.chars().count());
}
