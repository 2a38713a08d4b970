use securepad::editor::Editor;
use securepad::render::{
    centered_pads, content_rows, cursor_screen_position, display_line, status_line,
};

#[test]
fn status_line_shows_one_based_position_and_hints() {
    let ed = Editor::new("ab\ncd", 0);
    assert_eq!(
        status_line(&ed).as_str(),
        "Line: 1/2 | Col: 1 | [Ctrl+Q] Quit | [Ctrl+S] Save"
    );
}

#[test]
fn status_line_follows_the_cursor() {
    let mut ed = Editor::new("ab\ncd\nef", 0);
    ed.move_down();
    ed.move_right();
    ed.move_right();
    assert_eq!(
        status_line(&ed).as_str(),
        "Line: 2/3 | Col: 3 | [Ctrl+Q] Quit | [Ctrl+S] Save"
    );
}

#[test]
fn status_line_renders_multi_digit_numbers() {
    let mut text = String::new();
    for _ in 0..11 {
        text.push('\n');
    }
    let mut ed = Editor::new(text.as_str(), 0);
    for _ in 0..11 {
        ed.move_down();
    }
    assert_eq!(
        status_line(&ed).as_str(),
        "Line: 12/12 | Col: 1 | [Ctrl+Q] Quit | [Ctrl+S] Save"
    );
}

#[test]
fn centering_splits_the_leftover_width() {
    assert_eq!(centered_pads(80, 16), (32, 32));
    assert_eq!(centered_pads(81, 16), (32, 33));
    assert_eq!(centered_pads(16, 16), (0, 0));
}

#[test]
fn centering_of_a_too_wide_segment_pads_nothing() {
    assert_eq!(centered_pads(10, 16), (0, 0));
}

#[test]
fn content_rows_keeps_header_and_footer_space() {
    assert_eq!(content_rows(10, 3), 3);
    assert_eq!(content_rows(10, 20), 7);
    assert_eq!(content_rows(3, 20), 0);
    assert_eq!(content_rows(2, 20), 0);
}

#[test]
fn terminal_cursor_sits_on_its_own_line_below_the_header() {
    let mut ed = Editor::new("ab\ncd", 0);
    ed.move_down();
    ed.move_right();
    assert_eq!(cursor_screen_position(&ed), (1, 2));
}

#[test]
fn terminal_cursor_starts_right_under_the_header() {
    let ed = Editor::new("ab", 0);
    assert_eq!(cursor_screen_position(&ed), (0, 1));
}

#[test]
fn empty_lines_render_as_a_blank_placeholder() {
    let ed = Editor::new("ab\n\ncd", 0);
    assert_eq!(display_line(&ed, 0).as_str(), "ab");
    assert_eq!(display_line(&ed, 1).as_str(), " ");
    assert_eq!(display_line(&ed, 2).as_str(), "cd");
}
