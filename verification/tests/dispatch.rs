use securepad::editor::Editor;
use securepad::input::{apply_edit, dispatch, Command, EditOp, Key};

#[test]
fn control_q_quits_before_everything_else() {
    assert_eq!(dispatch(Key::Char('q'), true), Command::Quit);
}

#[test]
fn control_s_saves() {
    assert_eq!(dispatch(Key::Char('s'), true), Command::Save);
}

#[test]
fn other_control_characters_do_nothing() {
    assert_eq!(dispatch(Key::Char('a'), true), Command::Idle);
    assert_eq!(dispatch(Key::Char('z'), true), Command::Idle);
}

#[test]
fn plain_characters_insert() {
    assert_eq!(dispatch(Key::Char('a'), false), Command::Edit(EditOp::Insert('a')));
    assert_eq!(dispatch(Key::Char('q'), false), Command::Edit(EditOp::Insert('q')));
    assert_eq!(dispatch(Key::Char(' '), false), Command::Edit(EditOp::Insert(' ')));
}

#[test]
fn raw_newline_characters_are_ignored() {
    assert_eq!(dispatch(Key::Char('\n'), false), Command::Idle);
}

#[test]
fn editing_keys_map_to_their_operations() {
    assert_eq!(dispatch(Key::Backspace, false), Command::Edit(EditOp::Backspace));
    assert_eq!(dispatch(Key::Delete, false), Command::Edit(EditOp::DeleteForward));
    assert_eq!(dispatch(Key::Enter, false), Command::Edit(EditOp::SplitLine));
    assert_eq!(dispatch(Key::Up, false), Command::Edit(EditOp::MoveUp));
    assert_eq!(dispatch(Key::Down, false), Command::Edit(EditOp::MoveDown));
    assert_eq!(dispatch(Key::Left, false), Command::Edit(EditOp::MoveLeft));
    assert_eq!(dispatch(Key::Right, false), Command::Edit(EditOp::MoveRight));
}

#[test]
fn unrecognized_keys_do_nothing() {
    assert_eq!(dispatch(Key::Other, false), Command::Idle);
    assert_eq!(dispatch(Key::Other, true), Command::Idle);
}

#[test]
fn editing_keys_ignore_the_control_modifier() {
    assert_eq!(dispatch(Key::Backspace, true), Command::Edit(EditOp::Backspace));
    assert_eq!(dispatch(Key::Enter, true), Command::Edit(EditOp::SplitLine));
    assert_eq!(dispatch(Key::Up, true), Command::Edit(EditOp::MoveUp));
}

#[test]
fn dispatched_edits_drive_the_buffer() {
    let mut ed = Editor::new("", 0);
    for key in [Key::Char('a'), Key::Char('b'), Key::Enter, Key::Char('c'), Key::Char('d')] {
        match dispatch(key, false) {
            Command::Edit(op) => {
                apply_edit(&mut ed, op);
            }
            other => panic!("expected an edit, got {:?}", other),
        }
    }
    assert_eq!(ed.line_count(), 2);
    assert_eq!(ed.line_text(0).as_str(), "ab");
    assert_eq!(ed.line_text(1).as_str(), "cd");
    assert_eq!(ed.cursor_line(), 1);
    assert_eq!(ed.cursor_col(), 2);
}

#[test]
fn moves_report_no_mutation() {
    let mut ed = Editor::new("ab\ncd", 0);
    assert!(!apply_edit(&mut ed, EditOp::MoveRight));
    assert!(!apply_edit(&mut ed, EditOp::MoveDown));
    assert!(!apply_edit(&mut ed, EditOp::MoveLeft));
    assert!(!apply_edit(&mut ed, EditOp::MoveUp));
    assert!(!ed.is_modified());
    assert!(apply_edit(&mut ed, EditOp::Insert('x')));
    assert!(ed.is_modified());
}

#[test]
fn boundary_edits_report_no_mutation() {
    let mut ed = Editor::new("ab", 0);
    assert!(!apply_edit(&mut ed, EditOp::Backspace));
    assert!(!ed.is_modified());
    apply_edit(&mut ed, EditOp::MoveRight);
    apply_edit(&mut ed, EditOp::MoveRight);
    assert!(!apply_edit(&mut ed, EditOp::DeleteForward));
    assert!(!ed.is_modified());
}
