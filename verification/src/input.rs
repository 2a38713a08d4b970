//! The input dispatcher: maps a key event plus modifier to exactly one
//! command — quit, save, a buffer edit, or nothing. Quit is decided before
//! everything else, so it always ends the loop regardless of buffer state.

use vstd::prelude::*;

use crate::editor::Editor;
use crate::model::{
    backspace_at, delete_forward_at, insert_char_at, move_down_at, move_left_at, move_right_at,
    move_up_at, split_line_at, EditorView,
};

verus! {

/// A key press, reduced to what the dispatcher distinguishes.
#[derive(Clone, Copy, PartialEq, Eq, Structural, Debug)]
pub enum Key {
    /// A character key (the modifier travels separately).
    Char(char),
    Backspace,
    Delete,
    Enter,
    Up,
    Down,
    Left,
    Right,
    /// Any key the editor does not react to.
    Other,
}

/// A buffer edit selected by the dispatcher.
#[derive(Clone, Copy, PartialEq, Eq, Structural, Debug)]
pub enum EditOp {
    Insert(char),
    Backspace,
    DeleteForward,
    SplitLine,
    MoveUp,
    MoveDown,
    MoveLeft,
    MoveRight,
}

/// What one key event amounts to.
#[derive(Clone, Copy, PartialEq, Eq, Structural, Debug)]
pub enum Command {
    /// End the editing loop.
    Quit,
    /// Save the document now, independent of the autosave timer.
    Save,
    /// Apply a buffer edit.
    Edit(EditOp),
    /// Do nothing.
    Idle,
}

/// The key-to-command mapping. The control modifier matters only for
/// character keys: control + 'q' quits (decided before everything else),
/// control + 's' saves, any other control character does nothing. A plain
/// character inserts, except the newline character, which only ever enters a
/// document through `Enter`. Editing and movement keys act regardless of the
/// modifier; unrecognized keys do nothing.
pub open spec fn command_of(key: Key, ctrl: bool) -> Command {
    match key {
        Key::Char(c) => if ctrl {
            if c == 'q' {
                Command::Quit
            } else if c == 's' {
                Command::Save
            } else {
                Command::Idle
            }
        } else {
            if c != '\n' {
                Command::Edit(EditOp::Insert(c))
            } else {
                Command::Idle
            }
        },
        Key::Backspace => Command::Edit(EditOp::Backspace),
        Key::Delete => Command::Edit(EditOp::DeleteForward),
        Key::Enter => Command::Edit(EditOp::SplitLine),
        Key::Up => Command::Edit(EditOp::MoveUp),
        Key::Down => Command::Edit(EditOp::MoveDown),
        Key::Left => Command::Edit(EditOp::MoveLeft),
        Key::Right => Command::Edit(EditOp::MoveRight),
        Key::Other => Command::Idle,
    }
}

/// An edit the buffer accepts: everything but inserting a raw newline
/// (line breaks are made by `SplitLine`). The dispatcher only emits
/// acceptable edits.
pub open spec fn edit_acceptable(op: EditOp) -> bool {
    match op {
        EditOp::Insert(c) => c != '\n',
        _ => true,
    }
}

/// The state an edit leads to, as a transition of the model.
pub open spec fn edit_applied(v: EditorView, op: EditOp) -> EditorView {
    match op {
        EditOp::Insert(c) => insert_char_at(v, c),
        EditOp::Backspace => backspace_at(v),
        EditOp::DeleteForward => delete_forward_at(v),
        EditOp::SplitLine => split_line_at(v),
        EditOp::MoveUp => move_up_at(v),
        EditOp::MoveDown => move_down_at(v),
        EditOp::MoveLeft => move_left_at(v),
        EditOp::MoveRight => move_right_at(v),
    }
}

/// Whether an edit changes the document's content in state `v` (cursor moves
/// never do; boundary no-ops do not).
pub open spec fn edit_mutates(v: EditorView, op: EditOp) -> bool {
    match op {
        EditOp::Insert(_) => true,
        EditOp::Backspace => v.col > 0 || v.line > 0,
        EditOp::DeleteForward => v.col < v.current_line().len() || v.line + 1 < v.lines.len(),
        EditOp::SplitLine => true,
        EditOp::MoveUp => false,
        EditOp::MoveDown => false,
        EditOp::MoveLeft => false,
        EditOp::MoveRight => false,
    }
}

/// Maps one key event to its command, exactly as `command_of` states.
pub fn dispatch(key: Key, ctrl: bool) -> (cmd: Command)
    ensures
        cmd == command_of(key, ctrl),
        cmd matches Command::Edit(op) ==> edit_acceptable(op),
{
    match key {
        Key::Char(c) => {
            if ctrl {
                if c == 'q' {
                    Command::Quit
                } else if c == 's' {
                    Command::Save
                } else {
                    Command::Idle
                }
            } else {
                if c != '\n' {
                    Command::Edit(EditOp::Insert(c))
                } else {
                    Command::Idle
                }
            }
        },
        Key::Backspace => Command::Edit(EditOp::Backspace),
        Key::Delete => Command::Edit(EditOp::DeleteForward),
        Key::Enter => Command::Edit(EditOp::SplitLine),
        Key::Up => Command::Edit(EditOp::MoveUp),
        Key::Down => Command::Edit(EditOp::MoveDown),
        Key::Left => Command::Edit(EditOp::MoveLeft),
        Key::Right => Command::Edit(EditOp::MoveRight),
        Key::Other => Command::Idle,
    }
}

/// Applies one edit to the buffer, returning whether content changed (the
/// dirty flag is set by the operation itself exactly when it does).
pub fn apply_edit(ed: &mut Editor, op: EditOp) -> (mutated: bool)
    requires
        old(ed).wf(),
        edit_acceptable(op),
    ensures
        final(ed)@ == edit_applied(old(ed)@, op),
        final(ed).wf(),
        mutated == edit_mutates(old(ed)@, op),
{
    match op {
        EditOp::Insert(c) => ed.insert_char(c),
        EditOp::Backspace => ed.backspace(),
        EditOp::DeleteForward => ed.delete_forward(),
        EditOp::SplitLine => ed.split_line(),
        EditOp::MoveUp => {
            ed.move_up();
            false
        },
        EditOp::MoveDown => {
            ed.move_down();
            false
        },
        EditOp::MoveLeft => {
            ed.move_left();
            false
        },
        EditOp::MoveRight => {
            ed.move_right();
            false
        },
    }
}

} // verus!
