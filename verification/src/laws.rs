//! The laws the editor obeys, stated over the model and proved once for all
//! states. The persistence round-trip law lives beside the text codec, as
//! [`crate::text::lemma_split_join_round_trip`].

use vstd::prelude::*;

use crate::input::{edit_acceptable, edit_applied, edit_mutates, EditOp};
use crate::model::{
    autosave_due_at, backspace_at, lemma_backspace_wf, lemma_delete_forward_wf,
    lemma_insert_char_wf, lemma_moves_wf, lemma_split_line_wf, mark_saved_at, move_right_at,
    split_line_at, EditorView,
};
use crate::text::{join_lines, lemma_split_join_round_trip, split_text};

verus! {

/// Every edit keeps the buffer well-formed: the line count stays at least 1,
/// the cursor stays on an existing line, and its column never passes the end
/// of that line.
pub proof fn lemma_edit_preserves_invariants(v: EditorView, op: EditOp)
    requires
        v.wf(),
        edit_acceptable(op),
    ensures
        edit_applied(v, op).wf(),
        edit_applied(v, op).lines.len() >= 1,
        edit_applied(v, op).line < edit_applied(v, op).lines.len(),
        edit_applied(v, op).col <= edit_applied(v, op).current_line().len(),
{
    match op {
        EditOp::Insert(c) => lemma_insert_char_wf(v, c),
        EditOp::Backspace => lemma_backspace_wf(v),
        EditOp::DeleteForward => lemma_delete_forward_wf(v),
        EditOp::SplitLine => lemma_split_line_wf(v),
        _ => lemma_moves_wf(v),
    }
}

/// Splitting a line and immediately backspacing at column 0 of the new line
/// restores the original lines and the original cursor position.
pub proof fn lemma_split_then_backspace_round_trip(v: EditorView)
    requires
        v.wf(),
    ensures
        backspace_at(split_line_at(v)).lines == v.lines,
        backspace_at(split_line_at(v)).line == v.line,
        backspace_at(split_line_at(v)).col == v.col,
{
    lemma_split_line_wf(v);
    let s = split_line_at(v);
    let head = v.current_line().take(v.col as int);
    let tail = v.current_line().skip(v.col as int);
    let r = backspace_at(s);
    assert(s.lines[v.line as int] == head);
    assert(s.lines[v.line as int + 1] == tail);
    assert(head + tail =~~= v.current_line());
    assert(s.lines.remove(v.line as int + 1) =~~= v.lines.update(v.line as int, head));
    assert(r.lines =~~= v.lines.update(v.line as int, head + tail));
    assert(r.lines =~~= v.lines);
}

/// Backspace at the document start (line 0, column 0) is a no-op: buffer and
/// cursor are unchanged, and the dirty flag keeps its value.
pub proof fn lemma_backspace_at_start_is_noop(v: EditorView)
    requires
        v.wf(),
        v.line == 0,
        v.col == 0,
    ensures
        backspace_at(v) == v,
{
}

/// Moving right at the end of the last line is a no-op: there is no line to
/// advance into.
pub proof fn lemma_move_right_at_end_is_noop(v: EditorView)
    requires
        v.wf(),
        v.line + 1 == v.lines.len(),
        v.col == v.current_line().len(),
    ensures
        move_right_at(v) == v,
{
}

/// Saving and loading reproduce the document: splitting the text that a
/// well-formed buffer saves gives back exactly its ordered sequence of
/// lines — a trailing empty line included.
pub proof fn lemma_save_load_reproduces_lines(v: EditorView)
    requires
        v.wf(),
    ensures
        split_text(join_lines(v.lines)) == v.lines,
{
    lemma_split_join_round_trip(v.lines);
}

/// A content-changing edit always leaves the buffer dirty, so the autosave
/// check can see it.
pub proof fn lemma_mutating_edit_sets_dirty(v: EditorView, op: EditOp)
    requires
        v.wf(),
        edit_acceptable(op),
        edit_mutates(v, op),
    ensures
        edit_applied(v, op).modified,
{
}

/// Autosave: once the buffer is dirty and a full save interval has elapsed
/// since the last save, a save is due, and recording it clears the dirty
/// flag and resets the timer without touching buffer or cursor.
pub proof fn lemma_autosave_fires_and_cleans(v: EditorView, now: nat)
    requires
        v.wf(),
        v.modified,
        now >= v.last_save + v.save_interval,
    ensures
        autosave_due_at(v, now),
        !mark_saved_at(v, now).modified,
        mark_saved_at(v, now).last_save == now,
        mark_saved_at(v, now).lines == v.lines,
        mark_saved_at(v, now).line == v.line,
        mark_saved_at(v, now).col == v.col,
{
}

} // verus!
