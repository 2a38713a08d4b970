//! Mathematical model of the editor state.
//!
//! `EditorView` is the abstract value of an `Editor`: an ordered sequence of
//! lines (each a sequence of characters), a two-dimensional cursor, the dirty
//! flag, and the autosave timer. Every editing operation is described here as
//! a pure transition on `EditorView`; the executable methods prove that they
//! implement these transitions exactly.

use vstd::prelude::*;

verus! {

/// Abstract state of the editor: buffer lines, cursor, dirty flag, timer.
#[verifier::ext_equal]
pub struct EditorView {
    /// The document, as an ordered sequence of lines.
    pub lines: Seq<Seq<char>>,
    /// Cursor line index (0-based).
    pub line: nat,
    /// Cursor column index (0-based).
    pub col: nat,
    /// Dirty flag: content has changed since the last successful save.
    pub modified: bool,
    /// Time (in seconds) of the last successful save.
    pub last_save: nat,
    /// Fixed autosave interval, in seconds.
    pub save_interval: nat,
}

impl EditorView {
    /// Structural invariant of the editor state: the buffer always holds at
    /// least one line, the cursor points at an existing line, the cursor
    /// column never passes the end of that line, and no line contains a
    /// newline character (newlines exist only as line separators).
    pub open spec fn wf(self) -> bool {
        &&& self.lines.len() >= 1
        &&& self.line < self.lines.len()
        &&& self.col <= self.lines[self.line as int].len()
        &&& forall|i: int| 0 <= i < self.lines.len() ==> !self.lines[i].contains('\n')
    }

    /// The line under the cursor.
    pub open spec fn current_line(self) -> Seq<char> {
        self.lines[self.line as int]
    }
}

/// Insert character `c` at the cursor and advance the cursor one column.
pub open spec fn insert_char_at(v: EditorView, c: char) -> EditorView {
    EditorView {
        lines: v.lines.update(v.line as int, v.current_line().insert(v.col as int, c)),
        col: v.col + 1,
        modified: true,
        ..v
    }
}

/// Remove the character left of the cursor, or at column 0 merge the current
/// line onto the end of the previous one; a no-op at the document start.
pub open spec fn backspace_at(v: EditorView) -> EditorView {
    if v.col > 0 {
        EditorView {
            lines: v.lines.update(v.line as int, v.current_line().remove(v.col - 1)),
            col: (v.col - 1) as nat,
            modified: true,
            ..v
        }
    } else if v.line > 0 {
        EditorView {
            lines: v.lines.remove(v.line as int).update(
                v.line - 1,
                v.lines[v.line - 1] + v.current_line(),
            ),
            line: (v.line - 1) as nat,
            col: v.lines[v.line - 1].len(),
            modified: true,
            ..v
        }
    } else {
        v
    }
}

/// Remove the character under the cursor, or at the end of a line merge the
/// next line into the current one; a no-op at the document end.
pub open spec fn delete_forward_at(v: EditorView) -> EditorView {
    if v.col < v.current_line().len() {
        EditorView {
            lines: v.lines.update(v.line as int, v.current_line().remove(v.col as int)),
            modified: true,
            ..v
        }
    } else if v.line + 1 < v.lines.len() {
        EditorView {
            lines: v.lines.update(
                v.line as int,
                v.current_line() + v.lines[v.line as int + 1],
            ).remove(v.line as int + 1),
            modified: true,
            ..v
        }
    } else {
        v
    }
}

/// Split the current line at the cursor; the tail becomes a new line right
/// after it, and the cursor moves to column 0 of that new line.
pub open spec fn split_line_at(v: EditorView) -> EditorView {
    EditorView {
        lines: v.lines.update(v.line as int, v.current_line().take(v.col as int)).insert(
            v.line as int + 1,
            v.current_line().skip(v.col as int),
        ),
        line: v.line + 1,
        col: 0,
        modified: true,
        ..v
    }
}

/// Move the cursor up one line, clamping the column; a no-op on the first line.
pub open spec fn move_up_at(v: EditorView) -> EditorView {
    if v.line > 0 {
        EditorView {
            line: (v.line - 1) as nat,
            col: min_nat(v.col, v.lines[v.line - 1].len()),
            ..v
        }
    } else {
        v
    }
}

/// Move the cursor down one line, clamping the column; a no-op on the last line.
pub open spec fn move_down_at(v: EditorView) -> EditorView {
    if v.line + 1 < v.lines.len() {
        EditorView {
            line: v.line + 1,
            col: min_nat(v.col, v.lines[v.line as int + 1].len()),
            ..v
        }
    } else {
        v
    }
}

/// Move the cursor left one column, wrapping to the end of the previous line
/// at column 0; a no-op at the document start.
pub open spec fn move_left_at(v: EditorView) -> EditorView {
    if v.col > 0 {
        EditorView { col: (v.col - 1) as nat, ..v }
    } else if v.line > 0 {
        EditorView { line: (v.line - 1) as nat, col: v.lines[v.line - 1].len(), ..v }
    } else {
        v
    }
}

/// Move the cursor right one column, wrapping to the start of the next line
/// at the end of a line; a no-op at the document end.
pub open spec fn move_right_at(v: EditorView) -> EditorView {
    if v.col < v.current_line().len() {
        EditorView { col: v.col + 1, ..v }
    } else if v.line + 1 < v.lines.len() {
        EditorView { line: v.line + 1, col: 0, ..v }
    } else {
        v
    }
}

/// Record a successful save at time `now`: the dirty flag clears and the
/// autosave timer resets; buffer and cursor are untouched.
pub open spec fn mark_saved_at(v: EditorView, now: nat) -> EditorView {
    EditorView { modified: false, last_save: now, ..v }
}

/// Whether an autosave is due at time `now`: the buffer is dirty and at least
/// the save interval has elapsed since the last successful save.
pub open spec fn autosave_due_at(v: EditorView, now: nat) -> bool {
    v.modified && now >= v.last_save && now - v.last_save >= v.save_interval
}

/// The smaller of two naturals.
pub open spec fn min_nat(a: nat, b: nat) -> nat {
    if a <= b {
        a
    } else {
        b
    }
}

/// A sequence misses a character as soon as every position does.
proof fn lemma_all_neq_implies_not_contains(s: Seq<char>, c: char)
    requires
        forall|j: int| 0 <= j < s.len() ==> s[j] != c,
    ensures
        !s.contains(c),
{
}

/// Concatenating two lines without newlines gives a line without newlines.
proof fn lemma_concat_no_newline(a: Seq<char>, b: Seq<char>)
    requires
        !a.contains('\n'),
        !b.contains('\n'),
    ensures
        !(a + b).contains('\n'),
{
    let w = a + b;
    assert forall|j: int| 0 <= j < w.len() implies w[j] != '\n' by {
        if j < a.len() {
            assert(w[j] == a[j]);
        } else {
            assert(w[j] == b[j - a.len()]);
        }
    }
    lemma_all_neq_implies_not_contains(w, '\n');
}

/// Inserting a character preserves the invariant and lands the cursor right
/// after the new character.
pub proof fn lemma_insert_char_wf(v: EditorView, c: char)
    requires
        v.wf(),
        c != '\n',
    ensures
        insert_char_at(v, c).wf(),
{
    let w = v.current_line().insert(v.col as int, c);
    assert forall|j: int| 0 <= j < w.len() implies w[j] != '\n' by {
        if j < v.col {
            assert(w[j] == v.current_line()[j]);
        } else if j == v.col {
        } else {
            assert(w[j] == v.current_line()[j - 1]);
        }
    }
    lemma_all_neq_implies_not_contains(w, '\n');
}

/// Backspace preserves the invariant.
pub proof fn lemma_backspace_wf(v: EditorView)
    requires
        v.wf(),
    ensures
        backspace_at(v).wf(),
{
    if v.col > 0 {
        let w = v.current_line().remove(v.col - 1);
        assert forall|j: int| 0 <= j < w.len() implies w[j] != '\n' by {
            if j < v.col - 1 {
                assert(w[j] == v.current_line()[j]);
            } else {
                assert(w[j] == v.current_line()[j + 1]);
            }
        }
        lemma_all_neq_implies_not_contains(w, '\n');
    } else if v.line > 0 {
        lemma_concat_no_newline(v.lines[v.line - 1], v.current_line());
    }
}

/// Forward deletion preserves the invariant.
pub proof fn lemma_delete_forward_wf(v: EditorView)
    requires
        v.wf(),
    ensures
        delete_forward_at(v).wf(),
{
    if v.col < v.current_line().len() {
        let w = v.current_line().remove(v.col as int);
        assert forall|j: int| 0 <= j < w.len() implies w[j] != '\n' by {
            if j < v.col {
                assert(w[j] == v.current_line()[j]);
            } else {
                assert(w[j] == v.current_line()[j + 1]);
            }
        }
        lemma_all_neq_implies_not_contains(w, '\n');
    } else if v.line + 1 < v.lines.len() {
        lemma_concat_no_newline(v.current_line(), v.lines[v.line as int + 1]);
    }
}

/// Splitting a line preserves the invariant and lands the cursor at column 0
/// of the new line.
pub proof fn lemma_split_line_wf(v: EditorView)
    requires
        v.wf(),
    ensures
        split_line_at(v).wf(),
{
    let head = v.current_line().take(v.col as int);
    let tail = v.current_line().skip(v.col as int);
    assert forall|j: int| 0 <= j < head.len() implies head[j] != '\n' by {
        assert(head[j] == v.current_line()[j]);
    }
    lemma_all_neq_implies_not_contains(head, '\n');
    assert forall|j: int| 0 <= j < tail.len() implies tail[j] != '\n' by {
        assert(tail[j] == v.current_line()[j + v.col]);
    }
    lemma_all_neq_implies_not_contains(tail, '\n');
}

/// Cursor moves preserve the invariant.
pub proof fn lemma_moves_wf(v: EditorView)
    requires
        v.wf(),
    ensures
        move_up_at(v).wf(),
        move_down_at(v).wf(),
        move_left_at(v).wf(),
        move_right_at(v).wf(),
{
}

/// Recording a save preserves the invariant.
pub proof fn lemma_mark_saved_wf(v: EditorView, now: nat)
    requires
        v.wf(),
    ensures
        mark_saved_at(v, now).wf(),
{
}

} // verus!
