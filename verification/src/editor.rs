//! The in-memory text buffer with its cursor, dirty flag and autosave timer.
//!
//! Every editing operation is a silent no-op at a boundary it cannot cross
//! (document start or end); each returns whether it changed the content, and
//! each provably implements the corresponding transition of
//! [`crate::model`] while preserving the structural invariant.

use vstd::prelude::*;

use crate::model::{
    autosave_due_at, backspace_at, delete_forward_at, insert_char_at, lemma_backspace_wf,
    lemma_delete_forward_wf, lemma_insert_char_wf, lemma_mark_saved_wf, lemma_moves_wf,
    lemma_split_line_wf, mark_saved_at, move_down_at, move_left_at, move_right_at, move_up_at,
    split_line_at, EditorView,
};
use crate::text::{
    chars_to_string, join_into_text, join_lines, lemma_split_at_least_one_line,
    lemma_split_lines_have_no_newline, split_into_lines, split_text,
};

verus! {

/// Seconds between automatic saves of a dirty buffer.
pub const AUTOSAVE_INTERVAL_SECS: u64 = 5;

/// A plain-text document under edit: its lines, a two-dimensional cursor,
/// the dirty flag, and the autosave timer.
pub struct Editor {
    lines: Vec<Vec<char>>,
    line: usize,
    col: usize,
    modified: bool,
    last_save: u64,
    save_interval: u64,
}

impl View for Editor {
    type V = EditorView;

    closed spec fn view(&self) -> EditorView {
        EditorView {
            lines: self.lines.deep_view(),
            line: self.line as nat,
            col: self.col as nat,
            modified: self.modified,
            last_save: self.last_save as nat,
            save_interval: self.save_interval as nat,
        }
    }
}

impl Editor {
    /// The structural invariant, lifted from the model.
    pub open spec fn wf(&self) -> bool {
        self@.wf()
    }

    /// Builds an editor over previously persisted text (the empty string
    /// yields one empty line), with the cursor at the document start, a
    /// clean buffer, and the autosave timer started at `now`.
    pub fn new(text: &str, now: u64) -> (ed: Editor)
        ensures
            ed@.lines == split_text(text@),
            ed@.line == 0,
            ed@.col == 0,
            ed@.modified == false,
            ed@.last_save == now as nat,
            ed@.save_interval == AUTOSAVE_INTERVAL_SECS as nat,
            ed.wf(),
    {
        let lines = split_into_lines(text);
        proof {
            lemma_split_at_least_one_line(text@);
            lemma_split_lines_have_no_newline(text@);
        }
        Editor {
            lines,
            line: 0,
            col: 0,
            modified: false,
            last_save: now,
            save_interval: AUTOSAVE_INTERVAL_SECS,
        }
    }

    /// Inserts `c` at the cursor and advances the cursor one column;
    /// always mutates and marks the buffer dirty.
    pub fn insert_char(&mut self, c: char) -> (mutated: bool)
        requires
            old(self).wf(),
            c != '\n',
        ensures
            final(self)@ == insert_char_at(old(self)@, c),
            final(self).wf(),
            mutated,
    {
        let ghost v0 = self@;
        let row = &mut self.lines[self.line];
        if self.col < row.len() {
            row.insert(self.col, c);
        } else {
            row.push(c);
        }
        let w = row.len();
        self.col = if self.col < w {
            self.col + 1
        } else {
            w
        };
        self.modified = true;
        proof {
            lemma_insert_char_wf(v0, c);
            if v0.col == v0.current_line().len() {
                assert(v0.current_line().insert(v0.col as int, c) =~~= v0.current_line().push(c));
            }
            assert(self@.lines =~~= insert_char_at(v0, c).lines);
            assert(self@ =~~= insert_char_at(v0, c));
        }
        true
    }

    /// Removes the character left of the cursor, or at column 0 merges the
    /// current line onto the previous one; a no-op at the document start.
    pub fn backspace(&mut self) -> (mutated: bool)
        requires
            old(self).wf(),
        ensures
            final(self)@ == backspace_at(old(self)@),
            final(self).wf(),
            mutated == (old(self)@.col > 0 || old(self)@.line > 0),
    {
        let ghost v0 = self@;
        proof {
            lemma_backspace_wf(v0);
        }
        if self.col > 0 {
            let row = &mut self.lines[self.line];
            row.remove(self.col - 1);
            self.col -= 1;
            self.modified = true;
            proof {
                assert(self@.lines =~~= backspace_at(v0).lines);
                assert(self@ =~~= backspace_at(v0));
            }
            true
        } else if self.line > 0 {
            let mut removed = self.lines.remove(self.line);
            self.line -= 1;
            let row = &mut self.lines[self.line];
            self.col = row.len();
            row.append(&mut removed);
            self.modified = true;
            proof {
                assert(self@.lines =~~= backspace_at(v0).lines);
                assert(self@ =~~= backspace_at(v0));
            }
            true
        } else {
            false
        }
    }

    /// Removes the character under the cursor, or at the end of a line merges
    /// the next line into this one; a no-op at the document end.
    pub fn delete_forward(&mut self) -> (mutated: bool)
        requires
            old(self).wf(),
        ensures
            final(self)@ == delete_forward_at(old(self)@),
            final(self).wf(),
            mutated == (old(self)@.col < old(self)@.current_line().len() || old(self)@.line + 1
                < old(self)@.lines.len()),
    {
        let ghost v0 = self@;
        proof {
            lemma_delete_forward_wf(v0);
        }
        let total = self.lines.len();
        let rlen = self.lines[self.line].len();
        if self.col < rlen {
            let row = &mut self.lines[self.line];
            row.remove(self.col);
            self.modified = true;
            proof {
                assert(self@.lines =~~= delete_forward_at(v0).lines);
                assert(self@ =~~= delete_forward_at(v0));
            }
            true
        } else if self.line + 1 < total {
            let mut next = self.lines.remove(self.line + 1);
            let row = &mut self.lines[self.line];
            row.append(&mut next);
            self.modified = true;
            proof {
                assert(self@.lines =~~= delete_forward_at(v0).lines);
                assert(self@ =~~= delete_forward_at(v0));
            }
            true
        } else {
            false
        }
    }

    /// Splits the current line at the cursor; the tail becomes the next line
    /// and the cursor moves to its column 0. Always mutates.
    pub fn split_line(&mut self) -> (mutated: bool)
        requires
            old(self).wf(),
        ensures
            final(self)@ == split_line_at(old(self)@),
            final(self).wf(),
            mutated,
    {
        let ghost v0 = self@;
        proof {
            lemma_split_line_wf(v0);
        }
        let total = self.lines.len();
        assert(self.line < total);
        let row = &mut self.lines[self.line];
        let tail = row.split_off(self.col);
        self.lines.insert(self.line + 1, tail);
        self.line += 1;
        self.col = 0;
        self.modified = true;
        proof {
            assert(self@.lines =~~= split_line_at(v0).lines);
            assert(self@ =~~= split_line_at(v0));
        }
        true
    }

    /// Moves the cursor up one line, clamping the column to the destination
    /// line's length; a no-op on the first line. Never changes content.
    pub fn move_up(&mut self)
        requires
            old(self).wf(),
        ensures
            final(self)@ == move_up_at(old(self)@),
            final(self).wf(),
    {
        let ghost v0 = self@;
        proof {
            lemma_moves_wf(v0);
        }
        if self.line > 0 {
            self.line -= 1;
            let w = self.lines[self.line].len();
            if self.col > w {
                self.col = w;
            }
            proof {
                assert(self@ =~~= move_up_at(v0));
            }
        }
    }

    /// Moves the cursor down one line, clamping the column to the destination
    /// line's length; a no-op on the last line. Never changes content.
    pub fn move_down(&mut self)
        requires
            old(self).wf(),
        ensures
            final(self)@ == move_down_at(old(self)@),
            final(self).wf(),
    {
        let ghost v0 = self@;
        proof {
            lemma_moves_wf(v0);
        }
        let total = self.lines.len();
        if self.line + 1 < total {
            self.line += 1;
            let w = self.lines[self.line].len();
            if self.col > w {
                self.col = w;
            }
            proof {
                assert(self@ =~~= move_down_at(v0));
            }
        }
    }

    /// Moves the cursor left one column, wrapping to the end of the previous
    /// line at column 0; a no-op at the document start. Never changes content.
    pub fn move_left(&mut self)
        requires
            old(self).wf(),
        ensures
            final(self)@ == move_left_at(old(self)@),
            final(self).wf(),
    {
        let ghost v0 = self@;
        proof {
            lemma_moves_wf(v0);
        }
        if self.col > 0 {
            self.col -= 1;
        } else if self.line > 0 {
            self.line -= 1;
            self.col = self.lines[self.line].len();
            proof {
                assert(self@ =~~= move_left_at(v0));
            }
        }
    }

    /// Moves the cursor right one column, wrapping to the start of the next
    /// line at the end of a line; a no-op at the document end. Never changes
    /// content.
    pub fn move_right(&mut self)
        requires
            old(self).wf(),
        ensures
            final(self)@ == move_right_at(old(self)@),
            final(self).wf(),
    {
        let ghost v0 = self@;
        proof {
            lemma_moves_wf(v0);
        }
        let w = self.lines[self.line].len();
        let total = self.lines.len();
        if self.col < w {
            self.col += 1;
        } else if self.line + 1 < total {
            self.line += 1;
            self.col = 0;
        }
        proof {
            assert(self@ =~~= move_right_at(v0));
        }
    }

    /// Serializes the document for persistence: the lines joined with single
    /// `'\n'` separators. The caller writes the result to the store and, on
    /// success, records the save with [`Editor::mark_saved`].
    pub fn save(&self) -> (text: String)
        ensures
            text@ == join_lines(self@.lines),
    {
        let chars = join_into_text(&self.lines);
        chars_to_string(&chars)
    }

    /// Records a successful save at time `now`: clears the dirty flag and
    /// resets the autosave timer; buffer and cursor are untouched.
    pub fn mark_saved(&mut self, now: u64)
        requires
            old(self).wf(),
        ensures
            final(self)@ == mark_saved_at(old(self)@, now as nat),
            final(self).wf(),
    {
        let ghost v0 = self@;
        proof {
            lemma_mark_saved_wf(v0, now as nat);
        }
        self.modified = false;
        self.last_save = now;
        proof {
            assert(self@ =~~= mark_saved_at(v0, now as nat));
        }
    }

    /// Whether an autosave is due at time `now`: the buffer is dirty and at
    /// least the save interval has elapsed since the last successful save.
    pub fn autosave_due(&self, now: u64) -> (due: bool)
        ensures
            due == autosave_due_at(self@, now as nat),
    {
        self.modified && now >= self.last_save && now - self.last_save >= self.save_interval
    }

    /// Cursor line index (0-based).
    pub fn cursor_line(&self) -> (l: usize)
        ensures
            l as nat == self@.line,
    {
        self.line
    }

    /// Cursor column index (0-based).
    pub fn cursor_col(&self) -> (c: usize)
        ensures
            c as nat == self@.col,
    {
        self.col
    }

    /// Number of lines in the document (always at least 1).
    pub fn line_count(&self) -> (n: usize)
        ensures
            n as nat == self@.lines.len(),
    {
        self.lines.len()
    }

    /// Whether the buffer holds unsaved changes.
    pub fn is_modified(&self) -> (m: bool)
        ensures
            m == self@.modified,
    {
        self.modified
    }

    /// The text of line `i`.
    pub fn line_text(&self, i: usize) -> (s: String)
        requires
            i < self@.lines.len(),
        ensures
            s@ == self@.lines[i as int],
    {
        let row = &self.lines[i];
        proof {
            assert(row@ =~~= self@.lines[i as int]);
        }
        chars_to_string(row)
    }
}

} // verus!
