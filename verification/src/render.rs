//! The computations behind the screen redraw: the status line text, the
//! centered header padding, how many content rows fit, and where the visible
//! terminal cursor goes. Drawing itself is plain terminal I/O and lives with
//! the caller; everything it prints is computed and specified here.

use vstd::prelude::*;

use crate::editor::Editor;
use crate::model::{min_nat, EditorView};
use crate::text::chars_to_string;

verus! {

/// The decimal digit characters of `n`, most significant first.
pub open spec fn dec_digits(n: nat) -> Seq<char>
    decreases n,
{
    if n < 10 {
        seq![digit_char(n)]
    } else {
        dec_digits(n / 10).push(digit_char(n % 10))
    }
}

/// The character for one decimal digit.
pub open spec fn digit_char(d: nat) -> char {
    if d == 0 {
        '0'
    } else if d == 1 {
        '1'
    } else if d == 2 {
        '2'
    } else if d == 3 {
        '3'
    } else if d == 4 {
        '4'
    } else if d == 5 {
        '5'
    } else if d == 6 {
        '6'
    } else if d == 7 {
        '7'
    } else if d == 8 {
        '8'
    } else {
        '9'
    }
}

/// The status bar text: 1-based cursor line over line count, 1-based column,
/// and the static key-binding hint.
pub open spec fn status_text(v: EditorView) -> Seq<char> {
    "Line: "@ + dec_digits(v.line + 1) + "/"@ + dec_digits(v.lines.len()) + " | Col: "@
        + dec_digits(v.col + 1) + " | [Ctrl+Q] Quit | [Ctrl+S] Save"@
}

fn digit_to_char(d: u128) -> (c: char)
    requires
        d < 10,
    ensures
        c == digit_char(d as nat),
{
    match d {
        0 => '0',
        1 => '1',
        2 => '2',
        3 => '3',
        4 => '4',
        5 => '5',
        6 => '6',
        7 => '7',
        8 => '8',
        _ => '9',
    }
}

/// Appends the decimal digits of `n` to `out`.
fn push_decimal(out: &mut Vec<char>, n: u128)
    ensures
        final(out)@ == old(out)@ + dec_digits(n as nat),
    decreases n,
{
    if n >= 10 {
        proof {
            assert(n / 10 < n) by (nonlinear_arith)
                requires
                    n >= 10,
            ;
        }
        push_decimal(out, n / 10);
    }
    let ghost pre = out@;
    out.push(digit_to_char(n % 10));
    proof {
        assert(out@ =~~= pre.push(digit_char((n % 10) as nat)));
        assert(out@ =~~= old(out)@ + dec_digits(n as nat));
    }
}

/// Appends the characters of `s` to `out`.
fn push_str_chars(out: &mut Vec<char>, s: &str)
    ensures
        final(out)@ == old(out)@ + s@,
{
    let n = s.unicode_len();
    let mut i: usize = 0;
    proof {
        assert(out@ =~~= old(out)@ + s@.take(0));
    }
    while i < n
        invariant
            i <= n,
            n == s@.len(),
            out@ == old(out)@ + s@.take(i as int),
        decreases n - i,
    {
        out.push(s.get_char(i));
        proof {
            assert(s@.take(i as int).push(s@[i as int]) =~~= s@.take(i as int + 1));
            assert(out@ =~~= old(out)@ + s@.take(i as int + 1));
        }
        i += 1;
    }
    proof {
        assert(s@.take(n as int) =~~= s@);
    }
}

/// Builds the status bar text for the current state, exactly as
/// `status_text` states it.
pub fn status_line(ed: &Editor) -> (s: String)
    ensures
        s@ == status_text(ed@),
{
    let mut out: Vec<char> = Vec::new();
    push_str_chars(&mut out, "Line: ");
    push_decimal(&mut out, ed.cursor_line() as u128 + 1);
    push_str_chars(&mut out, "/");
    push_decimal(&mut out, ed.line_count() as u128);
    push_str_chars(&mut out, " | Col: ");
    push_decimal(&mut out, ed.cursor_col() as u128 + 1);
    push_str_chars(&mut out, " | [Ctrl+Q] Quit | [Ctrl+S] Save");
    proof {
        assert(out@ =~~= status_text(ed@));
    }
    chars_to_string(&out)
}

/// Left and right padding that centers a segment of length `inner` in a row
/// of `width` cells; both zero when the segment does not fit.
pub fn centered_pads(width: usize, inner: usize) -> (pads: (usize, usize))
    ensures
        inner <= width ==> pads.0 == ((width - inner) as nat) / 2 && pads.0 + inner + pads.1
            == width,
        inner > width ==> pads == (0usize, 0usize),
{
    if inner <= width {
        let left = (width - inner) / 2;
        (left, width - inner - left)
    } else {
        (0, 0)
    }
}

/// How many content lines a redraw shows: the screen keeps one header row
/// and two footer rows, and never shows more lines than the document has.
pub fn content_rows(height: u16, total: usize) -> (rows: usize)
    ensures
        rows as nat == min_nat(total as nat, (if height >= 3 {
            (height - 3) as nat
        } else {
            0
        })),
{
    if height < 3 {
        0
    } else {
        let avail = (height - 3) as usize;
        if total <= avail {
            total
        } else {
            avail
        }
    }
}

/// Screen cell of the visible terminal cursor: the buffer column, and the
/// buffer line shifted down past the one-row header — content starts right
/// under it, so line `y` is drawn on screen row `y + 1` and the cursor sits
/// on that same row. Each coordinate is saturated at what a terminal
/// coordinate can hold.
pub fn cursor_screen_position(ed: &Editor) -> (pos: (u16, u16))
    ensures
        pos.0 as nat == min_nat(ed@.col, u16::MAX as nat),
        pos.1 as nat == min_nat(ed@.line + 1, u16::MAX as nat),
{
    let col = ed.cursor_col();
    let line = ed.cursor_line();
    let x = if col >= u16::MAX as usize {
        u16::MAX
    } else {
        col as u16
    };
    let y = if line >= (u16::MAX - 1) as usize {
        u16::MAX
    } else {
        (line as u16) + 1
    };
    (x, y)
}

/// The text a redraw prints for line `i`: the line itself, or a single blank
/// placeholder for an empty line so the cursor row stays visible.
pub fn display_line(ed: &Editor, i: usize) -> (s: String)
    requires
        i < ed@.lines.len(),
    ensures
        ed@.lines[i as int].len() == 0 ==> s@ == " "@,
        ed@.lines[i as int].len() > 0 ==> s@ == ed@.lines[i as int],
{
    let t = ed.line_text(i);
    if t.as_str().is_empty() {
        String::from_str(" ")
    } else {
        t
    }
}

} // verus!
