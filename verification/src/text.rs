//! Conversion between the in-memory document (a sequence of lines) and its
//! persisted form (one flat text, lines joined by `'\n'`).
//!
//! Policy: joining writes a single `'\n'` between lines and nothing after the
//! last one; splitting cuts at every `'\n'`, so empty text loads as one empty
//! line and text ending in `'\n'` loads with a trailing empty line. Under this
//! policy splitting is the exact inverse of joining: see
//! [`lemma_split_join_round_trip`].

use vstd::prelude::*;

verus! {

/// The persisted form of a document: its lines joined with single `'\n'`
/// separators, with no newline after the last line.
pub open spec fn join_lines(lines: Seq<Seq<char>>) -> Seq<char>
    decreases lines.len(),
{
    if lines.len() == 0 {
        Seq::empty()
    } else if lines.len() == 1 {
        lines[0]
    } else {
        lines[0] + seq!['\n'] + join_lines(lines.drop_first())
    }
}

/// The in-memory form of persisted text: cut at every `'\n'`. Total on all
/// text; always yields at least one line.
pub open spec fn split_text(text: Seq<char>) -> Seq<Seq<char>>
    decreases text.len(),
{
    if text.len() == 0 {
        seq![Seq::<char>::empty()]
    } else if text[0] == '\n' {
        seq![Seq::<char>::empty()] + split_text(text.drop_first())
    } else {
        let rest = split_text(text.drop_first());
        seq![seq![text[0]] + rest[0]] + rest.drop_first()
    }
}

/// Splitting always yields at least one line, even on empty text.
pub proof fn lemma_split_at_least_one_line(text: Seq<char>)
    ensures
        split_text(text).len() >= 1,
    decreases text.len(),
{
    if text.len() > 0 {
        lemma_split_at_least_one_line(text.drop_first());
    }
}

/// No line produced by splitting contains a newline character.
pub proof fn lemma_split_lines_have_no_newline(text: Seq<char>)
    ensures
        forall|i: int|
            0 <= i < split_text(text).len() ==> !(#[trigger] split_text(text)[i]).contains('\n'),
    decreases text.len(),
{
    if text.len() == 0 {
        assert forall|i: int|
            0 <= i < split_text(text).len() implies !(#[trigger] split_text(text)[i]).contains(
            '\n',
        ) by {
            assert(split_text(text)[i].len() == 0);
        }
    } else {
        lemma_split_lines_have_no_newline(text.drop_first());
        lemma_split_at_least_one_line(text.drop_first());
        let rest = split_text(text.drop_first());
        assert forall|i: int|
            0 <= i < split_text(text).len() implies !(#[trigger] split_text(text)[i]).contains(
            '\n',
        ) by {
            if text[0] == '\n' {
                if i == 0 {
                    assert(split_text(text)[0].len() == 0);
                } else {
                    assert(split_text(text)[i] == rest[i - 1]);
                }
            } else {
                if i == 0 {
                    let head = seq![text[0]] + rest[0];
                    assert(split_text(text)[0] == head);
                    assert forall|j: int| 0 <= j < head.len() implies head[j] != '\n' by {
                        if j == 0 {
                        } else {
                            assert(head[j] == rest[0][j - 1]);
                        }
                    }
                } else {
                    assert(split_text(text)[i] == rest[i]);
                }
            }
        }
    }
}

/// Splitting text that holds no newline gives back that text as one line.
pub proof fn lemma_split_of_clean_text(s: Seq<char>)
    requires
        !s.contains('\n'),
    ensures
        split_text(s) == seq![s],
    decreases s.len(),
{
    if s.len() == 0 {
        assert(split_text(s) =~~= seq![s]);
    } else {
        assert(s[0] != '\n');
        let tail = s.drop_first();
        assert(!tail.contains('\n')) by {
            if tail.contains('\n') {
                let j = choose|j: int| 0 <= j < tail.len() && tail[j] == '\n';
                assert(s[j + 1] == '\n');
            }
        }
        lemma_split_of_clean_text(tail);
        assert(split_text(s) =~~= seq![s]);
    }
}

/// Splitting `a + '\n' + t`, where line `a` holds no newline, yields `a`
/// followed by the lines of `t`.
pub proof fn lemma_split_prepend_line(a: Seq<char>, t: Seq<char>)
    requires
        !a.contains('\n'),
    ensures
        split_text(a + seq!['\n'] + t) == seq![a] + split_text(t),
    decreases a.len(),
{
    let whole = a + seq!['\n'] + t;
    if a.len() == 0 {
        assert(whole[0] == '\n');
        assert(whole.drop_first() =~~= t);
        assert(split_text(whole) =~~= seq![a] + split_text(t));
    } else {
        assert(whole[0] == a[0]);
        assert(a[0] != '\n');
        let atail = a.drop_first();
        assert(!atail.contains('\n')) by {
            if atail.contains('\n') {
                let j = choose|j: int| 0 <= j < atail.len() && atail[j] == '\n';
                assert(a[j + 1] == '\n');
            }
        }
        lemma_split_prepend_line(atail, t);
        assert(whole.drop_first() =~~= atail + seq!['\n'] + t);
        let rest = split_text(whole.drop_first());
        assert(rest == seq![atail] + split_text(t));
        lemma_split_at_least_one_line(t);
        assert(rest[0] == atail);
        assert(seq![whole[0]] + rest[0] =~~= a);
        assert(rest.drop_first() =~~= split_text(t));
        assert(split_text(whole) =~~= seq![a] + split_text(t));
    }
}

/// Round-trip law of persistence: splitting the joined text of any document
/// (at least one line, no line holding a newline) restores exactly the same
/// ordered sequence of lines — a trailing empty line included.
pub proof fn lemma_split_join_round_trip(lines: Seq<Seq<char>>)
    requires
        lines.len() >= 1,
        forall|i: int| 0 <= i < lines.len() ==> !(#[trigger] lines[i]).contains('\n'),
    ensures
        split_text(join_lines(lines)) == lines,
    decreases lines.len(),
{
    if lines.len() == 1 {
        lemma_split_of_clean_text(lines[0]);
        assert(split_text(join_lines(lines)) =~~= lines);
    } else {
        let rest = lines.drop_first();
        assert(forall|i: int| 0 <= i < rest.len() ==> !(#[trigger] rest[i]).contains('\n'));
        lemma_split_join_round_trip(rest);
        lemma_split_prepend_line(lines[0], join_lines(rest));
        assert(join_lines(lines) == lines[0] + seq!['\n'] + join_lines(rest));
        assert(split_text(join_lines(lines)) =~~= lines);
    }
}

/// Joining after appending one more line adds a separator exactly when the
/// document was not empty.
pub proof fn lemma_join_push(lines: Seq<Seq<char>>, l: Seq<char>)
    ensures
        join_lines(lines.push(l)) == if lines.len() == 0 {
            l
        } else {
            join_lines(lines) + seq!['\n'] + l
        },
    decreases lines.len(),
{
    let pushed = lines.push(l);
    if lines.len() == 0 {
        assert(pushed.len() == 1);
        assert(join_lines(pushed) == pushed[0]);
        assert(pushed[0] =~~= l);
    } else {
        lemma_join_push(lines.drop_first(), l);
        assert(pushed.drop_first() =~~= lines.drop_first().push(l));
        if lines.len() == 1 {
            assert(join_lines(pushed) =~~= join_lines(lines) + seq!['\n'] + l);
        } else {
            assert(join_lines(pushed) =~~= join_lines(lines) + seq!['\n'] + l);
        }
    }
}

/// Relies on `String`'s `FromIterator<char>` implementation (via `collect`):
/// the result holds exactly the given characters, in order.
#[verifier::external_body]
pub(crate) fn chars_to_string(cs: &Vec<char>) -> (s: String)
    ensures
        s@ == cs@,
{
    cs.iter().collect()
}

/// Cut persisted text into lines at every `'\n'`.
pub fn split_into_lines(text: &str) -> (lines: Vec<Vec<char>>)
    ensures
        lines.deep_view() == split_text(text@),
        lines.deep_view().len() >= 1,
{
    let n = text.unicode_len();
    let mut lines: Vec<Vec<char>> = Vec::new();
    let mut cur: Vec<char> = Vec::new();
    let mut i: usize = 0;
    proof {
        lemma_split_at_least_one_line(text@);
        assert(text@.skip(0) =~~= text@);
        assert(split_text(text@) =~~= lines.deep_view() + seq![
            cur@ + split_text(text@.skip(0))[0],
        ] + split_text(text@.skip(0)).drop_first());
    }
    while i < n
        invariant
            i <= n,
            n == text@.len(),
            split_text(text@) == lines.deep_view() + seq![
                cur@ + split_text(text@.skip(i as int))[0],
            ] + split_text(text@.skip(i as int)).drop_first(),
        decreases n - i,
    {
        let c = text.get_char(i);
        proof {
            assert(text@.skip(i as int).drop_first() =~~= text@.skip(i as int + 1));
            lemma_split_at_least_one_line(text@.skip(i as int + 1));
            assert(text@.skip(i as int)[0] == c);
        }
        if c == '\n' {
            let ghost pre = lines.deep_view();
            let ghost curv = cur@;
            lines.push(cur);
            cur = Vec::new();
            proof {
                assert(lines.deep_view() =~~= pre.push(curv));
                assert(split_text(text@) =~~= lines.deep_view() + seq![
                    cur@ + split_text(text@.skip(i as int + 1))[0],
                ] + split_text(text@.skip(i as int + 1)).drop_first());
            }
        } else {
            cur.push(c);
            proof {
                assert(split_text(text@) =~~= lines.deep_view() + seq![
                    cur@ + split_text(text@.skip(i as int + 1))[0],
                ] + split_text(text@.skip(i as int + 1)).drop_first());
            }
        }
        i += 1;
    }
    proof {
        assert(text@.skip(n as int) =~~= Seq::<char>::empty());
        assert(split_text(text@.skip(n as int)) =~~= seq![Seq::<char>::empty()]);
    }
    let ghost pre = lines.deep_view();
    let ghost curv = cur@;
    lines.push(cur);
    proof {
        assert(lines.deep_view() =~~= pre.push(curv));
        assert(lines.deep_view() =~~= split_text(text@));
    }
    lines
}

/// Join document lines into the flat text that is persisted.
pub fn join_into_text(lines: &Vec<Vec<char>>) -> (t: Vec<char>)
    ensures
        t@ == join_lines(lines.deep_view()),
{
    let mut out: Vec<char> = Vec::new();
    let mut i: usize = 0;
    proof {
        assert(lines.deep_view().take(0) =~~= Seq::<Seq<char>>::empty());
    }
    while i < lines.len()
        invariant
            i <= lines@.len(),
            lines.deep_view().len() == lines@.len(),
            out@ == join_lines(lines.deep_view().take(i as int)),
        decreases lines@.len() - i,
    {
        if i > 0 {
            out.push('\n');
        }
        let row = &lines[i];
        let ghost rowv = row@;
        let ghost prefix = out@;
        let mut j: usize = 0;
        proof {
            assert(rowv.take(0) =~~= Seq::<char>::empty());
            assert(out@ =~~= prefix + rowv.take(0));
        }
        while j < row.len()
            invariant
                j <= rowv.len(),
                rowv == row@,
                out@ == prefix + rowv.take(j as int),
            decreases rowv.len() - j,
        {
            out.push(row[j]);
            proof {
                assert(rowv.take(j as int).push(rowv[j as int]) =~~= rowv.take(j as int + 1));
            }
            j += 1;
        }
        proof {
            let dv = lines.deep_view();
            assert(rowv.take(rowv.len() as int) =~~= rowv);
            assert(rowv == dv[i as int]);
            lemma_join_push(dv.take(i as int), dv[i as int]);
            assert(dv.take(i as int).push(dv[i as int]) =~~= dv.take(i as int + 1));
            assert(out@ == join_lines(dv.take(i as int + 1)));
        }
        i += 1;
    }
    proof {
        assert(lines.deep_view().take(lines@.len() as int) =~~= lines.deep_view());
    }
    out
}

} // verus!
