//! Splitting a text into lines.
//!
//! A line ends at a line feed. A carriage return directly before that line
//! feed belongs to the line ending, not to the line. Text after the last line
//! feed is a line of its own if it is not empty, and is kept unchanged.

use vstd::prelude::*;
use crate::text::{push_char, views};

verus! {

/// The position of the first line feed in `text`, or the length of `text`
/// where it holds none.
pub open spec fn first_newline(text: Seq<char>) -> int
    decreases text.len(),
{
    if text.len() == 0 || text[0] == '\n' {
        0
    } else {
        1 + first_newline(text.skip(1))
    }
}

/// Whether `text` holds no line feed.
pub open spec fn no_newline(text: Seq<char>) -> bool {
    forall|i: int| 0 <= i < text.len() ==> text[i] != '\n'
}

/// `line` without one trailing carriage return.
pub open spec fn strip_cr(line: Seq<char>) -> Seq<char> {
    if line.len() > 0 && line.last() == '\r' {
        line.drop_last()
    } else {
        line
    }
}

/// The lines of `text`.
pub open spec fn lines(text: Seq<char>) -> Seq<Seq<char>>
    decreases text.len(),
{
    let k = first_newline(text);
    if text.len() == 0 {
        seq![]
    } else if k < 0 || k >= text.len() {
        seq![text]
    } else {
        seq![strip_cr(text.take(k))] + lines(text.skip(k + 1))
    }
}

/// Behind a prefix without line feed, the first line feed is the first one of
/// what follows.
pub proof fn lemma_first_newline_concat(a: Seq<char>, b: Seq<char>)
    requires
        no_newline(a),
    ensures
        first_newline(a + b) == a.len() + first_newline(b),
    decreases a.len(),
{
    if a.len() == 0 {
        assert(a + b =~= b);
    } else {
        assert((a + b)[0] == a[0]);
        assert((a + b).skip(1) =~= a.skip(1) + b);
        lemma_first_newline_concat(a.skip(1), b);
    }
}

/// A text made of a stretch without line feed, a line feed, and a rest has
/// that stretch as its first line and the lines of the rest after it.
pub proof fn lemma_lines_break(p: Seq<char>, r: Seq<char>)
    requires
        no_newline(p),
    ensures
        lines(p + seq!['\n'] + r) == seq![strip_cr(p)] + lines(r),
{
    let x = p + seq!['\n'] + r;
    let tail = seq!['\n'] + r;
    assert(x =~= p + tail);
    lemma_first_newline_concat(p, tail);
    assert(tail[0] == '\n');
    assert(first_newline(x) == p.len());
    assert(x.take(p.len() as int) =~= p);
    assert(x.skip(p.len() as int + 1) =~= r);
}

/// A non-empty text without line feed is one line; the empty text has none.
pub proof fn lemma_lines_unbroken(p: Seq<char>)
    requires
        no_newline(p),
    ensures
        lines(p) == if p.len() == 0 {
            Seq::<Seq<char>>::empty()
        } else {
            seq![p]
        },
{
    let e = Seq::<char>::empty();
    assert(p + e =~= p);
    lemma_first_newline_concat(p, e);
}

/// The text of the line being read: what was stored, and a carriage return
/// that is held back until the next character shows whether it ends the line.
spec fn pending(cur: Seq<char>, held_cr: bool) -> Seq<char> {
    if held_cr {
        cur.push('\r')
    } else {
        cur
    }
}

/// Splits `text` into its lines.
pub fn split_lines(text: &str) -> (out: Vec<String>)
    ensures
        views(out@) == lines(text@),
{
    let mut out: Vec<String> = Vec::new();
    let mut cur = String::new();
    let mut held_cr = false;
    assert(views(out@) =~= Seq::<Seq<char>>::empty());
    assert(pending(cur@, held_cr) + text@.skip(0) =~= text@);
    for c in it: text.chars()
        invariant
            it.seq() == text@,
            no_newline(pending(cur@, held_cr)),
            !held_cr ==> (cur@.len() == 0 || cur@.last() != '\r'),
            lines(text@) == views(out@) + lines(
                pending(cur@, held_cr) + text@.skip(it.index() as int),
            ),
    {
        let ghost idx = it.index() as int;
        let ghost p = pending(cur@, held_cr);
        let ghost rest = text@.skip(idx + 1);
        assert(text@.skip(idx) =~= seq![c] + rest);
        if c == '\n' {
            proof {
                assert(p + text@.skip(idx) =~= p + seq!['\n'] + rest);
                lemma_lines_break(p, rest);
                assert(strip_cr(p) == cur@);
                assert(views(out@.push(cur)) =~= views(out@) + seq![cur@]);
            }
            out.push(cur);
            cur = String::new();
            held_cr = false;
            assert(pending(cur@, held_cr) + rest =~= rest);
        } else {
            if held_cr {
                push_char(&mut cur, '\r');
            }
            if c == '\r' {
                held_cr = true;
            } else {
                push_char(&mut cur, c);
                held_cr = false;
            }
            assert(pending(cur@, held_cr) =~= p.push(c));
            assert(pending(cur@, held_cr) + rest =~= p + text@.skip(idx));
        }
    }
    if held_cr {
        push_char(&mut cur, '\r');
    }
    proof {
        let p = cur@;
        assert(p + text@.skip(text@.len() as int) =~= p);
        lemma_lines_unbroken(p);
    }
    if !cur.as_str().is_empty() {
        proof {
            assert(views(out@.push(cur)) =~= views(out@) + seq![cur@]);
        }
        out.push(cur);
    } else {
        assert(views(out@) + Seq::<Seq<char>>::empty() =~= views(out@));
    }
    out
}

} // verus!
