//! The lines of a text, and those of them that are not blank.

use crate::text::{at_most, chars_of, is_white_space, texts_of, white_space};
use vstd::prelude::*;
use vstd::string::*;

verus! {

/// Whether `s` holds nothing but white space.
pub open spec fn blank(s: Seq<char>) -> bool {
    forall|i: int| 0 <= i < s.len() ==> white_space(#[trigger] s[i])
}

/// Where the first line of `s` ends: the first line feed, or the end of `s`.
pub open spec fn line_end(s: Seq<char>) -> int
    decreases s.len(),
{
    if s.len() == 0 || s[0] == '\n' {
        0
    } else {
        1 + line_end(s.skip(1))
    }
}

/// `s` without the carriage return that it may end in.
pub open spec fn without_cr(s: Seq<char>) -> Seq<char> {
    if s.len() > 0 && s.last() == '\r' {
        s.drop_last()
    } else {
        s
    }
}

/// The lines of `s`: each ends at a line feed, or at a carriage return and a
/// line feed, and the last one may end with the text.
pub open spec fn lines(s: Seq<char>) -> Seq<Seq<char>>
    decreases s.len(),
    via lines_decreases
{
    if s.len() == 0 {
        seq![]
    } else if line_end(s) == s.len() {
        seq![s]
    } else {
        seq![without_cr(s.take(line_end(s)))] + lines(s.skip(line_end(s) + 1))
    }
}

#[via_fn]
proof fn lines_decreases(s: Seq<char>) {
    lemma_line_end(s);
}

/// The line end lies within the text, at a line feed unless at the very end,
/// and no line feed comes before it.
pub proof fn lemma_line_end(s: Seq<char>)
    ensures
        0 <= line_end(s) <= s.len(),
        line_end(s) < s.len() ==> s[line_end(s)] == '\n',
        forall|i: int| 0 <= i < line_end(s) ==> s[i] != '\n',
    decreases s.len(),
{
    if s.len() > 0 && s[0] != '\n' {
        let rest = s.skip(1);
        lemma_line_end(rest);
        assert forall|i: int| 0 <= i < line_end(s) implies s[i] != '\n' by {
            if i > 0 {
                assert(s[i] == rest[i - 1]);
            }
        }
    }
}

/// The first line feed of a text is where its line ends.
pub proof fn lemma_line_end_is(s: Seq<char>, n: int)
    requires
        0 <= n <= s.len(),
        n < s.len() ==> s[n] == '\n',
        forall|i: int| 0 <= i < n ==> s[i] != '\n',
    ensures
        line_end(s) == n,
{
    lemma_line_end(s);
    if line_end(s) < n {
        assert(s[line_end(s)] == '\n');
    } else if n < line_end(s) {
        assert(s[n] != '\n');
    }
}

/// Those of `ls` that are not blank, in order.
pub open spec fn not_blank(ls: Seq<Seq<char>>) -> Seq<Seq<char>>
    decreases ls.len(),
{
    if ls.len() == 0 {
        seq![]
    } else if blank(ls[0]) {
        not_blank(ls.skip(1))
    } else {
        seq![ls[0]] + not_blank(ls.skip(1))
    }
}

/// The characters of `s` in `[from, to)` hold nothing but white space.
fn range_is_blank(chars: &Vec<char>, from: usize, to: usize) -> (res: bool)
    requires
        from <= to <= chars@.len(),
    ensures
        res == blank(chars@.subrange(from as int, to as int)),
{
    let ghost part = chars@.subrange(from as int, to as int);
    let mut i: usize = from;
    while i < to
        invariant
            from <= i <= to <= chars@.len(),
            part == chars@.subrange(from as int, to as int),
            forall|k: int| 0 <= k < i - from ==> white_space(#[trigger] part[k]),
        decreases to - i,
    {
        assert(part[i - from] == chars@[i as int]);
        if !is_white_space(chars[i]) {
            return false;
        }
        i = i + 1;
    }
    true
}

/// The first `count` lines of `s` that are not blank.
pub fn first_lines(s: &str, count: usize) -> (res: Vec<&str>)
    ensures
        texts_of(res@) == at_most(not_blank(lines(s@)), count as nat),
{
    let chars = chars_of(s);
    let n: usize = chars.len();
    let mut out: Vec<&str> = Vec::new();
    let mut pos: usize = 0;
    let ghost all = not_blank(lines(s@));
    assert(s@.skip(0) == s@);
    assert(texts_of(out@) + all == all);
    while pos < n && out.len() < count
        invariant
            n == chars@.len(),
            chars@ == s@,
            pos <= n,
            out.len() <= count,
            all == not_blank(lines(s@)),
            texts_of(out@) + not_blank(lines(s@.skip(pos as int))) == all,
        decreases n - pos,
    {
        let ghost rest = s@.skip(pos as int);
        let mut end: usize = pos;
        while end < n && chars[end] != '\n'
            invariant
                n == chars@.len(),
                chars@ == s@,
                pos <= end <= n,
                forall|i: int| pos <= i < end ==> s@[i] != '\n',
            decreases n - end,
        {
            end = end + 1;
        }
        proof {
            lemma_line_end_is(rest, end - pos);
        }
        let mut stop: usize = end;
        if end < n && end > pos && chars[end - 1] == '\r' {
            stop = end - 1;
        }
        let ghost line = s@.subrange(pos as int, stop as int);
        let next: usize = if end < n { end + 1 } else { n };
        proof {
            if end < n {
                assert(rest.take(end - pos) == s@.subrange(pos as int, end as int));
                assert(without_cr(rest.take(end - pos)) == line);
                assert(rest.skip(end - pos + 1) == s@.skip(next as int));
                assert(lines(rest) == seq![line] + lines(s@.skip(next as int)));
            } else {
                assert(rest == line);
                assert(s@.skip(next as int) == Seq::<char>::empty());
                assert(lines(rest) == seq![line] + lines(s@.skip(next as int)));
            }
            assert(lines(rest)[0] == line);
            assert(lines(rest).skip(1) == lines(s@.skip(next as int)));
        }
        if !range_is_blank(&chars, pos, stop) {
            let ghost before = out@;
            out.push(s.substring_char(pos, stop));
            proof {
                assert(texts_of(out@) == texts_of(before).push(line));
                assert(texts_of(before) + (seq![line] + not_blank(lines(s@.skip(next as int))))
                    == texts_of(out@) + not_blank(lines(s@.skip(next as int))));
            }
        }
        pos = next;
    }
    proof {
        if pos == n {
            assert(s@.skip(pos as int) == Seq::<char>::empty());
            assert(texts_of(out@) + Seq::<Seq<char>>::empty() == texts_of(out@));
        } else {
            assert(all.take(count as int) == texts_of(out@));
        }
    }
    out
}

/// The lines of two texts with a line feed between them are the lines of the
/// first, ended, and the lines of the second.
pub proof fn lemma_lines_of_two(a: Seq<char>, b: Seq<char>)
    ensures
        lines(a.push('\n') + b) == lines(a.push('\n')) + lines(b),
    decreases a.len(),
{
    let ended = a.push('\n');
    let whole = ended + b;
    lemma_line_end(ended);
    let n = line_end(ended);
    if n > a.len() {
        assert(ended[a.len() as int] == '\n');
    }
    assert(n < ended.len());
    assert forall|i: int| 0 <= i < n implies whole[i] != '\n' by {
        assert(whole[i] == ended[i]);
    }
    assert(whole[n] == ended[n]);
    lemma_line_end_is(whole, n);
    assert(whole.take(n) == ended.take(n));
    let line = without_cr(ended.take(n));
    if n == a.len() {
        assert(whole.skip(n + 1) == b);
        assert(ended.skip(n + 1) == Seq::<char>::empty());
        assert(lines(Seq::<char>::empty()) == Seq::<Seq<char>>::empty());
        assert(lines(ended) == seq![line] + Seq::<Seq<char>>::empty());
        assert(lines(whole) == lines(ended) + lines(b));
    } else {
        let q = a.skip(n + 1);
        lemma_lines_of_two(q, b);
        assert(ended.skip(n + 1) == q.push('\n'));
        assert(whole.skip(n + 1) == q.push('\n') + b);
        assert(seq![line] + (lines(q.push('\n')) + lines(b)) == (seq![line] + lines(q.push('\n')))
            + lines(b));
    }
}

/// What is not blank in two sequences of lines is what is not blank in each.
pub proof fn lemma_not_blank_of_two(x: Seq<Seq<char>>, y: Seq<Seq<char>>)
    ensures
        not_blank(x + y) == not_blank(x) + not_blank(y),
    decreases x.len(),
{
    if x.len() == 0 {
        assert(x + y == y);
        assert(not_blank(x) + not_blank(y) == not_blank(y));
    } else {
        lemma_not_blank_of_two(x.skip(1), y);
        assert((x + y).skip(1) == x.skip(1) + y);
        assert((x + y)[0] == x[0]);
        if !blank(x[0]) {
            assert(seq![x[0]] + (not_blank(x.skip(1)) + not_blank(y)) == (seq![x[0]] + not_blank(
                x.skip(1),
            )) + not_blank(y));
        }
    }
}

/// A line feed at the end of a text adds nothing but a blank line, unless a
/// carriage return stands there, which it makes part of the line's end.
pub proof fn lemma_final_line_feed(a: Seq<char>)
    requires
        a.len() > 0 ==> a.last() != '\r',
    ensures
        not_blank(lines(a.push('\n'))) == not_blank(lines(a)),
    decreases a.len(),
{
    let ended = a.push('\n');
    lemma_line_end(ended);
    lemma_line_end(a);
    let n = line_end(ended);
    if n > a.len() {
        assert(ended[a.len() as int] == '\n');
    }
    assert forall|i: int| 0 <= i < n implies a[i] != '\n' by {
        assert(a[i] == ended[i]);
    }
    if n < a.len() {
        assert(a[n] == ended[n]);
    }
    lemma_line_end_is(a, n);
    if n == a.len() {
        assert(ended.take(n) == a);
        assert(ended.skip(n + 1) == Seq::<char>::empty());
        assert(lines(Seq::<char>::empty()) == Seq::<Seq<char>>::empty());
        assert(lines(ended) == seq![a] + Seq::<Seq<char>>::empty());
        assert(lines(ended) == seq![a]);
        if a.len() == 0 {
            assert(seq![a].skip(1) == Seq::<Seq<char>>::empty());
            assert(blank(seq![a][0]));
        }
    } else {
        let q = a.skip(n + 1);
        lemma_final_line_feed(q);
        let line = without_cr(a.take(n));
        assert(ended.take(n) == a.take(n));
        assert(ended.skip(n + 1) == q.push('\n'));
        lemma_not_blank_of_two(seq![line], lines(q.push('\n')));
        lemma_not_blank_of_two(seq![line], lines(q));
    }
}

/// No line of a blank text holds anything.
pub proof fn lemma_lines_of_blank(s: Seq<char>)
    requires
        blank(s),
    ensures
        not_blank(lines(s)) == Seq::<Seq<char>>::empty(),
    decreases s.len(),
{
    lemma_line_end(s);
    let n = line_end(s);
    if s.len() == 0 {
    } else if n == s.len() {
        assert(lines(s) == seq![s]);
        assert(seq![s].skip(1) == Seq::<Seq<char>>::empty());
        assert(not_blank(seq![s]) == not_blank(seq![s].skip(1)));
    } else {
        let line = without_cr(s.take(n));
        let rest = s.skip(n + 1);
        assert(blank(rest)) by {
            assert forall|i: int| 0 <= i < rest.len() implies white_space(#[trigger] rest[i]) by {
                assert(rest[i] == s[i + n + 1]);
            }
        }
        assert(blank(line)) by {
            assert forall|i: int| 0 <= i < line.len() implies white_space(#[trigger] line[i]) by {
                assert(line[i] == s[i]);
            }
        }
        lemma_lines_of_blank(rest);
        assert((seq![line] + lines(rest)).skip(1) == lines(rest));
        assert((seq![line] + lines(rest))[0] == line);
    }
}

} // verus!
