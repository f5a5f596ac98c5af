//! Text handling: white space, prefixes and suffixes, segments, and joining.

use vstd::prelude::*;
use vstd::string::*;

verus! {

/// The characters of `s`, in order.
pub fn chars_of(s: &str) -> (res: Vec<char>)
    ensures
        res@ == s@,
{
    let mut out: Vec<char> = Vec::new();
    for c in it: s.chars()
        invariant
            out@ == s@.take(it.index()),
            it.seq() == s@,
    {
        out.push(c);
        assert(s@.take(it.index() + 1) == s@.take(it.index()).push(c));
    }
    assert(s@.take(s@.len() as int) == s@);
    out
}

/// The characters with the Unicode property `White_Space`.
pub open spec fn white_space(c: char) -> bool {
    ||| '\u{9}' <= c <= '\u{d}'
    ||| c == ' '
    ||| c == '\u{85}'
    ||| c == '\u{a0}'
    ||| c == '\u{1680}'
    ||| '\u{2000}' <= c <= '\u{200a}'
    ||| c == '\u{2028}'
    ||| c == '\u{2029}'
    ||| c == '\u{202f}'
    ||| c == '\u{205f}'
    ||| c == '\u{3000}'
}

/// Whether `c` has the Unicode property `White_Space`.
pub fn is_white_space(c: char) -> (res: bool)
    ensures
        res == white_space(c),
{
    ('\u{9}' <= c && c <= '\u{d}') || c == ' ' || c == '\u{85}' || c == '\u{a0}' || c == '\u{1680}'
        || ('\u{2000}' <= c && c <= '\u{200a}') || c == '\u{2028}' || c == '\u{2029}' || c
        == '\u{202f}' || c == '\u{205f}' || c == '\u{3000}'
}

/// `s` without its leading white space.
pub open spec fn trimmed_start(s: Seq<char>) -> Seq<char>
    decreases s.len(),
{
    if s.len() > 0 && white_space(s[0]) {
        trimmed_start(s.skip(1))
    } else {
        s
    }
}

/// `s` without its trailing white space.
pub open spec fn trimmed_end(s: Seq<char>) -> Seq<char>
    decreases s.len(),
{
    if s.len() > 0 && white_space(s.last()) {
        trimmed_end(s.drop_last())
    } else {
        s
    }
}

/// `s` without white space at either end.
pub open spec fn trimmed(s: Seq<char>) -> Seq<char> {
    trimmed_end(trimmed_start(s))
}

/// Removes the white space at both ends of `s`.
pub fn trim(s: &str) -> (res: &str)
    ensures
        res@ == trimmed(s@),
{
    let chars = chars_of(s);
    let n: usize = chars.len();
    let mut i: usize = 0;
    assert(s@.skip(0) == s@);
    while i < n && is_white_space(chars[i])
        invariant
            n == chars@.len(),
            chars@ == s@,
            i <= n,
            trimmed_start(s@) == trimmed_start(s@.skip(i as int)),
        decreases n - i,
    {
        assert(s@.skip(i as int).skip(1) == s@.skip(i + 1));
        i = i + 1;
    }
    assert(trimmed_start(s@) == s@.skip(i as int));
    let mut j: usize = n;
    assert(s@.subrange(i as int, n as int) == s@.skip(i as int));
    while i < j && is_white_space(chars[j - 1])
        invariant
            n == chars@.len(),
            chars@ == s@,
            i <= j <= n,
            trimmed(s@) == trimmed_end(s@.subrange(i as int, j as int)),
        decreases j - i,
    {
        assert(s@.subrange(i as int, j as int).drop_last() == s@.subrange(i as int, j - 1));
        j = j - 1;
    }
    s.substring_char(i, j)
}

/// The first `count` elements of `s`, or all of them where there are fewer.
pub open spec fn at_most<A>(s: Seq<A>, count: nat) -> Seq<A> {
    if s.len() <= count {
        s
    } else {
        s.take(count as int)
    }
}

/// The texts of a sequence of string slices.
pub open spec fn texts_of(s: Seq<&str>) -> Seq<Seq<char>> {
    Seq::new(s.len(), |i: int| s[i]@)
}

/// Whether `s` starts with `prefix`.
pub open spec fn starts_with(s: Seq<char>, prefix: Seq<char>) -> bool {
    prefix.len() <= s.len() && s.take(prefix.len() as int) == prefix
}

/// Whether `s` ends with `suffix`.
pub open spec fn ends_with(s: Seq<char>, suffix: Seq<char>) -> bool {
    suffix.len() <= s.len() && s.skip(s.len() - suffix.len()) == suffix
}

/// Whether `part` stands in `chars` from position `at` on.
fn stands_at(chars: &Vec<char>, at: usize, part: &Vec<char>) -> (res: bool)
    requires
        at + part@.len() <= chars@.len(),
    ensures
        res == (chars@.subrange(at as int, at + part@.len()) == part@),
{
    let ghost window = chars@.subrange(at as int, at + part@.len());
    let n: usize = chars.len();
    let mut i: usize = 0;
    while i < part.len()
        invariant
            n == chars@.len(),
            i <= part@.len(),
            at + part@.len() <= n,
            window == chars@.subrange(at as int, at + part@.len()),
            forall|k: int| 0 <= k < i ==> window[k] == part@[k],
        decreases part@.len() - i,
    {
        assert(window[i as int] == chars@[at + i]);
        if chars[at + i] != part[i] {
            return false;
        }
        i = i + 1;
    }
    assert(window == part@);
    true
}

/// Whether `a` and `b` are the same text.
pub fn same_text(a: &str, b: &str) -> (res: bool)
    ensures
        res == (a@ == b@),
{
    let left = chars_of(a);
    let right = chars_of(b);
    if left.len() != right.len() {
        return false;
    }
    assert(left@.subrange(0, right@.len() as int) == left@);
    stands_at(&left, 0, &right)
}

/// What is left of `s` behind `prefix`, where `s` starts with it.
pub fn strip_prefix<'a>(s: &'a str, prefix: &str) -> (res: Option<&'a str>)
    ensures
        match res {
            Some(rest) => starts_with(s@, prefix@) && rest@ == s@.skip(prefix@.len() as int),
            None => !starts_with(s@, prefix@),
        },
{
    let chars = chars_of(s);
    let part = chars_of(prefix);
    if part.len() > chars.len() {
        return None;
    }
    assert(s@.take(prefix@.len() as int) == s@.subrange(0, prefix@.len() as int));
    if stands_at(&chars, 0, &part) {
        assert(s@.subrange(part@.len() as int, chars@.len() as int) == s@.skip(part@.len() as int));
        Some(s.substring_char(part.len(), chars.len()))
    } else {
        None
    }
}

/// What is left of `s` before `suffix`, where `s` ends with it.
pub fn strip_suffix<'a>(s: &'a str, suffix: &str) -> (res: Option<&'a str>)
    ensures
        match res {
            Some(rest) => ends_with(s@, suffix@) && rest@ == s@.take(s@.len() - suffix@.len()),
            None => !ends_with(s@, suffix@),
        },
{
    let chars = chars_of(s);
    let part = chars_of(suffix);
    if part.len() > chars.len() {
        return None;
    }
    let at: usize = chars.len() - part.len();
    assert(s@.skip(at as int) == s@.subrange(at as int, at + part@.len()));
    if stands_at(&chars, at, &part) {
        assert(s@.take(at as int) == s@.subrange(0, at as int));
        Some(s.substring_char(0, at))
    } else {
        None
    }
}

/// What stands in `s` behind its last `separator`; all of `s` where there is none.
pub open spec fn last_segment(s: Seq<char>, separator: char) -> Seq<char>
    decreases s.len(),
{
    if s.len() == 0 || s.last() == separator {
        seq![]
    } else {
        last_segment(s.drop_last(), separator).push(s.last())
    }
}

/// The part of `s` behind its last `separator`.
pub fn segment_after_last(s: &str, separator: char) -> (res: &str)
    ensures
        res@ == last_segment(s@, separator),
{
    let chars = chars_of(s);
    let n: usize = chars.len();
    let mut i: usize = n;
    assert(s@.take(n as int) == s@);
    assert(last_segment(s@, separator) + s@.skip(n as int) == last_segment(s@, separator));
    while i > 0 && chars[i - 1] != separator
        invariant
            n == chars@.len(),
            chars@ == s@,
            i <= n,
            last_segment(s@, separator) == last_segment(s@.take(i as int), separator) + s@.skip(
                i as int,
            ),
        decreases i,
    {
        let ghost head = s@.take(i as int);
        assert(head.drop_last() == s@.take(i - 1));
        assert(last_segment(head, separator) == last_segment(s@.take(i - 1), separator).push(
            s@[i - 1],
        ));
        assert(last_segment(s@.take(i - 1), separator).push(s@[i - 1]) + s@.skip(i as int)
            == last_segment(s@.take(i - 1), separator) + s@.skip(i - 1));
        i = i - 1;
    }
    assert(last_segment(s@.take(i as int), separator) == Seq::<char>::empty());
    assert(s@.subrange(i as int, n as int) == s@.skip(i as int));
    assert(Seq::<char>::empty() + s@.skip(i as int) == s@.skip(i as int));
    s.substring_char(i, n)
}

/// The texts of a sequence of strings.
pub open spec fn texts(s: Seq<String>) -> Seq<Seq<char>> {
    Seq::new(s.len(), |i: int| s[i]@)
}

/// `parts` one after the other, with `separator` between neighbours.
pub open spec fn joined(parts: Seq<Seq<char>>, separator: Seq<char>) -> Seq<char>
    decreases parts.len(),
{
    if parts.len() == 0 {
        seq![]
    } else if parts.len() == 1 {
        parts[0]
    } else {
        joined(parts.drop_last(), separator) + separator + parts.last()
    }
}

/// Joins `parts` with `separator`.
pub fn join(parts: &Vec<String>, separator: &str) -> (res: String)
    ensures
        res@ == joined(texts(parts@), separator@),
{
    let mut out = String::new();
    let mut i: usize = 0;
    let ghost all = texts(parts@);
    while i < parts.len()
        invariant
            i <= parts@.len(),
            all == texts(parts@),
            out@ == joined(all.take(i as int), separator@),
        decreases parts@.len() - i,
    {
        if i > 0 {
            out.append(separator);
        }
        out.append(parts[i].as_str());
        proof {
            let head = all.take(i + 1);
            assert(head.drop_last() == all.take(i as int));
            assert(head.last() == parts@[i as int]@);
            if i == 0 {
                assert(all.take(0) == Seq::<Seq<char>>::empty());
                assert(out@ == head[0]);
            }
        }
        i = i + 1;
    }
    assert(all.take(parts@.len() as int) == all);
    out
}

/// A copy of `s`.
pub fn copy_strings(s: &Vec<String>) -> (res: Vec<String>)
    ensures
        texts(res@) == texts(s@),
{
    let mut out: Vec<String> = Vec::new();
    let mut i: usize = 0;
    while i < s.len()
        invariant
            i <= s@.len(),
            out@.len() == i,
            forall|k: int| 0 <= k < i ==> out@[k]@ == s@[k]@,
        decreases s@.len() - i,
    {
        out.push(s[i].clone());
        i = i + 1;
    }
    assert(texts(out@) == texts(s@));
    out
}

/// The text of an optional string.
pub open spec fn text_option(o: Option<String>) -> Option<Seq<char>> {
    match o {
        Some(s) => Some(s@),
        None => None,
    }
}

/// A copy of `o`.
pub fn copy_option(o: &Option<String>) -> (res: Option<String>)
    ensures
        text_option(res) == text_option(*o),
{
    match o {
        Some(s) => Some(s.clone()),
        None => None,
    }
}

} // verus!
