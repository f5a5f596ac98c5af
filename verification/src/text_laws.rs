//! What holds of texts, numbers and JSON, whatever they are made of.

use crate::digits::{decimal, digit, hex, hex_byte};
use crate::json::{
    escaped, escaped_all, json_array, json_bool, json_member, json_object, json_option,
    json_string, json_strings, member_in, Json,
};
use crate::lines::{blank, lemma_line_end_is, lines, not_blank};
use crate::text::{
    at_most, ends_with, joined, last_segment, starts_with, text_option, texts, trimmed, trimmed_end,
    trimmed_start, white_space,
};
use vstd::prelude::*;
use vstd::string::*;

verus! {

/// Trimming takes away white space only, and all of it: what is left neither
/// starts nor ends in white space.
pub proof fn law_trimming_takes_white_space_only(s: Seq<char>)
    ensures
        exists|before: Seq<char>, after: Seq<char>|
            #![trigger before + trimmed(s) + after]
            s == before + trimmed(s) + after && (forall|i: int|
                0 <= i < before.len() ==> white_space(#[trigger] before[i])) && (forall|i: int|
                0 <= i < after.len() ==> white_space(#[trigger] after[i])),
        trimmed(s).len() > 0 ==> !white_space(trimmed(s)[0]) && !white_space(trimmed(s).last()),
{
    lemma_trimmed_start(s);
    let rest = trimmed_start(s);
    lemma_trimmed_end(rest);
    let before = s.take(s.len() - rest.len());
    let after = rest.skip(trimmed(s).len() as int);
    assert(s == before + trimmed(s) + after);
    assert forall|i: int| 0 <= i < before.len() implies white_space(#[trigger] before[i]) by {
        assert(before[i] == s[i]);
    }
    assert forall|i: int| 0 <= i < after.len() implies white_space(#[trigger] after[i]) by {
        assert(after[i] == rest[i + trimmed(s).len()]);
    }
}

/// What stands in white space, and neither starts nor ends in any, is found by
/// trimming.
pub proof fn law_trimming_finds_what_stands_in_white_space(
    before: Seq<char>,
    s: Seq<char>,
    after: Seq<char>,
)
    requires
        blank(before),
        blank(after),
        s.len() > 0 ==> !white_space(s[0]) && !white_space(s.last()),
    ensures
        trimmed(before + s + after) == s,
{
    let whole = before + s + after;
    lemma_trimmed_start(whole);
    let rest = trimmed_start(whole);
    lemma_trimmed_end(rest);
    let n = before.len() as int;
    let gone = whole.len() - rest.len();
    if s.len() > 0 {
        if gone > n {
            assert(whole[n] == s[0]);
        } else if gone < n {
            assert(rest[0] == whole[gone]);
            assert(whole[gone] == before[gone]);
        }
        assert(rest == s + after);
        let kept = trimmed(whole).len() as int;
        if kept < s.len() {
            assert(rest[s.len() - 1] == s.last());
        } else if kept > s.len() {
            assert(rest[kept - 1] == after[kept - 1 - s.len()]);
            assert(trimmed(whole).last() == rest[kept - 1]);
        }
        assert(rest.take(s.len() as int) == s);
    } else {
        if rest.len() > 0 {
            assert(rest[0] == whole[gone]);
            if gone < n {
                assert(whole[gone] == before[gone]);
            } else {
                assert(whole[gone] == after[gone - n]);
            }
        }
        assert(trimmed(whole) == s);
    }
}

proof fn lemma_trimmed_start(s: Seq<char>)
    ensures
        trimmed_start(s).len() <= s.len(),
        s.skip(s.len() - trimmed_start(s).len()) == trimmed_start(s),
        forall|i: int| 0 <= i < s.len() - trimmed_start(s).len() ==> white_space(#[trigger] s[i]),
        trimmed_start(s).len() > 0 ==> !white_space(trimmed_start(s)[0]),
    decreases s.len(),
{
    if s.len() > 0 && white_space(s[0]) {
        let rest = s.skip(1);
        lemma_trimmed_start(rest);
        assert(s.skip(s.len() - trimmed_start(s).len()) == rest.skip(
            rest.len() - trimmed_start(s).len(),
        ));
        assert forall|i: int| 0 <= i < s.len() - trimmed_start(s).len() implies white_space(
            #[trigger] s[i],
        ) by {
            if i > 0 {
                assert(s[i] == rest[i - 1]);
            }
        }
    } else {
        assert(s.skip(0) == s);
    }
}

proof fn lemma_trimmed_end(s: Seq<char>)
    ensures
        trimmed_end(s).len() <= s.len(),
        s.take(trimmed_end(s).len() as int) == trimmed_end(s),
        forall|i: int| trimmed_end(s).len() <= i < s.len() ==> white_space(#[trigger] s[i]),
        trimmed_end(s).len() > 0 ==> !white_space(trimmed_end(s).last()),
    decreases s.len(),
{
    if s.len() > 0 && white_space(s.last()) {
        let rest = s.drop_last();
        lemma_trimmed_end(rest);
        assert(s.take(trimmed_end(s).len() as int) == rest.take(trimmed_end(s).len() as int));
        assert forall|i: int| trimmed_end(s).len() <= i < s.len() implies white_space(
            #[trigger] s[i],
        ) by {
            if i < rest.len() {
                assert(s[i] == rest[i]);
            }
        }
    } else {
        assert(s.take(s.len() as int) == s);
    }
}

/// One part is joined to itself, and parts that follow others are joined behind
/// them, with a separator between.
pub proof fn law_joining_keeps_every_part(
    x: Seq<char>,
    a: Seq<Seq<char>>,
    b: Seq<Seq<char>>,
    separator: Seq<char>,
)
    requires
        a.len() > 0,
        b.len() > 0,
    ensures
        joined(seq![x], separator) == x,
        joined(a + b, separator) == joined(a, separator) + separator + joined(b, separator),
    decreases b.len(),
{
    if b.len() == 1 {
        assert((a + b).drop_last() == a);
        assert((a + b).last() == b[0]);
    } else {
        law_joining_keeps_every_part(x, a, b.drop_last(), separator);
        assert((a + b).drop_last() == a + b.drop_last());
        assert((a + b).last() == b.last());
        assert(joined(a + b, separator) == joined(a, separator) + separator + joined(
            b.drop_last(),
            separator,
        ) + separator + b.last());
        assert(joined(a, separator) + separator + (joined(b.drop_last(), separator) + separator
            + b.last()) == joined(a + b, separator));
    }
}

/// The last segment ends the text, holds no separator, and is either the whole
/// text or stands behind one.
pub proof fn law_the_last_segment_ends_the_text(s: Seq<char>, separator: char)
    ensures
        last_segment(s, separator).len() <= s.len(),
        s.skip(s.len() - last_segment(s, separator).len()) == last_segment(s, separator),
        !last_segment(s, separator).contains(separator),
        last_segment(s, separator).len() < s.len() ==> s[s.len() - last_segment(
            s,
            separator,
        ).len() - 1] == separator,
    decreases s.len(),
{
    if s.len() == 0 || s.last() == separator {
        assert(s.skip(s.len() as int) == Seq::<char>::empty());
    } else {
        let before = s.drop_last();
        law_the_last_segment_ends_the_text(before, separator);
        let part = last_segment(before, separator);
        let n = s.len() - last_segment(s, separator).len();
        assert(before.skip(n).push(s.last()) == s.skip(n));
        assert forall|i: int| 0 <= i < part.push(s.last()).len() implies part.push(s.last())[i]
            != separator by {
            if i < part.len() {
                assert(part.contains(part[i]));
            }
        }
    }
}

/// The first `count` of `s` come first in `s`, and there are as many as asked
/// for wherever `s` has them.
pub proof fn law_the_first_elements_come_first<A>(s: Seq<A>, count: nat)
    ensures
        at_most(s, count).len() == if s.len() < count {
            s.len()
        } else {
            count
        },
        forall|i: int| 0 <= i < at_most(s, count).len() ==> #[trigger] at_most(s, count)[i] == s[i],
{
}

/// A line is kept whole, and where it holds more than white space it is not blank.
pub proof fn law_lines_are_kept_whole(line: Seq<char>)
    requires
        !line.contains('\n'),
        line.len() > 0 ==> line.last() != '\r',
    ensures
        lines(line.push('\n')) == seq![line],
        lines(line.push('\r').push('\n')) == seq![line],
        line.len() > 0 ==> lines(line) == seq![line],
        (exists|i: int| 0 <= i < line.len() && !white_space(#[trigger] line[i])) ==> not_blank(
            seq![line],
        ) == seq![line],
{
    assert forall|i: int| 0 <= i < line.len() implies line[i] != '\n' by {
        assert(line.contains(line[i]));
    }
    let ended = line.push('\n');
    lemma_line_end_is(ended, line.len() as int);
    assert(ended.take(line.len() as int) == line);
    assert(ended.skip(line.len() as int + 1) == Seq::<char>::empty());
    assert(lines(Seq::<char>::empty()) == Seq::<Seq<char>>::empty());
    assert(lines(ended) == seq![line] + Seq::<Seq<char>>::empty());
    assert(lines(ended) == seq![line]);
    let returned = line.push('\r').push('\n');
    lemma_line_end_is(returned, line.len() as int + 1);
    assert(returned.take(line.len() as int + 1) == line.push('\r'));
    assert(line.push('\r').drop_last() == line);
    assert(returned.skip(line.len() as int + 2) == Seq::<char>::empty());
    assert(lines(returned) == seq![line] + Seq::<Seq<char>>::empty());
    assert(lines(returned) == seq![line]);
    if line.len() > 0 {
        lemma_line_end_is(line, line.len() as int);
    }
    if exists|i: int| 0 <= i < line.len() && !white_space(#[trigger] line[i]) {
        assert(!blank(line));
        assert(seq![line].skip(1) == Seq::<Seq<char>>::empty());
        assert(not_blank(Seq::<Seq<char>>::empty()) == Seq::<Seq<char>>::empty());
        assert(seq![line] + Seq::<Seq<char>>::empty() == seq![line]);
    }
}

/// The value of a digit.
pub open spec fn digit_value(c: char) -> int {
    if '0' <= c <= '9' {
        c as int - '0' as int
    } else {
        c as int - 'a' as int + 10
    }
}

/// The number that digits of the given base stand for.
pub open spec fn value(s: Seq<char>, base: nat) -> int
    decreases s.len(),
{
    if s.len() == 0 {
        0
    } else {
        value(s.drop_last(), base) * base + digit_value(s.last())
    }
}

proof fn lemma_digit(d: int)
    requires
        0 <= d < 16,
    ensures
        digit_value(digit(d)) == d,
        d < 10 ==> '0' <= digit(d) <= '9',
        d > 0 ==> digit(d) != '0',
{
    reveal_strlit("0123456789abcdef");
    assert(d == 0 || d == 1 || d == 2 || d == 3 || d == 4 || d == 5 || d == 6 || d == 7 || d == 8
        || d == 9 || d == 10 || d == 11 || d == 12 || d == 13 || d == 14 || d == 15);
}

/// A number in decimal is made of decimal digits, stands for the number, and has
/// no leading zero.
pub proof fn law_decimals_stand_for_their_numbers(n: nat)
    ensures
        value(decimal(n), 10) == n,
        decimal(n).len() > 0,
        forall|i: int| 0 <= i < decimal(n).len() ==> '0' <= #[trigger] decimal(n)[i] <= '9',
        n > 0 ==> decimal(n)[0] != '0',
    decreases n,
{
    if n < 10 {
        lemma_digit(n as int);
        assert(decimal(n).drop_last() == Seq::<char>::empty());
        assert(value(Seq::<char>::empty(), 10) == 0);
    } else {
        law_decimals_stand_for_their_numbers(n / 10);
        lemma_digit((n % 10) as int);
        assert(decimal(n).drop_last() == decimal(n / 10));
    }
}

/// Bytes can be read back from their hexadecimal digits.
pub proof fn law_different_bytes_have_different_digits(a: Seq<u8>, b: Seq<u8>)
    requires
        hex(a) == hex(b),
    ensures
        a == b,
    decreases a.len(),
{
    crate::digits::lemma_hex_form(a);
    crate::digits::lemma_hex_form(b);
    if a.len() > 0 {
        let n = hex(a).len() as int;
        let x = a.last();
        let y = b.last();
        assert(hex(a)[n - 2] == hex_byte(x)[0] && hex(a)[n - 1] == hex_byte(x)[1]);
        assert(hex(b)[n - 2] == hex_byte(y)[0] && hex(b)[n - 1] == hex_byte(y)[1]);
        lemma_digit(x as int / 16);
        lemma_digit(x as int % 16);
        lemma_digit(y as int / 16);
        lemma_digit(y as int % 16);
        assert(x == y);
        assert(hex(a).take(n - 2) == hex(a.drop_last()));
        assert(hex(b).take(n - 2) == hex(b.drop_last()));
        law_different_bytes_have_different_digits(a.drop_last(), b.drop_last());
        assert(a == a.drop_last().push(x));
        assert(b == b.drop_last().push(y));
    }
}

proof fn lemma_escaped_front(s: Seq<char>)
    requires
        s.len() > 0,
    ensures
        escaped_all(s) == escaped(s[0]) + escaped_all(s.skip(1)),
    decreases s.len(),
{
    if s.len() == 1 {
        assert(s.drop_last() == Seq::<char>::empty());
        assert(s.skip(1) == Seq::<char>::empty());
        assert(escaped_all(Seq::<char>::empty()) == Seq::<char>::empty());
        assert(escaped_all(s) == escaped(s[0]));
        assert(escaped(s[0]) + Seq::<char>::empty() == escaped(s[0]));
    } else {
        lemma_escaped_front(s.drop_last());
        assert(s.drop_last().skip(1) == s.skip(1).drop_last());
        assert(s.skip(1).last() == s.last());
        assert(escaped(s[0]) + escaped_all(s.skip(1).drop_last()) + escaped(s.last()) == escaped(
            s[0],
        ) + (escaped_all(s.skip(1).drop_last()) + escaped(s.last())));
    }
}

/// The escape of a character tells where it ends, and which character it is of.
proof fn lemma_escape_is_a_code(c: char, x: Seq<char>, d: char, y: Seq<char>)
    requires
        escaped(c) + x == escaped(d) + y,
    ensures
        c == d,
        x == y,
{
    let left = escaped(c) + x;
    let right = escaped(d) + y;
    assert(left[0] == escaped(c)[0]);
    assert(right[0] == escaped(d)[0]);
    if escaped(c).len() > 1 {
        assert(left[1] == escaped(c)[1]);
    }
    if escaped(d).len() > 1 {
        assert(right[1] == escaped(d)[1]);
    }
    if escaped(c).len() == 6 {
        assert(left[4] == escaped(c)[4] && left[5] == escaped(c)[5]);
        lemma_digit(c as u8 as int / 16);
        lemma_digit(c as u8 as int % 16);
    }
    if escaped(d).len() == 6 {
        assert(right[4] == escaped(d)[4] && right[5] == escaped(d)[5]);
        lemma_digit(d as u8 as int / 16);
        lemma_digit(d as u8 as int % 16);
    }
    assert(c == d);
    let n = escaped(c).len() as int;
    assert(left.skip(n) == x);
    assert(right.skip(n) == y);
}

/// A JSON string tells where it ends, and which text it is of.
pub proof fn law_json_strings_are_read_back(
    s: Seq<char>,
    x: Seq<char>,
    t: Seq<char>,
    y: Seq<char>,
)
    requires
        json_string(s) + x == json_string(t) + y,
    ensures
        s == t,
        x == y,
{
    let left = json_string(s) + x;
    let right = json_string(t) + y;
    assert(left.skip(1) == escaped_all(s) + (seq!['"'] + x));
    assert(right.skip(1) == escaped_all(t) + (seq!['"'] + y));
    lemma_escaped_texts(s, x, t, y);
}

proof fn lemma_escaped_texts(s: Seq<char>, x: Seq<char>, t: Seq<char>, y: Seq<char>)
    requires
        escaped_all(s) + (seq!['"'] + x) == escaped_all(t) + (seq!['"'] + y),
    ensures
        s == t,
        x == y,
    decreases s.len(),
{
    let left = escaped_all(s) + (seq!['"'] + x);
    let right = escaped_all(t) + (seq!['"'] + y);
    if s.len() > 0 {
        lemma_escaped_front(s);
        assert(left == escaped(s[0]) + (escaped_all(s.skip(1)) + (seq!['"'] + x)));
        assert(left[0] == escaped(s[0])[0]);
        assert(left[0] != '"');
    }
    if t.len() > 0 {
        lemma_escaped_front(t);
        assert(right == escaped(t[0]) + (escaped_all(t.skip(1)) + (seq!['"'] + y)));
        assert(right[0] == escaped(t[0])[0]);
        assert(right[0] != '"');
    }
    if s.len() == 0 {
        assert(left[0] == '"');
        assert(t.len() == 0);
        assert(left.skip(1) == x);
        assert(right.skip(1) == y);
    } else {
        if t.len() == 0 {
            assert(right[0] == '"');
        }
        lemma_escape_is_a_code(
            s[0],
            escaped_all(s.skip(1)) + (seq!['"'] + x),
            t[0],
            escaped_all(t.skip(1)) + (seq!['"'] + y),
        );
        lemma_escaped_texts(s.skip(1), x, t.skip(1), y);
        assert(s == seq![s[0]] + s.skip(1));
        assert(t == seq![t[0]] + t.skip(1));
    }
}

/// Nothing is written as `null`, and what is there as a JSON string, from which
/// it can be told again.
pub proof fn law_options_are_read_back(a: Option<Seq<char>>, b: Option<Seq<char>>)
    ensures
        json_option(a) == json_option(b) <==> a == b,
        json_option(None) == "null"@,
        a is Some ==> json_option(a) == json_string(a->0),
{
    reveal_strlit("null");
    if json_option(a) == json_option(b) {
        match (a, b) {
            (Some(s), Some(t)) => {
                assert(json_string(s) + Seq::<char>::empty() == json_string(s));
                assert(json_string(t) + Seq::<char>::empty() == json_string(t));
                law_json_strings_are_read_back(s, Seq::empty(), t, Seq::empty());
            },
            (Some(s), None) => {
                assert(json_string(s)[0] == '"');
            },
            (None, Some(t)) => {
                assert(json_string(t)[0] == '"');
            },
            (None, None) => {},
        }
    }
}

/// A truth value is written by its name.
pub proof fn law_truth_values_have_their_names()
    ensures
        json_bool(true) == "true"@,
        json_bool(false) == "false"@,
{
}

/// An array and an object hold each item and each member as it is, in order: one
/// more is written behind the others.
pub proof fn law_items_are_written_in_order(items: Seq<Seq<char>>, x: Seq<char>)
    ensures
        json_array(seq![]) == "[]"@,
        json_object(seq![]) == "{}"@,
        json_array(seq![x]) == "["@ + x + "]"@,
        json_object(seq![x]) == "{"@ + x + "}"@,
        items.len() > 0 ==> json_array(items.push(x)) == json_array(items).drop_last() + ","@ + x
            + "]"@,
        items.len() > 0 ==> json_object(items.push(x)) == json_object(items).drop_last() + ","@ + x
            + "}"@,
{
    reveal_strlit("[");
    reveal_strlit("]");
    reveal_strlit("[]");
    reveal_strlit("{");
    reveal_strlit("}");
    reveal_strlit("{}");
    let none = Seq::<Seq<char>>::empty();
    assert(joined(none, ","@) == Seq::<char>::empty());
    assert(json_array(none) == "[]"@);
    assert(json_object(none) == "{}"@);
    assert(items.push(x).drop_last() == items);
    if items.len() > 0 {
        assert(json_array(items).drop_last() == "["@ + joined(items, ","@));
        assert(json_object(items).drop_last() == "{"@ + joined(items, ","@));
        assert(json_array(items.push(x)) == json_array(items).drop_last() + ","@ + x + "]"@);
        assert(json_object(items.push(x)) == json_object(items).drop_last() + ","@ + x + "}"@);
    }
}

/// A member of an object tells its key and its value.
pub proof fn law_members_are_read_back(
    key: Seq<char>,
    value: Seq<char>,
    other_key: Seq<char>,
    other_value: Seq<char>,
)
    requires
        json_member(key, value) == json_member(other_key, other_value),
    ensures
        key == other_key,
        value == other_value,
{
    reveal_strlit(":");
    assert(json_member(key, value) == json_string(key) + (":"@ + value));
    assert(json_member(other_key, other_value) == json_string(other_key) + (":"@ + other_value));
    law_json_strings_are_read_back(key, ":"@ + value, other_key, ":"@ + other_value);
    assert((":"@ + value).skip(1) == value);
    assert((":"@ + other_value).skip(1) == other_value);
}

/// Texts are written one for one.
pub proof fn law_texts_are_written_one_for_one(s: Seq<Seq<char>>, i: int)
    ensures
        json_strings(s).len() == s.len(),
        0 <= i < s.len() ==> json_strings(s)[i] == json_string(s[i]),
{
}

/// The member of an object is the first of its key, wherever it stands.
pub proof fn law_the_first_member_of_a_key_counts(
    members: Seq<(String, Json)>,
    key: Seq<char>,
    i: int,
)
    requires
        0 <= i < members.len(),
        members[i].0@ == key,
        forall|k: int| 0 <= k < i ==> (#[trigger] members[k]).0@ != key,
    ensures
        member_in(members, key) == Some(members[i].1),
    decreases i,
{
    if i > 0 {
        assert(members[0].0@ != key);
        let rest = members.skip(1);
        assert forall|k: int| 0 <= k < i - 1 implies (#[trigger] rest[k]).0@ != key by {
            assert(rest[k] == members[k + 1]);
        }
        law_the_first_member_of_a_key_counts(rest, key, i - 1);
    }
}

/// An object has no member of a key that none of its members has.
pub proof fn law_a_key_that_is_not_there_has_no_member(
    members: Seq<(String, Json)>,
    key: Seq<char>,
)
    requires
        forall|k: int| 0 <= k < members.len() ==> (#[trigger] members[k]).0@ != key,
    ensures
        member_in(members, key) is None,
    decreases members.len(),
{
    if members.len() > 0 {
        assert(members[0].0@ != key);
        let rest = members.skip(1);
        assert forall|k: int| 0 <= k < rest.len() implies (#[trigger] rest[k]).0@ != key by {
            assert(rest[k] == members[k + 1]);
        }
        law_a_key_that_is_not_there_has_no_member(rest, key);
    }
}

/// A text starts with another exactly where it is made of it and of something
/// behind it, and ends with another exactly where it is made of something and of
/// it.
pub proof fn law_starts_and_ends(s: Seq<char>, part: Seq<char>)
    ensures
        starts_with(s, part) <==> exists|rest: Seq<char>| s == #[trigger] (part + rest),
        ends_with(s, part) <==> exists|rest: Seq<char>| s == #[trigger] (rest + part),
{
    if starts_with(s, part) {
        assert(s == part + s.skip(part.len() as int));
    }
    if exists|rest: Seq<char>| s == #[trigger] (part + rest) {
        assert(s.take(part.len() as int) == part);
    }
    if ends_with(s, part) {
        assert(s == s.take(s.len() - part.len()) + part);
    }
    if exists|rest: Seq<char>| s == #[trigger] (rest + part) {
        assert(s.skip(s.len() - part.len()) == part);
    }
}

/// Texts are taken one for one, in order.
pub proof fn law_texts_are_taken_one_for_one(s: Seq<String>, i: int)
    ensures
        texts(s).len() == s.len(),
        0 <= i < s.len() ==> texts(s)[i] == s[i]@,
{
}

/// A text that is there is taken as it is, and one that is not is none.
pub proof fn law_options_of_texts(s: String)
    ensures
        text_option(Some(s)) == Some(s@),
        text_option(None) is None,
{
}

} // verus!
