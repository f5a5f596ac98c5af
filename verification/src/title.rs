//! The titles of issues.

use crate::encoding::{lemma_encode_push, lemma_start_has_no_more_bytes, width};
use crate::record::{kind_text, ExceptionRecord, RecordView};
use crate::text::chars_of;
use vstd::prelude::*;
use vstd::string::*;
use vstd::utf8::*;

verus! {

/// How many bytes of a message a title keeps at most.
pub const TITLE_LIMIT: usize = 80;

/// `message`, without as many characters at its end as it takes for the rest to
/// have no more than `limit` bytes.
pub open spec fn cut(message: Seq<char>, limit: nat) -> Seq<char>
    decreases message.len(),
{
    if message.len() == 0 || encode_utf8(message).len() <= limit {
        message
    } else {
        cut(message.drop_last(), limit)
    }
}

/// Where the first `n` characters fit and one more does not, these are kept.
proof fn lemma_cut_at(message: Seq<char>, limit: nat, n: int)
    requires
        0 <= n <= message.len(),
        encode_utf8(message.take(n)).len() <= limit,
        n < message.len() ==> encode_utf8(message.take(n + 1)).len() > limit,
    ensures
        cut(message, limit) == message.take(n),
    decreases message.len(),
{
    if n == message.len() {
        assert(message.take(n) == message);
    } else {
        lemma_start_has_no_more_bytes(message, n + 1);
        let shorter = message.drop_last();
        assert(shorter.take(n) == message.take(n));
        if n < shorter.len() {
            assert(shorter.take(n + 1) == message.take(n + 1));
        }
        lemma_cut_at(shorter, limit, n);
    }
}

/// Cuts `msg` to as many of its first characters as fit into `max_len` bytes.
pub fn truncate_for_title(msg: &str, max_len: usize) -> (res: &str)
    ensures
        res@ == cut(msg@, max_len as nat),
{
    let chars = chars_of(msg);
    let count: usize = chars.len();
    let mut n: usize = 0;
    let mut left: usize = max_len;
    assert(encode_utf8(msg@.take(0)).len() == 0);
    while n < count && width(chars[n]) <= left
        invariant
            count == chars@.len(),
            chars@ == msg@,
            n <= count,
            left <= max_len,
            encode_utf8(msg@.take(n as int)).len() == max_len - left,
        decreases count - n,
    {
        left = left - width(chars[n]);
        proof {
            assert(msg@.take(n + 1) == msg@.take(n as int).push(msg@[n as int]));
            lemma_encode_push(msg@.take(n as int), msg@[n as int]);
        }
        n = n + 1;
    }
    proof {
        if n < count {
            assert(msg@.take(n + 1) == msg@.take(n as int).push(msg@[n as int]));
            lemma_encode_push(msg@.take(n as int), msg@[n as int]);
        }
        lemma_cut_at(msg@, max_len as nat, n as int);
        assert(msg@.subrange(0, n as int) == msg@.take(n as int));
    }
    msg.substring_char(0, n)
}

/// A title holds the start of the message and nothing else, in no more bytes
/// than its limit; and no longer start of the message would fit.
pub proof fn law_cut_is_the_longest_start_that_fits(message: Seq<char>, limit: nat)
    ensures
        cut(message, limit).len() <= message.len(),
        message.take(cut(message, limit).len() as int) == cut(message, limit),
        encode_utf8(cut(message, limit)).len() <= limit,
        forall|n: int|
            cut(message, limit).len() < n <= message.len() ==> encode_utf8(
                #[trigger] message.take(n),
            ).len() > limit,
    decreases message.len(),
{
    if message.len() == 0 || encode_utf8(message).len() <= limit {
        assert(message.take(message.len() as int) == message);
    } else {
        let shorter = message.drop_last();
        law_cut_is_the_longest_start_that_fits(shorter, limit);
        let kept = cut(message, limit).len() as int;
        assert(shorter.take(kept) == message.take(kept));
        assert forall|n: int| kept < n <= message.len() implies encode_utf8(
            #[trigger] message.take(n),
        ).len() > limit by {
            if n < message.len() {
                assert(shorter.take(n) == message.take(n));
            } else {
                assert(message.take(n) == message);
            }
        }
    }
}

/// Where a character of a message that is too long ends just at the limit, the
/// title has as many bytes as the limit allows.
pub proof fn law_cut_is_exact_between_characters(message: Seq<char>, limit: nat)
    requires
        encode_utf8(message).len() > limit,
        is_char_boundary(encode_utf8(message), limit as int),
    ensures
        encode_utf8(cut(message, limit)).len() == limit,
        cut(message, limit) == decode_utf8(encode_utf8(message).subrange(0, limit as int)),
{
    let bytes = encode_utf8(message);
    encode_utf8_valid_utf8(message);
    encode_utf8_decode_utf8(message);
    let head = bytes.subrange(0, limit as int);
    valid_utf8_split(bytes, limit as int);
    decode_utf8_split(bytes, limit as int);
    decode_utf8_encode_utf8(head);
    let start = decode_utf8(head);
    let rest = decode_utf8(bytes.subrange(limit as int, bytes.len() as int));
    assert(message == start + rest);
    let n = start.len() as int;
    assert(message.take(n) == start);
    assert(n < message.len()) by {
        if n == message.len() {
            assert(message.take(n) == message);
        }
    }
    assert(message.take(n + 1) == start.push(message[n]));
    lemma_encode_push(start, message[n]);
    lemma_cut_at(message, limit, n);
}

/// The title of the issue that a record opens.
pub open spec fn title_text(r: RecordView) -> Seq<char> {
    "["@ + r.component + "] "@ + kind_text(r.kind) + ": "@ + cut(r.message, TITLE_LIMIT as nat)
}

/// The title of the issue that a record opens.
pub fn issue_title(r: &ExceptionRecord) -> (res: String)
    ensures
        res@ == title_text(r@),
{
    let mut out = String::from_str("[");
    out.append(r.component.as_str());
    out.append("] ");
    out.append(r.kind.name());
    out.append(": ");
    out.append(truncate_for_title(r.message.as_str(), TITLE_LIMIT));
    out
}

/// A title names the component and the kind, whole, and shows the start of the
/// message: all of it where it fits into eighty bytes.
pub proof fn law_titles_tell_the_component_the_kind_and_the_message(r: RecordView)
    ensures
        exists|n: int|
            0 <= n <= r.message.len() && title_text(r) == "["@ + r.component + "] "@ + kind_text(
                r.kind,
            ) + ": "@ + #[trigger] r.message.take(n) && encode_utf8(r.message.take(n)).len() <= 80
                && (n == r.message.len() || encode_utf8(r.message.take(n + 1)).len() > 80),
        encode_utf8(r.message).len() <= 80 ==> title_text(r) == "["@ + r.component + "] "@
            + kind_text(r.kind) + ": "@ + r.message,
{
    law_cut_is_the_longest_start_that_fits(r.message, 80);
    let n = cut(r.message, 80).len() as int;
    assert(r.message.take(n) == cut(r.message, 80));
    assert(title_text(r) == "["@ + r.component + "] "@ + kind_text(r.kind) + ": "@
        + r.message.take(n));
}

} // verus!
