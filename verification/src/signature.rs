//! The signature by which exceptions that are alike are found.
//!
//! It is the SHA-256 digest of the component, the kind with a delimiter behind
//! it, the normalized message and the first three lines of the stack trace that
//! are not blank.

use crate::digits::{hex, hex_text, is_hex_digit, lemma_hex_form};
use crate::encoding::{
    lemma_encode_concat, lemma_encode_is_injective, lemma_encode_push, lemma_encode_without_zero,
};
use crate::normalize::{normalize_message, normalized};
use crate::record::{kind_text, ExceptionKind, ExceptionRecord, RecordView};
use crate::lines::{
    blank, first_lines, lemma_final_line_feed, lemma_lines_of_blank, lemma_lines_of_two,
    lemma_not_blank_of_two, lines, not_blank,
};
use crate::text::{at_most, texts_of, white_space};
use crate::text_laws::law_lines_are_kept_whole;
use vstd::prelude::*;
use vstd::string::*;
use vstd::utf8::*;

verus! {

/// How many frames of a stack trace a signature takes in.
pub const FRAME_COUNT: usize = 3;

/// The first `count` frames of a stack trace: its lines that are not blank.
pub open spec fn frames(stacktrace: Seq<char>, count: nat) -> Seq<Seq<char>> {
    at_most(not_blank(lines(stacktrace)), count)
}

/// The UTF-8 bytes of `parts`, one after the other.
pub open spec fn utf8_of_all(parts: Seq<Seq<char>>) -> Seq<u8>
    decreases parts.len(),
{
    if parts.len() == 0 {
        seq![]
    } else {
        utf8_of_all(parts.drop_last()) + encode_utf8(parts.last())
    }
}

/// The name of a kind, in bytes, and a zero byte that tells it from what
/// follows.
pub open spec fn kind_bytes(kind: ExceptionKind) -> Seq<u8> {
    encode_utf8(kind_text(kind)).push(0)
}

/// The bytes that a signature digests, of a record whose normalized message is
/// `message`.
pub open spec fn signature_bytes(record: RecordView, message: Seq<char>) -> Seq<u8> {
    encode_utf8(record.component) + kind_bytes(record.kind) + encode_utf8(message) + utf8_of_all(frames(record.stacktrace, FRAME_COUNT as nat))
}

/// The digest that `sha2::Sha256` computes.
pub uninterp spec fn sha256_digest(data: Seq<u8>) -> Seq<u8>;

/// Calls `sha2::Sha256::digest`. The digest is a function of the data, and has
/// thirty-two bytes.
#[verifier::external_body]
fn sha256(data: &Vec<u8>) -> (res: Vec<u8>)
    ensures
        res@ == sha256_digest(data@),
        res@.len() == 32,
{
    <sha2::Sha256 as sha2::Digest>::digest(data).to_vec()
}

/// The signature of a record.
pub open spec fn signature_of(record: RecordView) -> Seq<char> {
    hex(sha256_digest(signature_bytes(record, normalized(record.message))))
}

/// The name of a kind, in bytes, and a delimiter behind it to prevent ambiguity.
pub fn kind_to_bytes(kind: ExceptionKind) -> (res: &'static [u8])
    ensures
        res@ == encode_utf8(kind_text(kind)).push(0),
{
    proof {
        lemma_ended_kind(kind);
    }
    match kind {
        ExceptionKind::Panic => "panic\0".as_bytes(),
        ExceptionKind::ErrorLog => "error_log\0".as_bytes(),
        ExceptionKind::ResultErr => "result_err\0".as_bytes(),
    }
}

/// The name of a kind, with a null character behind it.
spec fn ended_kind(kind: ExceptionKind) -> Seq<char> {
    match kind {
        ExceptionKind::Panic => "panic\0"@,
        ExceptionKind::ErrorLog => "error_log\0"@,
        ExceptionKind::ResultErr => "result_err\0"@,
    }
}

/// A null character is a zero byte.
proof fn lemma_ended_kind(kind: ExceptionKind)
    ensures
        encode_utf8(ended_kind(kind)) == kind_bytes(kind),
{
    reveal_strlit("panic");
    reveal_strlit("error_log");
    reveal_strlit("result_err");
    reveal_strlit("panic\0");
    reveal_strlit("error_log\0");
    reveal_strlit("result_err\0");
    assert(ended_kind(kind) == kind_text(kind).push('\0'));
    lemma_encode_push(kind_text(kind), '\0');
    assert(leading_byte_width_1(0) == 0) by (bit_vector);
    assert(encode_scalar('\0' as u32) == seq![0u8]);
    assert(encode_utf8(kind_text(kind)) + seq![0u8] == kind_bytes(kind));
}

/// The name of a kind holds no null character, and each kind's name ends in a
/// letter of its own.
proof fn lemma_kind_text(kind: ExceptionKind)
    ensures
        !kind_text(kind).contains('\0'),
        kind_text(kind).len() > 0,
        kind_text(kind).last() == match kind {
            ExceptionKind::Panic => 'c',
            ExceptionKind::ErrorLog => 'g',
            ExceptionKind::ResultErr => 'r',
        },
{
    reveal_strlit("panic");
    reveal_strlit("error_log");
    reveal_strlit("result_err");
}

/// The component and the kind of a record, as text.
spec fn source_text(r: RecordView) -> Seq<char> {
    r.component + kind_text(r.kind)
}

proof fn lemma_source_text(r: RecordView, message: Seq<char>)
    requires
        !r.component.contains('\0'),
    ensures
        !encode_utf8(source_text(r)).contains(0u8),
        signature_bytes(r, message).len() > encode_utf8(source_text(r)).len(),
        signature_bytes(r, message)[encode_utf8(source_text(r)).len() as int] == 0,
        signature_bytes(r, message).take(encode_utf8(source_text(r)).len() as int)
            == encode_utf8(source_text(r)),
{
    lemma_kind_text(r.kind);
    let text = source_text(r);
    assert(!text.contains('\0')) by {
        if text.contains('\0') {
            let i = choose|i: int| 0 <= i < text.len() && text[i] == '\0';
            if i < r.component.len() {
                assert(r.component[i] == '\0');
            } else {
                assert(kind_text(r.kind)[i - r.component.len()] == '\0');
            }
        }
    }
    lemma_encode_without_zero(text);
    lemma_encode_concat(r.component, kind_text(r.kind));
    let bytes = signature_bytes(r, message);
    let n = encode_utf8(text).len() as int;
    assert(bytes[n] == kind_bytes(r.kind).last());
    assert(bytes.take(n) == encode_utf8(text));
}

/// Records of different components or kinds digest different bytes, whatever
/// their messages are: the delimiter tells where the component and the kind
/// end. The null character, which stands for the delimiter, is left out of
/// components.
pub proof fn law_delimiter_prevents_ambiguity(
    a: RecordView,
    a_message: Seq<char>,
    b: RecordView,
    b_message: Seq<char>,
)
    requires
        !a.component.contains('\0'),
        !b.component.contains('\0'),
        signature_bytes(a, a_message) == signature_bytes(b, b_message),
    ensures
        a.component == b.component,
        a.kind == b.kind,
{
    lemma_source_text(a, a_message);
    lemma_source_text(b, b_message);
    let bytes = signature_bytes(a, a_message);
    let left = encode_utf8(source_text(a));
    let right = encode_utf8(source_text(b));
    if left.len() < right.len() {
        assert(right[left.len() as int] == bytes[left.len() as int]);
        assert(right.contains(0u8));
    }
    if right.len() < left.len() {
        assert(left[right.len() as int] == bytes[right.len() as int]);
        assert(left.contains(0u8));
    }
    assert(left == right);
    lemma_encode_is_injective(source_text(a), source_text(b));
    lemma_kind_text(a.kind);
    lemma_kind_text(b.kind);
    assert(source_text(a).last() == kind_text(a.kind).last());
    assert(source_text(b).last() == kind_text(b.kind).last());
    let n = a.component.len() as int;
    assert(source_text(a).take(n) == a.component);
    assert(source_text(b).take(n) == b.component);
}

/// The first `count` lines of a stack trace that are not blank.
pub fn top_stack_frames(stacktrace: &str, count: usize) -> (res: Vec<&str>)
    ensures
        texts_of(res@) == frames(stacktrace@, count as nat),
{
    first_lines(stacktrace, count)
}

/// The bytes that the signature of `record` digests, where `message` is its
/// normalized message.
pub fn signature_input(record: &ExceptionRecord, message: &str) -> (res: Vec<u8>)
    ensures
        res@ == signature_bytes(record@, message@),
{
    let mut out: Vec<u8> = Vec::new();
    out.extend_from_slice(record.component.as_str().as_bytes());
    out.extend_from_slice(kind_to_bytes(record.kind));
    out.extend_from_slice(message.as_bytes());
    let tops = top_stack_frames(record.stacktrace.as_str(), FRAME_COUNT);
    let ghost head = out@;
    assert(head == encode_utf8(record.component@) + kind_bytes(record.kind) + encode_utf8(message@));
    let ghost all = texts_of(tops@);
    let mut i: usize = 0;
    assert(head + utf8_of_all(all.take(0)) == head);
    while i < tops.len()
        invariant
            i <= tops@.len(),
            all == texts_of(tops@),
            out@ == head + utf8_of_all(all.take(i as int)),
        decreases tops@.len() - i,
    {
        out.extend_from_slice(tops[i].as_bytes());
        proof {
            let taken = all.take(i + 1);
            assert(taken.drop_last() == all.take(i as int));
            assert(taken.last() == tops@[i as int]@);
            assert(out@ == head + utf8_of_all(taken));
        }
        i = i + 1;
    }
    assert(all.take(tops@.len() as int) == all);
    out
}

/// The signature of a record: sixty-four lower-case hexadecimal digits.
pub fn compute_signature(record: &ExceptionRecord) -> (res: String)
    ensures
        res@ == signature_of(record@),
        res@.len() == 64,
        forall|i: int| 0 <= i < res@.len() ==> is_hex_digit(#[trigger] res@[i]),
{
    let message = normalize_message(record.message.as_str());
    let digest = sha256(&signature_input(record, message.as_str()));
    proof {
        lemma_hex_form(digest@);
    }
    hex_text(&digest)
}

/// Records of the same component, kind, normalized message and first frames
/// have the same signature.
pub proof fn law_alike_records_share_a_signature(a: RecordView, b: RecordView)
    requires
        a.component == b.component,
        a.kind == b.kind,
        normalized(a.message) == normalized(b.message),
        frames(a.stacktrace, FRAME_COUNT as nat) == frames(b.stacktrace, FRAME_COUNT as nat),
    ensures
        signature_of(a) == signature_of(b),
{
}

/// Once a stack trace has `count` frames, what follows on later lines adds none.
pub proof fn law_later_lines_add_no_frame(a: Seq<char>, b: Seq<char>, count: nat)
    requires
        frames(a, count).len() == count,
        a.len() > 0 ==> a.last() != '\r',
    ensures
        frames(a.push('\n') + b, count) == frames(a, count),
{
    lemma_lines_of_two(a, b);
    lemma_not_blank_of_two(lines(a.push('\n')), lines(b));
    lemma_final_line_feed(a);
    let head = not_blank(lines(a));
    let tail = not_blank(lines(b));
    assert(at_most(head + tail, count) == at_most(head, count));
}

/// A blank line within a stack trace changes none of its frames.
pub proof fn law_blank_lines_are_no_frames(
    a: Seq<char>,
    empty_line: Seq<char>,
    b: Seq<char>,
    count: nat,
)
    requires
        blank(empty_line),
    ensures
        frames(a.push('\n') + (empty_line.push('\n') + b), count) == frames(
            a.push('\n') + b,
            count,
        ),
{
    lemma_lines_of_two(a, empty_line.push('\n') + b);
    lemma_lines_of_two(empty_line, b);
    lemma_lines_of_two(a, b);
    let ended = empty_line.push('\n');
    lemma_ended_blank_line(empty_line);
    lemma_not_blank_of_two(lines(a.push('\n')), lines(ended) + lines(b));
    lemma_not_blank_of_two(lines(ended), lines(b));
    lemma_not_blank_of_two(lines(a.push('\n')), lines(b));
    assert(Seq::<Seq<char>>::empty() + not_blank(lines(b)) == not_blank(lines(b)));
}

/// A blank line before a stack trace changes none of its frames.
pub proof fn law_leading_blank_lines_are_no_frames(
    empty_line: Seq<char>,
    b: Seq<char>,
    count: nat,
)
    requires
        blank(empty_line),
    ensures
        frames(empty_line.push('\n') + b, count) == frames(b, count),
{
    lemma_lines_of_two(empty_line, b);
    lemma_ended_blank_line(empty_line);
    lemma_not_blank_of_two(lines(empty_line.push('\n')), lines(b));
    assert(Seq::<Seq<char>>::empty() + not_blank(lines(b)) == not_blank(lines(b)));
}

/// A blank line behind a stack trace changes none of its frames.
pub proof fn law_trailing_blank_lines_are_no_frames(
    a: Seq<char>,
    empty_line: Seq<char>,
    count: nat,
)
    requires
        blank(empty_line),
        a.len() > 0 ==> a.last() != '\r',
    ensures
        frames(a.push('\n') + empty_line, count) == frames(a, count),
{
    lemma_lines_of_two(a, empty_line);
    lemma_lines_of_blank(empty_line);
    lemma_not_blank_of_two(lines(a.push('\n')), lines(empty_line));
    lemma_final_line_feed(a);
    assert(not_blank(lines(a)) + Seq::<Seq<char>>::empty() == not_blank(lines(a)));
}

/// A blank line with its line feed holds no frame.
proof fn lemma_ended_blank_line(empty_line: Seq<char>)
    requires
        blank(empty_line),
    ensures
        not_blank(lines(empty_line.push('\n'))) == Seq::<Seq<char>>::empty(),
{
    let ended = empty_line.push('\n');
    assert(blank(ended)) by {
        assert forall|i: int| 0 <= i < ended.len() implies white_space(#[trigger] ended[i]) by {
            if i < empty_line.len() {
                assert(ended[i] == empty_line[i]);
            }
        }
    }
    lemma_lines_of_blank(ended);
}

/// The signature of a record takes in no line of the stack trace beyond the
/// first three that are not blank.
pub proof fn law_signature_ignores_later_lines(record: RecordView, more: Seq<char>)
    requires
        frames(record.stacktrace, FRAME_COUNT as nat).len() == FRAME_COUNT,
        record.stacktrace.len() > 0 ==> record.stacktrace.last() != '\r',
    ensures
        signature_of(
            RecordView { stacktrace: record.stacktrace.push('\n') + more, ..record },
        ) == signature_of(record),
{
    law_later_lines_add_no_frame(record.stacktrace, more, FRAME_COUNT as nat);
}

/// The bytes that a signature digests hold the whole normalized message behind
/// the component, the kind and the delimiter, and the first three frames behind
/// it.
pub proof fn law_signature_digests_the_whole_message(r: RecordView)
    ensures
        exists|head: Seq<u8>, tail: Seq<u8>|
            #![trigger head + encode_utf8(normalized(r.message)) + tail]
            signature_of(r) == hex(
                sha256_digest(head + encode_utf8(normalized(r.message)) + tail),
            ) && head == encode_utf8(r.component) + encode_utf8(kind_text(r.kind)) + seq![0u8]
                && tail == utf8_of_all(frames(r.stacktrace, 3)),
{
    let head = encode_utf8(r.component) + encode_utf8(kind_text(r.kind)) + seq![0u8];
    let tail = utf8_of_all(frames(r.stacktrace, 3));
    let message = encode_utf8(normalized(r.message));
    assert(head == encode_utf8(r.component) + kind_bytes(r.kind));
    assert(signature_of(r) == hex(sha256_digest(head + message + tail)));
}

/// Records of one component and kind that have no frames digest the same bytes
/// only if their normalized messages are the same, however long they are.
pub proof fn law_different_messages_digest_different_bytes(a: RecordView, b: RecordView)
    requires
        a.component == b.component,
        a.kind == b.kind,
        frames(a.stacktrace, 3).len() == 0,
        frames(b.stacktrace, 3).len() == 0,
    ensures
        exists|x: Seq<u8>, y: Seq<u8>|
            signature_of(a) == hex(#[trigger] sha256_digest(x)) && signature_of(b) == hex(
                #[trigger] sha256_digest(y),
            ) && (x == y <==> normalized(a.message) == normalized(b.message)),
{
    let x = signature_bytes(a, normalized(a.message));
    let y = signature_bytes(b, normalized(b.message));
    let head = encode_utf8(a.component) + kind_bytes(a.kind);
    assert(x == head + encode_utf8(normalized(a.message)));
    assert(y == head + encode_utf8(normalized(b.message)));
    if x == y {
        let n = head.len() as int;
        assert(x.skip(n) == encode_utf8(normalized(a.message)));
        assert(y.skip(n) == encode_utf8(normalized(b.message)));
        lemma_encode_is_injective(normalized(a.message), normalized(b.message));
    }
    assert(signature_of(a) == hex(sha256_digest(x)));
    assert(signature_of(b) == hex(sha256_digest(y)));
}

/// Records of one component, kind and normalized message that have one frame
/// each digest the same bytes only if that frame is the same.
pub proof fn law_different_frames_digest_different_bytes(
    a: RecordView,
    b: RecordView,
    a_frame: Seq<char>,
    b_frame: Seq<char>,
)
    requires
        a.component == b.component,
        a.kind == b.kind,
        normalized(a.message) == normalized(b.message),
        frames(a.stacktrace, 3) == seq![a_frame],
        frames(b.stacktrace, 3) == seq![b_frame],
    ensures
        exists|x: Seq<u8>, y: Seq<u8>|
            signature_of(a) == hex(#[trigger] sha256_digest(x)) && signature_of(b) == hex(
                #[trigger] sha256_digest(y),
            ) && (x == y <==> a_frame == b_frame),
{
    law_frames_are_digested_in_order(seq![], a_frame);
    law_frames_are_digested_in_order(seq![], b_frame);
    let x = signature_bytes(a, normalized(a.message));
    let y = signature_bytes(b, normalized(b.message));
    let head = encode_utf8(a.component) + kind_bytes(a.kind) + encode_utf8(normalized(a.message));
    assert(seq![].push(a_frame) == seq![a_frame]);
    assert(seq![].push(b_frame) == seq![b_frame]);
    assert(x == head + encode_utf8(a_frame));
    assert(y == head + encode_utf8(b_frame));
    if x == y {
        let n = head.len() as int;
        assert(x.skip(n) == encode_utf8(a_frame));
        assert(y.skip(n) == encode_utf8(b_frame));
        lemma_encode_is_injective(a_frame, b_frame);
    }
    assert(signature_of(a) == hex(sha256_digest(x)));
    assert(signature_of(b) == hex(sha256_digest(y)));
}

/// No frames are no bytes, and a frame more adds its bytes, all of them, behind
/// those of the frames before it.
pub proof fn law_frames_are_digested_in_order(parts: Seq<Seq<char>>, frame: Seq<char>)
    ensures
        utf8_of_all(seq![]) == Seq::<u8>::empty(),
        utf8_of_all(parts.push(frame)) == utf8_of_all(parts) + encode_utf8(frame),
{
    assert(parts.push(frame).drop_last() == parts);
}

/// A line that is not blank is a frame, as it stands, in front of those of the
/// lines behind it.
pub proof fn law_each_line_is_a_frame(line: Seq<char>, rest: Seq<char>, count: nat)
    requires
        !line.contains('\n'),
        line.len() > 0 ==> line.last() != '\r',
        exists|i: int| 0 <= i < line.len() && !white_space(#[trigger] line[i]),
        count > 0,
    ensures
        frames(line.push('\n') + rest, count) == seq![line] + frames(rest, (count - 1) as nat),
        frames(line, count) == seq![line],
{
    law_lines_are_kept_whole(line);
    lemma_lines_of_two(line, rest);
    lemma_not_blank_of_two(lines(line.push('\n')), lines(rest));
    assert(at_most(seq![line] + not_blank(lines(rest)), count) == seq![line] + at_most(
        not_blank(lines(rest)),
        (count - 1) as nat,
    ));
    assert(at_most(seq![line], count) == seq![line]);
}

} // verus!
