//! What UTF-8 makes of texts that stand one after the other.

use vstd::prelude::*;
use vstd::utf8::*;

verus! {

/// The bytes of two texts, one after the other, are the bytes of each.
pub proof fn lemma_encode_concat(a: Seq<char>, b: Seq<char>)
    ensures
        encode_utf8(a + b) == encode_utf8(a) + encode_utf8(b),
    decreases a.len(),
{
    if a.len() == 0 {
        assert(a + b == b);
        assert(encode_utf8(a) + encode_utf8(b) == encode_utf8(b));
    } else {
        lemma_encode_concat(a.drop_first(), b);
        assert((a + b).drop_first() == a.drop_first() + b);
        assert((a + b)[0] == a[0]);
        let head = encode_scalar(a[0] as u32);
        assert(head + (encode_utf8(a.drop_first()) + encode_utf8(b)) == (head + encode_utf8(
            a.drop_first(),
        )) + encode_utf8(b));
    }
}

/// One more character adds its bytes.
pub proof fn lemma_encode_push(a: Seq<char>, c: char)
    ensures
        encode_utf8(a.push(c)) == encode_utf8(a) + encode_scalar(c as u32),
{
    let one = seq![c];
    assert(a.push(c) == a + one);
    lemma_encode_concat(a, one);
    assert(one.drop_first() == Seq::<char>::empty());
    assert(encode_utf8(Seq::<char>::empty()) == Seq::<u8>::empty());
    assert(encode_utf8(one) == encode_scalar(c as u32) + Seq::<u8>::empty());
    assert(encode_utf8(one) == encode_scalar(c as u32));
}

/// The start of a text has no more bytes than the text.
pub proof fn lemma_start_has_no_more_bytes(s: Seq<char>, n: int)
    requires
        0 <= n <= s.len(),
    ensures
        encode_utf8(s.take(n)).len() <= encode_utf8(s).len(),
{
    assert(s == s.take(n) + s.skip(n));
    lemma_encode_concat(s.take(n), s.skip(n));
}

/// How many bytes a character takes.
pub fn width(c: char) -> (res: usize)
    ensures
        res == encode_scalar(c as u32).len(),
        1 <= res <= 4,
{
    if c <= '\u{7f}' {
        1
    } else if c <= '\u{7ff}' {
        2
    } else if c <= '\u{ffff}' {
        3
    } else {
        4
    }
}

/// No byte of a character other than the null character is zero.
proof fn lemma_scalar_without_zero(c: u32)
    requires
        c > 0,
        is_scalar(c),
    ensures
        forall|i: int| 0 <= i < encode_scalar(c).len() ==> #[trigger] encode_scalar(c)[i] != 0,
{
    if has_width_1_encoding(c) {
        assert(leading_byte_width_1(c) != 0) by (bit_vector)
            requires
                c > 0,
                has_width_1_encoding(c),
        ;
    } else {
        assert(leading_byte_width_2(c) != 0) by (bit_vector);
        assert(leading_byte_width_3(c) != 0) by (bit_vector);
        assert(leading_byte_width_4(c) != 0) by (bit_vector);
        assert(last_continuation_byte(c) != 0) by (bit_vector);
        assert(second_last_continuation_byte(c) != 0) by (bit_vector);
        assert(third_last_continuation_byte(c) != 0) by (bit_vector);
    }
}

/// A text without the null character has no byte that is zero.
pub proof fn lemma_encode_without_zero(s: Seq<char>)
    requires
        !s.contains('\0'),
    ensures
        !encode_utf8(s).contains(0u8),
    decreases s.len(),
{
    if s.len() > 0 {
        let rest = s.drop_first();
        assert(!rest.contains('\0')) by {
            if rest.contains('\0') {
                let i = choose|i: int| 0 <= i < rest.len() && rest[i] == '\0';
                assert(s[i + 1] == '\0');
            }
        }
        lemma_encode_without_zero(rest);
        let c = s[0];
        assert(s.contains(c));
        char_is_scalar(c);
        assert(c as u32 > 0) by {
            if c as u32 == 0 {
                char_u32_cast(c, 0);
                char_u32_cast('\0', 0);
            }
        }
        lemma_scalar_without_zero(s[0] as u32);
        let head = encode_scalar(s[0] as u32);
        if encode_utf8(s).contains(0u8) {
            let i = choose|i: int| 0 <= i < encode_utf8(s).len() && encode_utf8(s)[i] == 0u8;
            if i < head.len() {
                assert(head[i] == 0u8);
            } else {
                assert(encode_utf8(rest)[i - head.len()] == 0u8);
            }
        }
    }
}

/// Texts of the same bytes are the same.
pub proof fn lemma_encode_is_injective(a: Seq<char>, b: Seq<char>)
    requires
        encode_utf8(a) == encode_utf8(b),
    ensures
        a == b,
{
    encode_utf8_decode_utf8(a);
    encode_utf8_decode_utf8(b);
}

} // verus!
