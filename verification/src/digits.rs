//! Numbers and bytes as digits.

use vstd::prelude::*;
use vstd::string::*;

verus! {

/// The digits of the bases up to sixteen.
pub const DIGITS: &'static str = "0123456789abcdef";

/// The digit of value `d`.
pub open spec fn digit(d: int) -> char {
    DIGITS@[d]
}

/// The digit of value `d`, as text.
fn digit_text(d: usize) -> (res: &'static str)
    requires
        d < 16,
    ensures
        res@ == seq![digit(d as int)],
{
    proof {
        reveal_strlit("0123456789abcdef");
        assert(DIGITS@.subrange(d as int, d + 1) == seq![digit(d as int)]);
    }
    DIGITS.substring_char(d, d + 1)
}

/// `n` in decimal, without leading zeros.
pub open spec fn decimal(n: nat) -> Seq<char>
    decreases n,
{
    if n < 10 {
        seq![digit(n as int)]
    } else {
        decimal(n / 10) + seq![digit((n % 10) as int)]
    }
}

/// Writes `n` in decimal.
pub fn decimal_text(n: u64) -> (res: String)
    ensures
        res@ == decimal(n as nat),
    decreases n,
{
    if n < 10 {
        String::from_str(digit_text(n as usize))
    } else {
        let mut out = decimal_text(n / 10);
        out.append(digit_text((n % 10) as usize));
        out
    }
}

/// The two lower-case hexadecimal digits of a byte.
pub open spec fn hex_byte(b: u8) -> Seq<char> {
    seq![digit(b as int / 16), digit(b as int % 16)]
}

/// `bytes` in lower-case hexadecimal, two digits for each byte.
pub open spec fn hex(bytes: Seq<u8>) -> Seq<char>
    decreases bytes.len(),
{
    if bytes.len() == 0 {
        seq![]
    } else {
        hex(bytes.drop_last()) + hex_byte(bytes.last())
    }
}

/// Writes `bytes` in lower-case hexadecimal.
pub fn hex_text(bytes: &Vec<u8>) -> (res: String)
    ensures
        res@ == hex(bytes@),
{
    let mut out = String::new();
    let mut i: usize = 0;
    while i < bytes.len()
        invariant
            i <= bytes@.len(),
            out@ == hex(bytes@.take(i as int)),
        decreases bytes@.len() - i,
    {
        let b: u8 = bytes[i];
        let ghost before = out@;
        out.append(digit_text((b / 16) as usize));
        out.append(digit_text((b % 16) as usize));
        proof {
            assert(bytes@.take(i + 1).drop_last() == bytes@.take(i as int));
            assert(out@ == before + hex_byte(b));
        }
        i = i + 1;
    }
    assert(bytes@.take(bytes@.len() as int) == bytes@);
    out
}

/// Whether `c` is a lower-case hexadecimal digit.
pub open spec fn is_hex_digit(c: char) -> bool {
    '0' <= c <= '9' || 'a' <= c <= 'f'
}

/// A hexadecimal text has two digits for each byte, and nothing but
/// lower-case hexadecimal digits.
pub proof fn lemma_hex_form(bytes: Seq<u8>)
    ensures
        hex(bytes).len() == 2 * bytes.len(),
        forall|i: int| 0 <= i < hex(bytes).len() ==> is_hex_digit(#[trigger] hex(bytes)[i]),
    decreases bytes.len(),
{
    reveal_strlit("0123456789abcdef");
    assert forall|d: int| 0 <= d < 16 implies is_hex_digit(#[trigger] digit(d)) by {
        assert(d == 0 || d == 1 || d == 2 || d == 3 || d == 4 || d == 5 || d == 6 || d == 7 || d == 8
            || d == 9 || d == 10 || d == 11 || d == 12 || d == 13 || d == 14 || d == 15);
    }
    if bytes.len() > 0 {
        lemma_hex_form(bytes.drop_last());
    }
}

} // verus!
