//! Random identifiers.

use crate::digits::digit;
use vstd::prelude::*;

verus! {

/// Whether `id` has the version and the variant of a random UUID.
pub open spec fn is_random_uuid(id: u128) -> bool {
    &&& (id as nat / 0x1000_0000_0000_0000_0000) % 16 == 4
    &&& (id as nat / 0x4000_0000_0000_0000) % 4 == 2
}

/// Calls `uuid::Uuid::new_v4`. Of the random number only the fixed bits are
/// claimed: the version, which is four, and the variant.
#[verifier::external_body]
pub(crate) fn new_v4() -> (res: u128)
    ensures
        is_random_uuid(res),
{
    uuid::Uuid::new_v4().as_u128()
}

/// The last `width` hexadecimal digits of `n`, in lower case.
pub open spec fn hex_digits(n: nat, width: nat) -> Seq<char>
    decreases width,
{
    if width == 0 {
        seq![]
    } else {
        hex_digits(n / 16, (width - 1) as nat).push(digit((n % 16) as int))
    }
}

/// The hyphenated form of a UUID: its thirty-two hexadecimal digits in lower
/// case, in groups of eight, four, four, four and twelve.
pub open spec fn hyphenated(id: u128) -> Seq<char> {
    let digits = hex_digits(id as nat, 32);
    digits.subrange(0, 8) + seq!['-'] + digits.subrange(8, 12) + seq!['-'] + digits.subrange(12, 16)
        + seq!['-'] + digits.subrange(16, 20) + seq!['-'] + digits.subrange(20, 32)
}

/// Calls `to_string` on a `uuid::Uuid`, which writes its hyphenated form.
#[verifier::external_body]
pub(crate) fn uuid_text(id: u128) -> (res: String)
    ensures
        res@ == hyphenated(id),
{
    uuid::Uuid::from_u128(id).to_string()
}

} // verus!
