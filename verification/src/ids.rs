//! Identifiers. Entities are identified by the 128-bit value of a UUID.

use vstd::prelude::*;

verus! {

/// A new time-ordered identifier: the value of `uuid::Uuid::now_v7()`.
/// Nothing is stated of it: it depends on the clock and on chance.
#[verifier::external_body]
pub(crate) fn fresh_id() -> u128 {
    uuid::Uuid::now_v7().as_u128()
}

/// The lower-case hexadecimal digit for `d` (below 16).
pub open spec fn hex_char(d: nat) -> char {
    if d < 10 {
        (('0' as nat) + d) as char
    } else {
        (('a' as nat) + d - 10) as char
    }
}

/// The last `n` hexadecimal digits of `v`, most significant first.
pub open spec fn hex_digits(v: nat, n: nat) -> Seq<char>
    decreases n,
{
    if n == 0 {
        Seq::empty()
    } else {
        hex_digits(v / 16, (n - 1) as nat).push(hex_char(v % 16))
    }
}

/// The hyphenated text of the UUID whose value is `id`: its 32 hexadecimal
/// digits in groups of 8, 4, 4, 4 and 12, e.g.
/// `67e55044-10b1-426f-9247-bb680e5fe0c8`.
pub open spec fn uuid_text(id: u128) -> Seq<char> {
    let d = hex_digits(id as nat, 32);
    d.subrange(0, 8) + seq!['-'] + d.subrange(8, 12) + seq!['-'] + d.subrange(12, 16) + seq!['-']
        + d.subrange(16, 20) + seq!['-'] + d.subrange(20, 32)
}

/// The hyphenated text of a UUID (`Uuid::from_u128` then `hyphenated`),
/// which is also what the UUID's `Debug` and `Display` print: the uuid
/// crate writes the 16 big-endian bytes as lower-case hex digits with
/// hyphens after the 8th, 12th, 16th and 20th digit.
#[verifier::external_body]
pub(crate) fn uuid_string(id: u128) -> (r: String)
    ensures
        r@ == uuid_text(id),
{
    uuid::Uuid::from_u128(id).hyphenated().to_string()
}

} // verus!
