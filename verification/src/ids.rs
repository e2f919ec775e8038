//! Universally unique identifiers.

use vstd::prelude::*;

verus! {

/// A universally unique identifier, as the 128-bit number of its bytes in
/// big-endian order.
#[derive(Debug, Clone, Copy, PartialEq, Eq, Structural)]
pub struct Uuid {
    /// The number.
    pub value: u128,
}

/// The version that the number of a UUID carries.
pub open spec fn uuid_version(value: u128) -> u128 {
    (value >> 76) & 0xf
}

/// Whether the number of a UUID carries the variant of the common standard,
/// the two bits `10`.
pub open spec fn has_standard_variant(value: u128) -> bool {
    (value >> 62) & 0x3 == 2
}

/// The character of the lower-case hexadecimal digit `d`.
pub open spec fn hex_char(d: int) -> char {
    if d < 10 {
        (d + 48) as char
    } else {
        (d + 87) as char
    }
}

/// The lower-case hexadecimal numeral of `n` with exactly `width` digits.
pub open spec fn hex_text(n: nat, width: nat) -> Seq<char>
    decreases width,
{
    if width == 0 {
        seq![]
    } else {
        hex_text(n / 16, (width - 1) as nat).push(hex_char((n % 16) as int))
    }
}

/// The text of a UUID: its 32 hexadecimal digits in lower case, in groups of
/// 8, 4, 4, 4 and 12 with a hyphen between two groups.
pub open spec fn uuid_text(value: u128) -> Seq<char> {
    let hex = hex_text(value as nat, 32);
    hex.subrange(0, 8) + seq!['-'] + hex.subrange(8, 12) + seq!['-'] + hex.subrange(12, 16) + seq![
        '-',
    ] + hex.subrange(16, 20) + seq!['-'] + hex.subrange(20, 32)
}

/// The number of a fresh random UUID, from `uuid::Uuid::new_v4`.
///
/// Taken on trust of it: the number carries version 4 and the standard
/// variant. Nothing is said of the other bits, which are random. The call
/// panics if the operating system has no random bytes to give.
#[verifier::external_body]
pub(crate) fn new_v4() -> (r: u128)
    ensures
        uuid_version(r) == 4,
        has_standard_variant(r),
{
    uuid::Uuid::new_v4().as_u128()
}

/// The number of a fresh UUID ordered by time, from `uuid::Uuid::now_v7`.
///
/// Taken on trust of it: the number carries version 7 and the standard
/// variant. Nothing is said of the other bits, which hold the time and random
/// bits. The call panics if the system clock stands before 1970 or the
/// operating system has no random bytes to give.
#[verifier::external_body]
pub(crate) fn now_v7() -> (r: u128)
    ensures
        uuid_version(r) == 7,
        has_standard_variant(r),
{
    uuid::Uuid::now_v7().as_u128()
}

/// The text of the UUID with the given number, from the `Display`
/// implementation of `uuid::Uuid`.
///
/// Taken on trust of it: the text is the hyphenated lower-case form that
/// [`uuid_text`] describes.
#[verifier::external_body]
pub(crate) fn display(value: u128) -> (r: String)
    ensures
        r@ == uuid_text(value),
{
    uuid::Uuid::from_u128(value).to_string()
}

} // verus!
