//! Fresh identifiers.
use vstd::prelude::*;

verus! {

/// The version and variant bits that every random (version 4) UUID carries:
/// version nibble 4 and RFC 4122 variant bits `10`.
pub open spec fn is_v4_uuid(id: u128) -> bool {
    id & 0x0000_0000_0000_f000_c000_0000_0000_0000u128 == 0x0000_0000_0000_4000_8000_0000_0000_0000u128
}

/// Calls `uuid::Uuid::new_v4` and returns the UUID as its 128-bit value.
/// The value is random; what `new_v4` guarantees (it masks the random bits and
/// sets version 4 and the RFC 4122 variant) is all that is claimed of it.
#[verifier::external_body]
pub(crate) fn new_uuid() -> (id: u128)
    ensures
        is_v4_uuid(id),
{
    uuid::Uuid::new_v4().as_u128()
}

/// The lower-case hexadecimal digit of `d` (0 to 15).
pub open spec fn hex_lower(d: int) -> char {
    if 0 <= d < 10 {
        ('0' as int + d) as char
    } else {
        ('a' as int + (d - 10)) as char
    }
}

/// The `k`-th hexadecimal digit of `id`, counted from the most significant.
pub open spec fn uuid_nibble(id: u128, k: int) -> int {
    (id as int / vstd::arithmetic::power2::pow2((4 * (31 - k)) as nat) as int) % 16
}

/// The simple form of a UUID: its 32 hexadecimal digits, lower case, most
/// significant first.
pub open spec fn simple_text(id: u128) -> Seq<char> {
    Seq::new(32, |i: int| hex_lower(uuid_nibble(id, i)))
}

/// The hyphenated form of a UUID: its digits in groups of 8, 4, 4, 4 and 12
/// separated by `-`, lower case.
pub open spec fn hyphenated_text(id: u128) -> Seq<char> {
    Seq::new(
        36,
        |i: int|
            if i == 8 || i == 13 || i == 18 || i == 23 {
                '-'
            } else {
                let k = if i > 23 {
                    i - 4
                } else if i > 18 {
                    i - 3
                } else if i > 13 {
                    i - 2
                } else if i > 8 {
                    i - 1
                } else {
                    i
                };
                hex_lower(uuid_nibble(id, k))
            },
    )
}

/// Formats `id` with `uuid::Uuid::simple`: 32 lower-case hexadecimal
/// digits, most significant first.
#[verifier::external_body]
pub(crate) fn uuid_simple_string(id: u128) -> (r: String)
    ensures
        r@ == simple_text(id),
{
    uuid::Uuid::from_u128(id).simple().to_string()
}

/// Formats `id` with `uuid::Uuid`'s `Display`: the hyphenated form, lower
/// case.
#[verifier::external_body]
pub(crate) fn uuid_string(id: u128) -> (r: String)
    ensures
        r@ == hyphenated_text(id),
{
    uuid::Uuid::from_u128(id).to_string()
}

} // verus!
