//! Identifiers as plain values.

use vstd::prelude::*;

use crate::crypto;

verus! {

/// The sixteen bytes of an identifier, most significant first.
pub open spec fn id_bytes(id: u128) -> Seq<u8> {
    Seq::new(
        16,
        |i: int| ((id as nat / vstd::arithmetic::power::pow(256, (15 - i) as nat) as nat) % 256) as u8,
    )
}

/// How an identifier is written: its bytes in lower-case hexadecimal, in groups of eight, four,
/// four, four and twelve digits separated by hyphens.
pub open spec fn id_text(id: u128) -> Seq<char> {
    let digits = crypto::hex_text(id_bytes(id));
    digits.subrange(0, 8) + seq!['-'] + digits.subrange(8, 12) + seq!['-'] + digits.subrange(12, 16)
        + seq!['-'] + digits.subrange(16, 20) + seq!['-'] + digits.subrange(20, 32)
}

/// Calls `Uuid::from_u128` and its `Display`, which writes the hyphenated lower-case form.
#[verifier::external_body]
pub(crate) fn id_string(id: u128) -> (s: String)
    ensures
        s@ == id_text(id),
{
    uuid::Uuid::from_u128(id).to_string()
}

} // verus!
