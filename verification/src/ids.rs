//! Identifiers. Entities and solutions are told apart by a `Uuid`; the
//! engine reads such an identifier as the 128-bit number it stands for.

use uuid::Uuid;
use vstd::prelude::*;

verus! {

#[verifier::external_type_specification]
#[verifier::external_body]
pub struct ExUuid(Uuid);

/// The 128-bit number that `Uuid::as_u128` reads out of an identifier:
/// its sixteen bytes, most significant first.
pub uninterp spec fn uuid_bits(id: Uuid) -> u128;

/// Calls `Uuid::as_u128`. That function only reads the identifier's
/// sixteen bytes as one big-endian number, so its result is a function of
/// the identifier alone, named [`uuid_bits`].
#[verifier::external_body]
pub(crate) fn uuid_to_bits(id: &Uuid) -> (bits: u128)
    ensures
        bits == uuid_bits(*id),
{
    id.as_u128()
}

} // verus!
