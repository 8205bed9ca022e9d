//! Identifiers. An identifier is the 128-bit value of a UUID.

use vstd::prelude::*;

verus! {

/// The identifier of a user, notebook, block, team, role or session.
pub type Id = u128;

/// The version field of an identifier: bits 76 to 79.
pub open spec fn version_of(id: u128) -> u128 {
    (id / 0x1000_0000_0000_0000_0000) % 16
}

/// The variant field of an identifier: bits 62 and 63.
pub open spec fn variant_of(id: u128) -> u128 {
    (id / 0x4000_0000_0000_0000) % 4
}

/// Draws a random identifier with `uuid::Uuid::new_v4` and hands out its
/// value with `Uuid::as_u128`. Its version field is 4 and its variant field
/// is 2; the other bits are random, so nothing is claimed of them.
#[verifier::external_body]
pub(crate) fn fresh_id() -> (id: u128)
    ensures
        version_of(id) == 4,
        variant_of(id) == 2,
{
    uuid::Uuid::new_v4().as_u128()
}

} // verus!
