//! Password hashes.

use vstd::prelude::*;

verus! {

/// Whether `hash` is a bcrypt hash of `password`, as `pwhash::bcrypt::verify`
/// decides it.
pub uninterp spec fn bcrypt_accepts(password: Seq<char>, hash: Seq<char>) -> bool;

/// Calls `pwhash::bcrypt::verify`, which hashes `password` with the salt,
/// cost and variant that `hash` names and compares the two texts. The answer
/// depends on the two texts alone and is named [`bcrypt_accepts`].
#[verifier::external_body]
pub(crate) fn bcrypt_verify(password: &str, hash: &str) -> (b: bool)
    ensures
        b == bcrypt_accepts(password@, hash@),
{
    pwhash::bcrypt::verify(password, hash)
}

/// Calls `pwhash::bcrypt::hash`, which hashes `password` with a random
/// salt. Which hash comes back is left open; where one does, it is a hash of
/// `password`.
#[verifier::external_body]
pub(crate) fn bcrypt_hash(password: &str) -> (r: Option<String>)
    ensures
        r matches Some(h) ==> bcrypt_accepts(password@, h@),
{
    pwhash::bcrypt::hash(password).ok()
}

} // verus!
