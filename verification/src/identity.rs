//! Connection identities: 128-bit tokens drawn at random.

use uuid::Uuid;
use vstd::prelude::*;

verus! {

/// `Uuid::new_v4`, read as a number by `Uuid::as_u128`: a fresh random
/// identity. Nothing is claimed of the number, not even that it differs from
/// the one before. The call does not return on a machine that has no random
/// bytes to give, as no call returns on a machine that has no memory left.
#[verifier::external_body]
pub(crate) fn mint_identity() -> u128 {
    Uuid::new_v4().as_u128()
}

} // verus!
