//! Fresh identifiers.

use vstd::prelude::*;

verus! {

/// Draws a random identifier with `uuid::Uuid::new_v4` and reads it as a
/// 128-bit number with `Uuid::as_u128`.
///
/// Nothing is claimed of the value: two draws may give anything.
#[verifier::external_body]
pub(crate) fn fresh_id() -> (id: u128) {
    uuid::Uuid::new_v4().as_u128()
}

} // verus!
