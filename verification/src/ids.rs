//! Fresh identifiers for new records.

use vstd::prelude::*;

verus! {

/// Relies on uuid's `Uuid::new_v4` for a random identifier.  Nothing is
/// promised of the value: two calls may or may not collide, and every
/// caller's contract holds for any value that comes back.
#[verifier::external_body]
pub(crate) fn fresh_id() -> u64 {
    uuid::Uuid::new_v4().as_u64_pair().0
}

} // verus!
