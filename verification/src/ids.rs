//! Fresh identifiers for connections, transfers and notifications.

use vstd::prelude::*;

verus! {

/// Calls `uuid::Uuid::new_v4` and returns the UUID's 128-bit value. The value
/// is random; the source sets the version bits, so it is never zero, and that
/// is all the contract says.
#[verifier::external_body]
pub(crate) fn new_id() -> (r: u128)
    ensures
        r != 0,
{
    uuid::Uuid::new_v4().as_u128()
}

} // verus!
