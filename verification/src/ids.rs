//! Fresh identifiers for files, queue entries and song requests.
use uuid::Uuid;
use vstd::prelude::*;

verus! {

/// `Uuid::new_v4`, read as its 128-bit value (`Uuid::as_u128`). The value
/// is random, so no clause describes it.
#[verifier::external_body]
pub(crate) fn new_random_id() -> u128 {
    Uuid::new_v4().as_u128()
}

} // verus!
