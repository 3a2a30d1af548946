//! Random numbers.
use vstd::prelude::*;

verus! {

/// Calls `rand::random`, which draws from the generator of the running thread. Any
/// number may come.
#[verifier::external_body]
pub(crate) fn random_u64() -> (n: u64) {
    rand::random::<u64>()
}

} // verus!
