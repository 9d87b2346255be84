//! Random initial liveness.

use vstd::prelude::*;

verus! {

/// Calls `rand::random::<bool>()`, which draws one value from the generator of
/// the calling thread. The draw is a matter of chance, so nothing is claimed
/// of the value that comes back.
#[verifier::external_body]
fn coin() -> (alive: bool) {
    rand::random::<bool>()
}

/// `count` liveness values, each drawn on its own.
pub fn random_liveness(count: usize) -> (liveness: Vec<bool>)
    ensures
        liveness@.len() == count,
{
    let mut liveness: Vec<bool> = Vec::new();
    let mut k: usize = 0;
    while k < count
        invariant
            k <= count,
            liveness@.len() == k,
        decreases count - k,
    {
        liveness.push(coin());
        k += 1;
    }
    liveness
}

} // verus!
