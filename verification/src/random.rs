//! The source of random bits that seeds a new board.

use vstd::prelude::*;

verus! {

/// One call of `rand::random::<bool>()`: a bit drawn from the thread's random
/// number generator, `true` and `false` equally likely. Nothing is claimed of
/// the bit, and two calls may differ.
#[verifier::external_body]
pub(crate) fn random_bit() -> (bit: bool) {
    rand::random::<bool>()
}

} // verus!
