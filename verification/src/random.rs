//! The source of random bytes.

use vstd::prelude::*;
use rand::Rng;

verus! {

/// Draws one byte from the thread's generator with `rand::rng` and
/// `Rng::random::<u8>`. Any byte may come back, so nothing is promised of it.
#[verifier::external_body]
pub(crate) fn random_byte() -> (byte: u8) {
    let mut rng = rand::rng();
    rng.random::<u8>()
}

} // verus!
