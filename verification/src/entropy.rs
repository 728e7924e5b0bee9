//! The source of random bytes for the random-and-mask instruction.

use rand::Rng;
use vstd::prelude::*;

verus! {

/// Draws one byte from `rand::thread_rng()` with `Rng::gen`. Nothing is
/// claimed of the byte: it differs from call to call. The generator is
/// seeded by the operating system when a thread first uses it, and panics
/// only if the system gives it no seed.
#[verifier::external_body]
pub(crate) fn random_byte() -> (byte: u8) {
    rand::thread_rng().gen::<u8>()
}

} // verus!
