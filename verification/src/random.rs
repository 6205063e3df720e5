//! The source of the bytes that `Cxnn` draws.

use vstd::prelude::*;

verus! {

/// One byte from the thread-local generator of the `rand` crate, by
/// `rand::random::<u8>()`. The contract claims nothing of the value: it may
/// be any byte, and two calls may differ. `rand` seeds the generator from the
/// operating system, and panics if that gives no entropy.
#[verifier::external_body]
pub(crate) fn random_byte() -> (byte: u8) {
    rand::random::<u8>()
}

} // verus!
