//! The source of the random byte that `Cxnn` draws.

use vstd::prelude::*;

verus! {

/// A byte from `rand::random::<u8>()`, the thread-local generator of the
/// `rand` crate.
///
/// Trusted, not proved. Nothing is claimed of the byte: two calls may differ.
/// The call takes no input, and it panics only where the operating system's
/// source of entropy fails: when the generator seeds itself at its first use
/// in a thread, or when it seeds itself anew later on. No condition on the
/// caller rules either out.
#[verifier::external_body]
pub(crate) fn random_byte() -> (byte: u8) {
    rand::random::<u8>()
}

} // verus!
