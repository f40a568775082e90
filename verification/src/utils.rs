//! Randomness drawn from the operating system through the `rand` crate.
use vstd::prelude::*;

verus! {

/// Draws one uniformly random byte by calling `rand::random::<u8>()`.
///
/// Nothing is claimed of the value: any byte may come back. `rand::random`
/// uses the thread-local generator, which panics if the operating system
/// cannot supply a seed; that failure is not ruled out here.
#[verifier::external_body]
pub(crate) fn random_byte() -> u8 {
    rand::random::<u8>()
}

/// Fills a 32-byte array by calling `rand::fill`.
///
/// Nothing is claimed of the bytes: any 32 bytes may come back. As with
/// [`random_byte`], the thread-local generator panics if the operating
/// system cannot supply a seed.
#[verifier::external_body]
pub(crate) fn random_32_bytes() -> [u8; 32] {
    let mut bytes = [0u8; 32];
    rand::fill(&mut bytes);
    bytes
}

} // verus!
