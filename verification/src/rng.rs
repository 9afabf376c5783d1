//! The source of random bytes.

use rand::Rng;
use vstd::prelude::*;

verus! {

/// A byte from `rand::thread_rng()`, the generator that each thread seeds
/// from the operating system, drawn by `Rng::gen_range` over the whole
/// range 0 to 255. The range is never empty, so `gen_range` does not panic.
/// Nothing is claimed of the value: two calls may differ, and every byte
/// can come out.
#[verifier::external_body]
pub(crate) fn random_byte() -> u8 {
    rand::thread_rng().gen_range(0..=255)
}

} // verus!
