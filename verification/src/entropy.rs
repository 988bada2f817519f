//! Random packet identifiers, drawn from the `rand` crate's thread-local generator.
use vstd::prelude::*;
use rand::Rng;
use rand::rngs::ThreadRng;

verus! {

#[verifier::external_type_specification]
#[verifier::external_body]
pub struct ExThreadRng(ThreadRng);

/// Calls `rand::thread_rng`, which hands out the calling thread's generator.
/// Nothing is claimed of the generator's state.
#[verifier::external_body]
fn thread_rng() -> ThreadRng {
    rand::thread_rng()
}

/// Calls `Rng::gen_range` with the inclusive range `low..=high`; the result
/// lies in that range (the crate panics only on an empty range, which
/// `requires` leaves out). Which value comes out is left to chance.
#[verifier::external_body]
fn gen_range_inclusive(rng: &mut ThreadRng, low: u64, high: u64) -> (r: u64)
    requires
        low <= high,
    ensures
        low <= r <= high,
{
    rng.gen_range(low..=high)
}

/// A fresh random packet identifier; identifiers are never zero.
pub(crate) fn fresh_uid() -> (uid: u64)
    ensures
        1 <= uid,
{
    let mut rng = thread_rng();
    gen_range_inclusive(&mut rng, 1, 0xFFFF_FFFF_FFFF_FFFF)
}

} // verus!
