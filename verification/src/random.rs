//! The random source that places food: trusted declarations over `rand`.
use rand::rngs::ThreadRng;
use rand::Rng;
use vstd::prelude::*;

verus! {

/// `rand::rngs::ThreadRng`, the thread-local generator; Verus sees nothing inside it.
#[verifier::external_type_specification]
#[verifier::external_body]
pub struct ExThreadRng(ThreadRng);

/// Calls `rand::thread_rng`, which hands out the thread's generator, seeded by
/// the system. Nothing is claimed of it. (`rand` panics here if the system
/// cannot give it a seed.)
#[verifier::external_body]
pub(crate) fn thread_rng() -> ThreadRng {
    rand::thread_rng()
}

/// Calls `Rng::gen_range` with the half-open range `low..high`. Claimed: the
/// value lies in that range, as the method's documentation says; which value
/// comes back is left to chance and is not claimed. The range must not be
/// empty: `gen_range` panics on an empty one.
#[verifier::external_body]
pub(crate) fn gen_range(rng: &mut ThreadRng, low: i32, high: i32) -> (r: i32)
    requires
        low < high,
    ensures
        low <= r < high,
{
    rng.gen_range(low..high)
}

} // verus!
