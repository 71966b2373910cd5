//! The source of chance for a fresh grid: the thread-local generator of the
//! `rand` crate. Nothing here is proved; the contracts say what is taken on
//! trust, which is nothing at all about the values drawn.

use vstd::prelude::*;
use rand::Rng;

verus! {

/// `rand::rngs::ThreadRng`, carried through as an opaque value.
#[verifier::external_type_specification]
#[verifier::external_body]
pub struct ExThreadRng(rand::rngs::ThreadRng);

/// Calls `rand::thread_rng`, which hands out the calling thread's generator,
/// seeded by the system. No claim is made about the generator. The call
/// panics where the system has no entropy to seed it with, which no
/// precondition can rule out.
#[verifier::external_body]
pub(crate) fn thread_rng() -> rand::rngs::ThreadRng {
    rand::thread_rng()
}

/// Calls `rand::Rng::gen` for a `bool`, which draws the next value from the
/// generator. Either value may come back, so the contract promises neither.
/// The generator reseeds itself from the system now and then, and panics
/// where that fails.
#[verifier::external_body]
pub(crate) fn next_bool(rng: &mut rand::rngs::ThreadRng) -> bool {
    rng.gen()
}

} // verus!
