//! Source of randomness for all stochastic sampling.
//!
//! Every random decision in the library flows through [`RngHandle::below`],
//! so each caller's contract states what holds of every possible outcome.

use vstd::prelude::*;

verus! {

/// rand's thread-local generator, declared so it can live in a field.
#[verifier::external_type_specification]
#[verifier::external_body]
pub struct ExThreadRng(rand::rngs::ThreadRng);

/// A handle to a thread-local random-number generator.  Construction is
/// cheap; scatter, sampling and tree-building code takes one by `&mut`
/// reference so that the draw sites stay explicit and testable.
pub struct RngHandle {
    inner: rand::rngs::ThreadRng,
}

impl RngHandle {
    /// Relies on rand::rng: returns the thread-local generator.
    #[verifier::external_body]
    pub fn new() -> (r: RngHandle) {
        RngHandle { inner: rand::rng() }
    }

    /// Relies on rand's RngExt::random_range: a value uniform over
    /// `0..n`.  The precondition excludes the empty range it would refuse;
    /// like every use of the thread-local generator it can still fail if
    /// the operating system's entropy source does while reseeding.
    #[verifier::external_body]
    pub fn below(&mut self, n: u64) -> (r: u64)
        requires
            n >= 1,
        ensures
            r < n,
    {
        rand::RngExt::random_range(&mut self.inner, 0..n)
    }
}

} // verus!
