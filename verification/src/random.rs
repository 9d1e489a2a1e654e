use vstd::prelude::*;

verus! {

/// rand's standard generator, declared so that a source of randomness can
/// live inside a verified struct. Its values are opaque here.
#[verifier::external_type_specification]
#[verifier::external_body]
pub struct ExStdRng(rand::rngs::StdRng);

/// An explicit source of randomness, threaded into every generation call.
///
/// Nothing is assumed of the drawn values beyond the stated ranges: every
/// contract downstream holds whatever comes out of a draw.
pub struct RandomSource {
    rng: rand::rngs::StdRng,
}

impl RandomSource {
    /// Relies on rand::SeedableRng::seed_from_u64: builds a generator whose
    /// draws are determined by the seed, for reproducible runs.
    #[verifier::external_body]
    pub fn from_seed(seed: u64) -> RandomSource {
        RandomSource { rng: <rand::rngs::StdRng as rand::SeedableRng>::seed_from_u64(seed) }
    }

    /// Relies on rand::Rng::gen for bool: a draw comes out either way.
    #[verifier::external_body]
    pub(crate) fn next_bool(&mut self) -> bool {
        rand::Rng::gen::<bool>(&mut self.rng)
    }

    /// Relies on rand::Rng::gen for u8: a draw over the whole byte range.
    #[verifier::external_body]
    pub(crate) fn next_u8(&mut self) -> u8 {
        rand::Rng::gen::<u8>(&mut self.rng)
    }

    /// Relies on rand::Rng::gen for u16: a draw over the whole 16-bit range.
    #[verifier::external_body]
    pub(crate) fn next_u16(&mut self) -> u16 {
        rand::Rng::gen::<u16>(&mut self.rng)
    }

    /// Relies on rand::Rng::gen for u32: a draw over the whole 32-bit range.
    #[verifier::external_body]
    pub(crate) fn next_u32(&mut self) -> u32 {
        rand::Rng::gen::<u32>(&mut self.rng)
    }

    /// Relies on rand::Rng::gen for u64: a draw over the whole 64-bit range.
    #[verifier::external_body]
    pub(crate) fn next_u64(&mut self) -> u64 {
        rand::Rng::gen::<u64>(&mut self.rng)
    }

    /// Relies on rand::Rng::gen_range over `0..n`: the draw lies below `n`.
    /// The call panics only on an empty range, which the precondition rules
    /// out.
    #[verifier::external_body]
    pub(crate) fn next_below(&mut self, n: usize) -> (r: usize)
        requires
            n >= 1,
        ensures
            r < n,
    {
        rand::Rng::gen_range(&mut self.rng, 0..n)
    }
}

} // verus!
