//! Randomness as persisted state.
//!
//! Replay correctness requires the pseudo-random generator's state to travel
//! inside the dice aggregate and to be advanced only by applying transitions.
//! The generator is `rand_chacha::ChaCha12Rng`: a value, comparable and
//! clonable, never ambient or wall-clock-seeded.  Each draw is a pure
//! function of the generator state, named here by [`sample_uniform`], so the
//! whole transition relation of the dice stays a mathematical function.

use vstd::prelude::*;

verus! {

#[verifier::external_type_specification]
#[verifier::external_body]
pub struct ExChaCha12Rng(rand_chacha::ChaCha12Rng);

/// Relies on `rand_chacha::ChaCha12Rng`'s derived `Clone`, which copies the
/// generator field for field: the clone holds the same generator state.
/// Cloning a dice value for inspection is safe exactly as long as only one of
/// the two copies keeps being driven through transitions.
pub assume_specification[ <rand_chacha::ChaCha12Rng as Clone>::clone ](
    r: &rand_chacha::ChaCha12Rng,
) -> (c: rand_chacha::ChaCha12Rng)
    ensures
        c == *r,
;

/// What one uniform draw over `lo..=hi` returns, and the generator state it
/// leaves behind: a pure function of the generator state and the bounds.
pub uninterp spec fn sample_uniform(
    r: rand_chacha::ChaCha12Rng,
    lo: u8,
    hi: u8,
) -> (u8, rand_chacha::ChaCha12Rng);

/// The generator state that seeding from a 64-bit seed yields: a pure
/// function of the seed.
pub uninterp spec fn rng_of_seed(seed: u64) -> rand_chacha::ChaCha12Rng;

/// Relies on `rand::Rng::gen_range(lo..=hi)` run on a
/// `rand_chacha::ChaCha12Rng`: the draw lies within the inclusive range and
/// is uniform over it, and both the drawn value and the generator state left
/// behind are deterministic functions of the prior generator state and the
/// bounds alone.  `gen_range` panics on an empty range, hence `lo <= hi`.
#[verifier::external_body]
pub(crate) fn sample_range(r: &mut rand_chacha::ChaCha12Rng, lo: u8, hi: u8) -> (v: u8)
    requires
        lo <= hi,
    ensures
        v == sample_uniform(*old(r), lo, hi).0,
        *final(r) == sample_uniform(*old(r), lo, hi).1,
        lo <= v <= hi,
{
    rand::Rng::gen_range(r, lo..=hi)
}

/// Relies on `rand::SeedableRng::seed_from_u64`, which expands the 64-bit
/// seed by a fixed, documented PCG32 scheme: a deterministic function of the
/// seed alone, identical on every machine.
#[verifier::external_body]
pub(crate) fn seed_rng(seed: u64) -> (r: rand_chacha::ChaCha12Rng)
    ensures
        r == rng_of_seed(seed),
{
    <rand_chacha::ChaCha12Rng as rand::SeedableRng>::seed_from_u64(seed)
}

/// Relies on `rand::SeedableRng::from_entropy`, which seeds a fresh generator
/// from the operating system's entropy source.  The result depends on that
/// source, so nothing is assumed about the state it returns.
#[verifier::external_body]
pub(crate) fn entropy_rng() -> rand_chacha::ChaCha12Rng {
    <rand_chacha::ChaCha12Rng as rand::SeedableRng>::from_entropy()
}

} // verus!
