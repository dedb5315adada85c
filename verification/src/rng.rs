use vstd::prelude::*;

verus! {

// The renderer's only outside calls: random draws.  Every draw is brought in
// as a plain integer; what the sampler does with it is verified for every
// value that can come back.

#[verifier::external_type_specification]
#[verifier::external_body]
pub struct ExThreadRng(rand::rngs::ThreadRng);

/// Relies on rand's `Rng::gen::<u32>`: one 32-bit word from the thread-local
/// generator.  Nothing can be promised of a random value.
#[verifier::external_body]
pub fn rng_u32(rng: &mut rand::rngs::ThreadRng) -> (r: u32) {
    let v: u32 = rand::Rng::gen(rng);
    v
}

/// Relies on rand's `Rng::gen::<u64>`: one 64-bit word from the thread-local
/// generator.  Nothing can be promised of a random value.
#[verifier::external_body]
pub fn rng_u64(rng: &mut rand::rngs::ThreadRng) -> (r: u64) {
    let v: u64 = rand::Rng::gen(rng);
    v
}

/// Relies on rand's `Rng::gen_range`: a value in the given range, which must
/// not be empty (the call panics on an empty range, so `n` is required
/// positive here).
#[verifier::external_body]
pub fn rng_below(rng: &mut rand::rngs::ThreadRng, n: usize) -> (r: usize)
    requires
        n >= 1,
    ensures
        r < n,
{
    rand::Rng::gen_range(rng, 0..n)
}

/// A fair coin: whether the top bit of a fresh word is set.
pub fn rng_coin(rng: &mut rand::rngs::ThreadRng) -> bool {
    rng_u32(rng) >= 0x8000_0000
}

/// A fixed-point value uniform on `[0, 1)`: a 32-bit word laid under the scale.
pub fn rng_unit(rng: &mut rand::rngs::ThreadRng) -> (r: i64)
    ensures
        0 <= r < crate::fx::FX_ONE,
{
    rng_u32(rng) as i64
}

/// A fixed-point value uniform on `[-1, 1)`: 33 fresh bits, shifted down.
pub fn rng_signed_unit(rng: &mut rand::rngs::ThreadRng) -> (r: i64)
    ensures
        -crate::fx::FX_ONE <= r < crate::fx::FX_ONE,
{
    let w: u64 = rng_u64(rng) % 0x2_0000_0000;
    (w as i64) - crate::fx::FX_ONE
}

} // verus!
