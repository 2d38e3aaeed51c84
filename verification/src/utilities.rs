//! Clamping of ordered values and the uniform draw that every sampler uses.
use vstd::prelude::*;

verus! {

/// The denominator of every fraction in this crate: `2^53`.
pub open spec fn unit() -> int {
    0x20_0000_0000_0000
}

/// The denominator of every fraction in this crate, as a machine integer.
pub const UNIT: u64 = 0x20_0000_0000_0000;

/// `x` limited to the interval from `min` to `max`: `min` where `x` lies below
/// it, else `max` where `x` lies above it, else `x` itself.
pub open spec fn clamped(x: int, min: int, max: int) -> int {
    if x < min {
        min
    } else if x > max {
        max
    } else {
        x
    }
}

/// Limits `x` to the interval from `min` to `max`. The lower bound is tested
/// first, so with `min > max` a value below `min` still gives `min`.
pub fn clamp(x: i64, min: i64, max: i64) -> (r: i64)
    ensures
        r == clamped(x as int, min as int, max as int),
        min <= max ==> min <= r <= max,
        r == x || r == min || r == max,
{
    if x < min {
        min
    } else if x > max {
        max
    } else {
        x
    }
}

/// The numerator that a 64-bit word yields: its 53 most significant bits.
pub open spec fn numerator(word: u64) -> u64 {
    word >> 11
}

/// One 64-bit word from `rand::random::<u64>()`, which takes the next word of
/// the thread's generator. Nothing is claimed of the word: every value can
/// come back, and two calls are unrelated. The generator seeds itself from the
/// system at the thread's first draw and panics if the system gives no seed.
#[verifier::external_body]
fn next_word() -> (word: u64) {
    rand::random::<u64>()
}

/// Keeps the 53 most significant bits of `word`, the bits that make a
/// uniform double in `[0, 1)` when divided by `2^53`.
pub fn numerator_of(word: u64) -> (n: u64)
    ensures
        n == numerator(word),
        n < unit(),
        n as int == word as int / 2048,
{
    let n: u64 = word >> 11;
    assert(word >> 11 < 0x20_0000_0000_0000u64) by (bit_vector);
    assert(word >> 11 == word / 2048) by (bit_vector);
    n
}

/// A uniform draw from `[0, 1)`, as the numerator `n` of `n / 2^53`: the 53
/// most significant bits of a fresh word of the generator. Which numerator
/// comes back is up to the generator; it is always below `2^53`.
pub fn random_double() -> (n: u64)
    ensures
        n < unit(),
{
    let word: u64 = next_word();
    numerator_of(word)
}

} // verus!
