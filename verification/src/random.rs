//! Uniform random numbers, drawn from the generator of the current thread.
use crate::scalar::{
    at_most, below, difference, is_infinite, lemma_zero_and_one, Scalar, ONE, ZERO,
};
use rand::rngs::ThreadRng;
use rand::seq::SliceRandom;
use rand::Rng;
use vstd::prelude::*;

verus! {

/// Number of candidates that rejection sampling draws before it gives up.
pub const ATTEMPTS: u64 = 18446744073709551615;

/// The pattern of `2^-53`.
pub const GRAIN: u64 = 0x3ca0_0000_0000_0000;

/// The generator of the current thread, `rand::rngs::ThreadRng`. Nothing of
/// its state is visible.
#[verifier::external_type_specification]
#[verifier::external_body]
pub struct ExThreadRng(ThreadRng);

/// `rand::thread_rng` hands out the generator of the current thread.
/// Nothing is claimed of it. It panics where the operating system provides
/// no entropy to seed the generator.
pub assume_specification[ rand::thread_rng ]() -> (rng: ThreadRng)
;

/// Draws an integer with `rand::Rng::gen_range` on the half-open range
/// `low..high`. The range is not empty, and the value drawn lies in it;
/// which value is drawn is left open. The generator panics where the
/// operating system provides no entropy when it reseeds itself.
#[verifier::external_body]
fn uniform_count(rng: &mut ThreadRng, low: i64, high: i64) -> (r: i64)
    requires
        low < high,
    ensures
        low <= r < high,
{
    rng.gen_range(low..high)
}

/// Reorders the table with `rand::seq::SliceRandom::shuffle`. The table
/// afterwards holds the same entries as before, each as often as before;
/// their order is left open. The generator panics where the operating
/// system provides no entropy when it reseeds itself.
#[verifier::external_body]
fn shuffle_table(rng: &mut ThreadRng, table: &mut Vec<u8>)
    ensures
        final(table)@.to_multiset() == old(table)@.to_multiset(),
{
    table.shuffle(rng);
}

/// A random arrangement of the numbers `0..=255`.
pub fn random_permutation() -> (table: Vec<u8>)
    ensures
        table@.len() == 256,
        table@.no_duplicates(),
{
    let mut table: Vec<u8> = Vec::new();
    let mut next: usize = 0;
    while next < 256
        invariant
            next <= 256,
            table@.len() == next,
            forall|i: int| 0 <= i < next ==> table@[i] == i,
        decreases 256 - next,
    {
        table.push(next as u8);
        next = next + 1;
    }
    let ghost ordered: Seq<u8> = table@;
    let mut rng: ThreadRng = rand::thread_rng();
    shuffle_table(&mut rng, &mut table);
    proof {
        assert(ordered.no_duplicates());
        ordered.lemma_multiset_has_no_duplicates();
        table@.lemma_multiset_has_no_duplicates_conv();
        ordered.to_multiset_ensures();
        table@.to_multiset_ensures();
    }
    table
}

/// A uniform random number in `[0, 1)`: a random count of 53 bits, times
/// `2^-53`.
pub fn random_scalar() -> (r: Scalar)
    ensures
        at_most(ZERO, r@),
        below(r@, ONE),
{
    let mut rng: ThreadRng = rand::thread_rng();
    let count: i64 = uniform_count(&mut rng, 0, 9007199254740992);
    let drawn: Scalar = Scalar::from_count(count as u64).times(Scalar::from_bits(GRAIN));
    if drawn.ge(Scalar::zero()) && drawn.lt(Scalar::one()) {
        drawn
    } else {
        proof {
            lemma_zero_and_one();
        }
        Scalar::zero()
    }
}

/// A uniform random number in `[min, max)`: `min + (max - min) u` for a
/// uniform `u` in `[0, 1)`, drawn again where rounding takes it out of the
/// range. The range is not empty and its width is finite. After
/// [`ATTEMPTS`] draws `min` is returned.
pub fn random_scalar_range(min: Scalar, max: Scalar) -> (r: Scalar)
    requires
        below(min@, max@),
        !is_infinite(difference(max@, min@)),
    ensures
        at_most(min@, r@),
        below(r@, max@),
{
    let span: Scalar = max.minus(min);
    let mut attempts: u64 = 0;
    while attempts < ATTEMPTS
        invariant
            below(min@, max@),
        decreases ATTEMPTS - attempts,
    {
        let drawn: Scalar = min.plus(span.times(random_scalar()));
        if drawn.ge(min) && drawn.lt(max) {
            return drawn;
        }
        attempts = attempts + 1;
    }
    min
}

} // verus!
