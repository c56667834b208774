//! The random draws of a tick. Each draw is a fixed-point fraction of one,
//! taken from a seeded generator; the steps that consume them are
//! deterministic in the draws, so a tick can be replayed.

use rand::rngs::StdRng;
use rand::Rng;
use vstd::prelude::*;
use crate::units::SCALE;

verus! {

#[verifier::external_type_specification]
#[verifier::external_body]
pub struct ExStdRng(StdRng);

/// Calls `rand::Rng::gen_range` on the half-open range from zero to `bound`.
/// The range must not be empty, else the call panics; the number it returns
/// lies in the range. Nothing else is claimed of it.
#[verifier::external_body]
fn sample_below(rng: &mut StdRng, bound: u64) -> (r: u64)
    requires
        bound > 0,
    ensures
        r < bound,
{
    rng.gen_range(0..bound)
}

/// Whether `s` is a fixed-point fraction in `[0, 1)`.
pub open spec fn is_fraction(s: int) -> bool {
    0 <= s < SCALE
}

/// Every sample of the sequence is a fraction in `[0, 1)`.
pub open spec fn fractions(samples: Seq<i64>) -> bool {
    forall|k: int| 0 <= k < samples.len() ==> is_fraction(#[trigger] samples[k] as int)
}

/// Draws a fraction in `[0, 1)`.
pub fn draw_fraction(rng: &mut StdRng) -> (s: i64)
    ensures
        is_fraction(s as int),
{
    let raw: u64 = sample_below(rng, SCALE as u64);
    raw as i64
}

/// Draws an index below `n`.
pub fn draw_index(rng: &mut StdRng, n: usize) -> (k: usize)
    requires
        n > 0,
    ensures
        k < n,
{
    let raw: u64 = sample_below(rng, n as u64);
    raw as usize
}

/// Draws `n` fractions in `[0, 1)`.
pub fn draw_fractions(rng: &mut StdRng, n: usize) -> (samples: Vec<i64>)
    ensures
        samples.len() == n,
        fractions(samples@),
{
    let mut samples: Vec<i64> = Vec::new();
    let mut k: usize = 0;
    while k < n
        invariant
            k <= n,
            samples.len() == k,
            fractions(samples@),
        decreases n - k,
    {
        let s: i64 = draw_fraction(rng);
        samples.push(s);
        k = k + 1;
    }
    samples
}

} // verus!
