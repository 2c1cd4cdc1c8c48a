//! The production noise source.
//!
//! Every model consumes uniform unit samples in `[0, SCALE)`. The samples are
//! plain arguments of each model's `update_with_noise`, so the dynamics are
//! verified for every possible draw; `draw_samples` is what the unseeded
//! `update` entry points feed them from.

use vstd::prelude::*;
use crate::fixed::SCALE;

verus! {

/// Relies on rand::random_range: a uniform draw from the half-open range
/// handed to it, here `0..SCALE`, so the result lies in `[0, SCALE)`.
#[verifier::external_body]
fn random_unit() -> (r: i64)
    ensures
        0 <= r < SCALE,
{
    rand::random_range(0..SCALE)
}

/// Draw `n` fresh uniform unit samples.
pub fn draw_samples(n: usize) -> (samples: Vec<i64>)
    ensures
        samples@.len() == n,
        forall|i: int| 0 <= i < n ==> 0 <= #[trigger] samples@[i] < SCALE,
{
    let mut samples: Vec<i64> = Vec::new();
    let mut i: usize = 0;
    while i < n
        invariant
            i <= n,
            samples@.len() == i,
            forall|j: int| 0 <= j < i ==> 0 <= #[trigger] samples@[j] < SCALE,
        decreases n - i,
    {
        samples.push(random_unit());
        i = i + 1;
    }
    samples
}

} // verus!
