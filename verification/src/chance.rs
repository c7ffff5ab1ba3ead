//! Uniform random draws and the Bernoulli trial every evaluator applies
//! per entity.
//!
//! Nothing is assumed of a draw's value; what an evaluator guarantees must
//! hold for every outcome. The one exception a trial itself provides: at
//! probability zero it never succeeds, at probability one it always does.

use vstd::prelude::*;
use crate::config::{Probability, PROBABILITY_SCALE};

verus! {

/// Relies on rand::random: a uniform sample of the type; nothing is assumed
/// of its value.
pub assume_specification<T>[ rand::random::<T> ]() -> (r: T)
    where
        rand::distributions::Standard: rand::distributions::Distribution<T>,
;

/// Decide one Bernoulli trial from a uniform draw: the trial succeeds when
/// the draw, reduced to the probability scale, falls below the probability.
pub fn trial_outcome(draw: u64, p: Probability) -> (b: bool)
    requires
        p.wf(),
    ensures
        b == (draw % (PROBABILITY_SCALE as u64) < p.ppm as u64),
{
    draw % (PROBABILITY_SCALE as u64) < p.ppm as u64
}

/// An independent Bernoulli trial at probability `p`. Whatever the draw, the
/// trial never succeeds at probability zero and always does at probability
/// one.
pub fn bernoulli(p: Probability) -> (b: bool)
    requires
        p.wf(),
    ensures
        p.ppm == 0 ==> !b,
        p.ppm == PROBABILITY_SCALE ==> b,
{
    let draw = rand::random::<u64>();
    trial_outcome(draw, p)
}

} // verus!
