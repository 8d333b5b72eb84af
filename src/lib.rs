//! Bounded scores for user-generated content: an engagement score from
//! interaction counts and a quality score from text heuristics.
//!
//! Scores are kept here as whole points in `0..=MAX_SCORE`. The quality score
//! is always a whole number of points; the engagement score needs a logarithm,
//! so this library decides everything about it up to the one real-valued step.
use vstd::prelude::*;

pub mod engagement;
pub mod quality;
pub mod words;

verus! {

/// The upper end of every score.
pub const MAX_SCORE: i64 = 100;

/// A score bounded into `0..=MAX_SCORE`.
pub open spec fn clamp_spec(score: int) -> int {
    if score < 0 {
        0
    } else if score > MAX_SCORE {
        MAX_SCORE as int
    } else {
        score
    }
}

/// Bounds `score` into `0..=MAX_SCORE`: below zero gives zero, above the
/// maximum gives the maximum, anything else is returned unchanged.
pub fn clamp_score(score: i64) -> (r: i64)
    ensures
        r == clamp_spec(score as int),
        0 <= r <= MAX_SCORE,
{
    if score < 0 {
        0
    } else if score > MAX_SCORE {
        MAX_SCORE
    } else {
        score
    }
}

/// Clamping twice is the same as clamping once.
pub proof fn lemma_clamp_idempotent(x: int)
    ensures
        clamp_spec(clamp_spec(x)) == clamp_spec(x),
        0 <= clamp_spec(x) <= MAX_SCORE,
{
}

} // verus!
