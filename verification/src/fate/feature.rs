//! Named feature dimensions for Fate's 16-dimensional fiber bundle.
//!
//! 16 dimensions split into two groups:
//! - 6 active dimensions (indices 0 to 5): observable, updated each cycle.
//! - 10 dark dimensions (indices 6 to 15): latent, shaped by training.
use vstd::prelude::*;

verus! {

pub const TEMPORAL: usize = 0;
pub const PROCESSING: usize = 1;
pub const STABILITY: usize = 2;
pub const NOVELTY: usize = 3;
pub const CAUTION: usize = 4;
pub const COHERENCE: usize = 5;

/// The active dimensions, in index order.
pub const ACTIVE: [usize; 6] = [0, 1, 2, 3, 4, 5];

pub const ACTIVE_COUNT: usize = 6;

pub const CREATIVITY: usize = 6;
pub const CONFIDENCE: usize = 7;
pub const FORMALITY: usize = 8;
pub const OUTPUT_REGULATION: usize = 9;
pub const ABSTRACTION: usize = 10;
pub const DEFERENCE: usize = 11;
pub const CONFIDENCE_CALIBRATION: usize = 12;
pub const INNOVATION: usize = 13;
pub const REASONING_DEPTH: usize = 14;
pub const EMOTIONAL_TONE: usize = 15;

/// The dark dimensions, in index order.
pub const DARK: [usize; 10] = [6, 7, 8, 9, 10, 11, 12, 13, 14, 15];

pub const DARK_COUNT: usize = 10;

/// Classification of a training step's holonomy relative to the Berry
/// phase of the fiber bundle.
#[derive(Clone, Copy, Debug, PartialEq, Eq, Structural)]
pub enum HolonomyHealth {
    /// The step barely moved the manifold.
    TooShallow,
    /// A clean, well-sized step.
    Healthy,
    /// The step over-cut; geometric distortion.
    OverCutting,
}

/// The active and dark dimensions partition the sixteen feature indices:
/// active dimensions are exactly `0..6`, dark ones exactly `6..16`, and
/// every index lies in exactly one of the two lists.
pub proof fn lemma_active_dark_partition(d: int)
    requires
        0 <= d < 16,
    ensures
        (exists|i: int| 0 <= i < 6 && ACTIVE[i] == d) == (d < 6),
        (exists|i: int| 0 <= i < 10 && DARK[i] == d) == (d >= 6),
{
    if d < 6 {
        assert(ACTIVE[d] == d);
    } else {
        assert(DARK[d - 6] == d);
    }
}

} // verus!
