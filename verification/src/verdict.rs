//! Verdicts: the outcome of checking one property. A check passes, passes
//! with bounded confidence, or fails; every non-passing verdict names the
//! check that decided it.
use vstd::prelude::*;

verus! {

/// A confidence `numerator / denominator` in `[0, 1]`.
#[derive(Clone, Copy, Debug, PartialEq, Eq)]
pub struct Confidence {
    pub numerator: u64,
    pub denominator: u64,
}

/// The verdict of one property check.
#[derive(Clone, Copy, Debug, PartialEq, Eq)]
pub enum Verdict {
    /// The property passed without qualification.
    Pass,
    /// The property passed with bounded confidence; the diagnostic says why
    /// it is bounded.
    Partial { confidence: Confidence, diagnostic: &'static str },
    /// The property failed; the diagnostic names the failed check.
    Fail(&'static str),
}

/// The Rice-safe midpoint confidence one half.
pub open spec fn half() -> Confidence {
    Confidence { numerator: 1, denominator: 2 }
}

} // verus!
