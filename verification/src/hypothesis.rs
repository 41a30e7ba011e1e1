//! Hypothesis: the ranked question shape formed from an assertion, in the
//! Karl Tomm (1988) question typology.
use vstd::prelude::*;

use crate::question::Question;

verus! {

/// Karl Tomm 1988 question typology.
#[derive(Clone, Copy, Debug, PartialEq, Eq, Structural)]
pub enum KTQuestionShape {
    /// Investigative; observer outside.
    Linear,
    /// Inter-relational; observer inside.
    Circular,
    /// Influence-oriented; observer directive.
    Strategic,
    /// Self-observing; observer recursive.
    Reflexive,
}

/// A hypothesis: the question shape at one altitude above its assertion.
#[derive(Clone, Debug)]
pub struct Hypothesis {
    /// The question shape.
    pub shape: KTQuestionShape,
}

impl Hypothesis {
    /// Construct a Hypothesis with an explicit shape.
    pub fn new(shape: KTQuestionShape) -> (r: Self)
        ensures
            r.shape == shape,
    {
        Hypothesis { shape }
    }

    /// Compose Hypothesis and Chaos into a Question: the concrete question,
    /// prioritized by the chaos residual.
    pub fn compose<C>(self, chaos: C) -> (r: Question<C>)
        ensures
            r.hypothesis == self,
            r.chaos == chaos,
    {
        Question::new(self, chaos)
    }
}

} // verus!
