//! Question: a Hypothesis composed with the Chaos residual that
//! prioritizes it. Emitted by the substrate; a subject answers with a
//! Choice.
use vstd::prelude::*;

use crate::hypothesis::Hypothesis;

verus! {

/// A Question: the shape carrier from the Hypothesis and the chaos
/// residual that prioritizes it.
#[derive(Clone, Debug)]
pub struct Question<C> {
    /// The question shape carrier from the Hypothesis.
    pub hypothesis: Hypothesis,
    /// The chaos residual that prioritizes this question.
    pub chaos: C,
}

impl<C> Question<C> {
    /// Construct a Question from a Hypothesis and a chaos residual.
    pub fn new(hypothesis: Hypothesis, chaos: C) -> (r: Self)
        ensures
            r.hypothesis == hypothesis,
            r.chaos == chaos,
    {
        Question { hypothesis, chaos }
    }
}

} // verus!
