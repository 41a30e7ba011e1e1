//! Choice: the input from a subject. The substrate emits a Question; the
//! subject answers with a Choice.
use vstd::prelude::*;

verus! {

/// Choice: the natural-language payload from a subject.
#[derive(Clone, Debug)]
pub struct Choice {
    /// The payload from the subject.
    pub payload: String,
}

impl Choice {
    /// Construct a Choice from a payload.
    pub fn new(payload: &str) -> (r: Self)
        ensures
            r.payload@ == payload@,
    {
        Choice { payload: String::from_str(payload) }
    }
}

} // verus!
