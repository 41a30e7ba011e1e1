//! Trace: the execution record of a beam through a pipeline.
//!
//! Each [`Step`] records which prism and operation produced it, the input
//! that entered, the output (or error) that left, and the loss incurred.
//! A [`Trace`] collects steps in order, and [`reenter_at`](Trace::reenter_at)
//! recovers the input recorded at any step for replay or debugging.
//!
//! A trace is typed by the value type `V` its steps carry and the loss
//! type `L` they record; a pipeline whose stages carry different types
//! records them through one enum of its own.
use vstd::prelude::*;

verus! {

/// Which pipeline operation produced a step.
#[derive(Clone, Copy, Debug, PartialEq, Eq, Structural)]
pub enum Op {
    /// The `focus` stage: select what matters from the input.
    Focus,
    /// The `project` stage: the lossy transformation.
    Project,
    /// The `settle` stage: produce the output.
    Settle,
}

/// A value that can be stored in a [`Trace`]. Every type qualifies.
pub trait Traced {
}

impl<T> Traced for T {
}

/// The output side of a traced step.
pub enum StepOutput<V: Traced> {
    /// The step produced a value.
    Value(V),
    /// The step produced an error.
    Error(V),
}

/// A single traced step through the pipeline.
pub struct Step<V: Traced, L> {
    /// Static label for the prism that produced this step.
    pub prism: &'static str,
    /// Which of the three pipeline stages was running.
    pub op: Op,
    /// Loss accumulated during this step.
    pub loss: L,
    /// The input value that entered this step.
    pub input: V,
    /// The output (or error) that left this step.
    pub output: StepOutput<V>,
}

/// Full execution record: all steps through the pipeline, in order.
pub struct Trace<V: Traced, L> {
    steps: Vec<Step<V, L>>,
}

impl<V: Traced, L> View for Trace<V, L> {
    type V = Seq<Step<V, L>>;

    closed spec fn view(&self) -> Seq<Step<V, L>> {
        self.steps@
    }
}

impl<V: Traced, L> Trace<V, L> {
    /// Empty trace.
    pub fn new() -> (r: Self)
        ensures
            r@ == Seq::<Step<V, L>>::empty(),
    {
        Trace { steps: Vec::new() }
    }

    /// Append a step.
    pub fn push(&mut self, step: Step<V, L>)
        ensures
            final(self)@ == old(self)@.push(step),
    {
        self.steps.push(step);
    }

    /// All recorded steps in order.
    pub fn steps(&self) -> (r: &[Step<V, L>])
        ensures
            r@ == self@,
    {
        self.steps.as_slice()
    }

    /// Number of recorded steps.
    pub fn len(&self) -> (r: usize)
        ensures
            r == self@.len(),
    {
        self.steps.len()
    }

    /// Whether no steps have been recorded.
    pub fn is_empty(&self) -> (r: bool)
        ensures
            r == (self@.len() == 0),
    {
        self.steps.len() == 0
    }

    /// The input recorded at step `i`, or `None` past the last step.
    pub fn reenter_at(&self, i: usize) -> (r: Option<&V>)
        ensures
            r == (if i < self@.len() {
                Some(&self@[i as int].input)
            } else {
                None
            }),
    {
        if i < self.steps.len() {
            Some(&self.steps[i].input)
        } else {
            None
        }
    }
}

impl<V: Traced, L> Default for Trace<V, L> {
    fn default() -> (r: Self)
        ensures
            r@ == Seq::<Step<V, L>>::empty(),
    {
        Trace::new()
    }
}

} // verus!
