//! Liquid: the spectral commutator of two bundle carriers.
//!
//! For carriers `A`, `B` whose gauges act on a common fiber state, the
//! commutator `[A, B]` at `state` compares the two orders of acting:
//!
//! ```text
//! ||[A, B]|| := | hol_A(A.B.state) - hol_B(B.A.state) |
//! ```
//!
//! It is symmetric in its arguments, vanishes for `A == B`, is
//! non-negative, and vanishes whenever the two actions commute and the
//! holonomy does not depend on the carrier.
use vstd::prelude::*;

use crate::bundle::{Gauge, Transport};

pub mod pillar;

verus! {

/// The metric distance between two holonomy magnitudes.
pub open spec fn holonomy_distance(x: u64, y: u64) -> u64 {
    if x >= y {
        (x - y) as u64
    } else {
        (y - x) as u64
    }
}

/// Compute the metric distance between two holonomy magnitudes.
pub fn distance(x: u64, y: u64) -> (r: u64)
    ensures
        r == holonomy_distance(x, y),
{
    if x >= y {
        x - y
    } else {
        y - x
    }
}

/// Whether the commutator of `a` and `b` is defined at `state`: both
/// gauges act, and both composed states can be transported.
pub open spec fn commutator_defined<C: Transport + ?Sized>(a: &C, b: &C, state: C::State) -> bool {
    &&& a.acts()
    &&& b.acts()
    &&& a.transports(a.spec_act(b.spec_act(state)))
    &&& b.transports(b.spec_act(a.spec_act(state)))
}

/// `||[A, B]||` at `state`.
pub open spec fn commutator_spec<C: Transport + ?Sized>(a: &C, b: &C, state: C::State) -> u64 {
    holonomy_distance(
        a.spec_holonomy(a.spec_act(b.spec_act(state))),
        b.spec_holonomy(b.spec_act(a.spec_act(state))),
    )
}

/// A Bundle whose commutator can be computed via the composition of
/// gauge action and transport holonomy. Implemented for every `Transport`.
pub trait LiquidConnection: Transport {
    /// Compute the commutator magnitude `||[A, B]||` at a given state.
    fn commutator_magnitude(a: &Self, b: &Self, state: &Self::State) -> (m: u64)
        requires
            commutator_defined(a, b, *state),
        ensures
            m == commutator_spec(a, b, *state),
    ;
}

impl<T: Transport> LiquidConnection for T {
    fn commutator_magnitude(a: &Self, b: &Self, state: &Self::State) -> (m: u64) {
        let b_state = b.act_on(state);
        let ab_state = a.act_on(&b_state);
        let a_state = a.act_on(state);
        let ba_state = b.act_on(&a_state);
        let ab_holonomy = a.holonomy(&ab_state);
        let ba_holonomy = b.holonomy(&ba_state);
        distance(ab_holonomy, ba_holonomy)
    }
}

/// The commutator `[A, B]` at a state as a deferred value.
pub struct Commutator<'a, C: LiquidConnection> {
    a: &'a C,
    b: &'a C,
    state: &'a C::State,
}

impl<'a, C: LiquidConnection> Commutator<'a, C> {
    /// Whether the held commutator is defined.
    pub open spec fn defined(&self) -> bool {
        commutator_defined(self.parts().0, self.parts().1, *self.parts().2)
    }

    /// The magnitude of the held commutator.
    pub open spec fn spec_magnitude(&self) -> u64 {
        commutator_spec(self.parts().0, self.parts().1, *self.parts().2)
    }

    /// The held carriers and state.
    pub closed spec fn parts(&self) -> (&'a C, &'a C, &'a C::State) {
        (self.a, self.b, self.state)
    }

    /// Compute the commutator magnitude.
    pub fn magnitude(&self) -> (m: u64)
        requires
            self.defined(),
        ensures
            m == self.spec_magnitude(),
    {
        C::commutator_magnitude(self.a, self.b, self.state)
    }
}

/// Construct a commutator of two connections at a specified state.
pub fn commutator<'a, C: LiquidConnection>(a: &'a C, b: &'a C, state: &'a C::State) -> (r:
    Commutator<'a, C>)
    ensures
        r.parts() == (a, b, state),
{
    Commutator { a, b, state }
}

/// Compute the commutator norm at the `Default` state.
pub fn commutator_norm<C: LiquidConnection>(a: &C, b: &C) -> (m: u64) where C::State: Default
    requires
        forall|s: C::State| call_ensures(C::State::default, (), s) ==> commutator_defined(a, b, s),
    ensures
        exists|s: C::State|
            call_ensures(C::State::default, (), s) && m == commutator_spec(a, b, s),
{
    let state = C::State::default();
    C::commutator_magnitude(a, b, &state)
}

/// The commutator is symmetric under argument swap and vanishes on the
/// diagonal.
pub proof fn lemma_commutator_symmetric_self_annihilating<C: Transport>(
    a: &C,
    b: &C,
    state: C::State,
)
    ensures
        commutator_spec(a, b, state) == commutator_spec(b, a, state),
        commutator_spec(a, a, state) == 0,
{
}

/// The commutator vanishes when the two gauge actions commute at `state`
/// and both carriers measure the same holonomy on the resulting state, as
/// for abelian gauges whose holonomy depends on the state alone.
pub proof fn lemma_commutator_vanishes_when_actions_commute<C: Transport>(
    a: &C,
    b: &C,
    state: C::State,
)
    requires
        a.spec_act(b.spec_act(state)) == b.spec_act(a.spec_act(state)),
        a.spec_holonomy(a.spec_act(b.spec_act(state))) == b.spec_holonomy(
            a.spec_act(b.spec_act(state)),
        ),
    ensures
        commutator_spec(a, b, state) == 0,
{
}

/// The holonomy distance is a metric: zero exactly on the diagonal,
/// symmetric, and it satisfies the triangle inequality.
pub proof fn lemma_distance_is_metric(x: u64, y: u64, z: u64)
    ensures
        (holonomy_distance(x, y) == 0) == (x == y),
        holonomy_distance(x, y) == holonomy_distance(y, x),
        holonomy_distance(x, z) <= holonomy_distance(x, y) + holonomy_distance(y, z),
{
}

} // verus!
