//! Flux: the spectral commutator of two bundle carriers, together with the
//! property-testing surface (`pillar`) that composes over it.
//!
//! For carriers `A`, `B` whose gauges act on a common fiber state, the
//! commutator `[A, B]` at `state` compares the two orders of acting:
//!
//! ```text
//! ||[A, B]|| := | hol_A(A.B.state) - hol_B(B.A.state) |
//! ```
//!
//! It is symmetric in its arguments, vanishes for `A == B`, is
//! non-negative, and vanishes whenever the two actions commute and the
//! holonomy does not depend on the carrier.
use vstd::prelude::*;

use crate::bundle::Transport;
use crate::liquid::{commutator_defined, commutator_spec, distance};

pub mod pillar;

verus! {

/// A Bundle whose commutator can be computed via the composition of
/// gauge action and transport holonomy. Implemented for every `Transport`.
pub trait FluxThread: Transport {
    /// Compute the commutator magnitude `||[A, B]||` at a given state.
    fn commutator_magnitude(a: &Self, b: &Self, state: &Self::State) -> (m: u64)
        requires
            commutator_defined(a, b, *state),
        ensures
            m == commutator_spec(a, b, *state),
    ;
}

impl<T: Transport> FluxThread for T {
    fn commutator_magnitude(a: &Self, b: &Self, state: &Self::State) -> (m: u64) {
        let b_state = b.act_on(state);
        let ab_state = a.act_on(&b_state);
        let a_state = a.act_on(state);
        let ba_state = b.act_on(&a_state);
        let ab_holonomy = a.holonomy(&ab_state);
        let ba_holonomy = b.holonomy(&ba_state);
        distance(ab_holonomy, ba_holonomy)
    }
}

/// The commutator `[A, B]` at a state as a deferred value.
pub struct Commutator<'a, C: FluxThread> {
    a: &'a C,
    b: &'a C,
    state: &'a C::State,
}

impl<'a, C: FluxThread> Commutator<'a, C> {
    /// Whether the held commutator is defined.
    pub open spec fn defined(&self) -> bool {
        commutator_defined(self.parts().0, self.parts().1, *self.parts().2)
    }

    /// The magnitude of the held commutator.
    pub open spec fn spec_magnitude(&self) -> u64 {
        commutator_spec(self.parts().0, self.parts().1, *self.parts().2)
    }

    /// The held carriers and state.
    pub closed spec fn parts(&self) -> (&'a C, &'a C, &'a C::State) {
        (self.a, self.b, self.state)
    }

    /// Compute the commutator magnitude.
    pub fn magnitude(&self) -> (m: u64)
        requires
            self.defined(),
        ensures
            m == self.spec_magnitude(),
    {
        C::commutator_magnitude(self.a, self.b, self.state)
    }
}

/// Construct a commutator of two connections at a specified state.
pub fn commutator<'a, C: FluxThread>(a: &'a C, b: &'a C, state: &'a C::State) -> (r:
    Commutator<'a, C>)
    ensures
        r.parts() == (a, b, state),
{
    Commutator { a, b, state }
}

/// Compute the commutator norm at the `Default` state.
pub fn commutator_norm<C: FluxThread>(a: &C, b: &C) -> (m: u64) where C::State: Default
    requires
        forall|s: C::State| call_ensures(C::State::default, (), s) ==> commutator_defined(a, b, s),
    ensures
        exists|s: C::State|
            call_ensures(C::State::default, (), s) && m == commutator_spec(a, b, s),
{
    let state = C::State::default();
    C::commutator_magnitude(a, b, &state)
}

} // verus!
