//! Bundle: the principal bundle tower with connection.
//!
//! Five traits form a supertrait chain:
//! `Fiber -> Connection -> Gauge -> Transport -> Closure`, and every type
//! that implements the whole chain is a `Bundle`.
//!
//! The algebraic structure lives in the carried types: the gauge group
//! implements [`GroupStructure`] (identity, inverse, composition) and the
//! closure's fixed point implements [`LawvereFixedPoint`].
use vstd::prelude::*;
use vstd::std_specs::cmp::PartialEqSpec;

pub mod examples;

verus! {

// ---------------------------------------------------------------------------
// Supertrait laws: the algebraic structure carried by the bundle.
// ---------------------------------------------------------------------------

/// Group structure: identity, inverse, composition.
///
/// Implementors are responsible for the laws (identity, inverse,
/// associativity); each carrier in this crate proves them for its own
/// impl. The two predicates say on which elements the operations are
/// defined for a given carrier.
pub trait GroupStructure: Sized {
    /// Whether `inverse` is defined on `self`.
    spec fn can_invert(&self) -> bool;

    /// Whether `compose` is defined on `(self, other)`.
    spec fn can_compose(&self, other: &Self) -> bool;

    /// The group identity element.
    fn identity() -> Self;

    /// The two-sided inverse of `self` under `compose`.
    fn inverse(&self) -> Self
        requires
            self.can_invert(),
    ;

    /// Group composition. Non-commutative in general.
    fn compose(&self, other: &Self) -> Self
        requires
            self.can_compose(other),
    ;
}

/// A Lawvere fixed point: idempotent under reapplication of its
/// generating endomap, and lying in the kernel of the bundle's
/// connection-induced operator.
pub trait LawvereFixedPoint {
    /// Whether `endomap` reaches a fixed point after one application:
    /// `endomap(self) == endomap(endomap(self))`, compared with `==`.
    fn is_idempotent_under<F: Fn(&Self) -> Self>(&self, endomap: F) -> (r: bool) where
        Self: PartialEq + Sized,

        requires
            forall|x: &Self| #[trigger] endomap.requires((x,)),
        ensures
            exists|once: Self, twice: Self|
                #![trigger endomap.ensures((self,), once), endomap.ensures((&once,), twice)]
                endomap.ensures((self,), once) && endomap.ensures((&once,), twice) && (
                Self::obeys_eq_spec() ==> r == once.eq_spec(&twice)),
    {
        let once = endomap(self);
        let twice = endomap(&once);
        once == twice
    }

    /// Whether this value lies in the kernel of the bundle's
    /// connection-induced operator.
    fn in_kernel(&self) -> bool;
}

// ---------------------------------------------------------------------------
// The five-level bundle tower.
// ---------------------------------------------------------------------------

/// Level 0: the observed state. The section of the bundle.
pub trait Fiber {
    /// The state space.
    type State;
}

/// Level 1: the optic that determines how information transports.
pub trait Connection: Fiber {
    /// The algebra element carried by this connection.
    type Optic;

    /// Borrow the connection's optic.
    fn connection(&self) -> &Self::Optic;
}

/// Level 2: the structure group acting on the fiber's state.
///
/// `spec_act` is the action as a mathematical function; `act_on` computes
/// it. `acts` says on which carriers the action is defined.
pub trait Gauge: Connection {
    /// The structure group acting on the fiber.
    type Group: GroupStructure;

    /// Whether this carrier's gauge element can act on states.
    spec fn acts(&self) -> bool;

    /// The action of this carrier's gauge element on a state.
    spec fn spec_act(&self, state: Self::State) -> Self::State;

    /// Borrow the gauge element.
    fn gauge(&self) -> &Self::Group;

    /// Apply the gauge element to a fiber state.
    fn act_on(&self, state: &Self::State) -> (r: Self::State)
        requires
            self.acts(),
        ensures
            r == self.spec_act(*state),
    ;
}

/// Level 3: parallel transport with holonomy. The holonomy is the
/// measured loss of transporting a state: zero when the state stays on
/// the section, positive otherwise.
pub trait Transport: Gauge {
    /// Whether `state` can be transported by this carrier.
    spec fn transports(&self, state: Self::State) -> bool;

    /// The holonomy magnitude of transporting `state`.
    spec fn spec_holonomy(&self, state: Self::State) -> u64;

    /// Compute the holonomy magnitude of transporting `state`.
    fn holonomy(&self, state: &Self::State) -> (h: u64)
        requires
            self.transports(*state),
        ensures
            h == self.spec_holonomy(*state),
    ;
}

/// Level 4: autopoietic closure. The Lawvere fixed point.
pub trait Closure: Transport {
    /// The fixed-point witness.
    type Fixed: LawvereFixedPoint;

    /// Borrow the closure's fixed point.
    fn close(&self) -> &Self::Fixed;
}

/// A complete principal bundle tower: any type that implements all five
/// levels is a Bundle.
pub trait Bundle: Closure {
}

impl<T: Closure> Bundle for T {
}

// ---------------------------------------------------------------------------
// IdentityPrism: the trivial algebra element.
// ---------------------------------------------------------------------------

/// A prism that passes the carried value through unchanged at every
/// stage. Witnesses that the optic algebra has an identity element.
pub struct IdentityPrism<S> {
    _marker: core::marker::PhantomData<S>,
}

impl<S> IdentityPrism<S> {
    /// Construct the identity prism for state type `S`.
    pub fn new() -> (r: Self) {
        IdentityPrism { _marker: core::marker::PhantomData }
    }

    /// The focus stage: selects the whole value.
    pub fn focus(&self, value: S) -> (r: S)
        ensures
            r == value,
    {
        value
    }

    /// The project stage: loses nothing.
    pub fn project(&self, value: S) -> (r: S)
        ensures
            r == value,
    {
        value
    }

    /// The settle stage: produces the value it was handed.
    pub fn settle(&self, value: S) -> (r: S)
        ensures
            r == value,
    {
        value
    }

    /// The value that leaves the identity prism's three stages
    /// (`focus`, then `project`, then `settle`): the value that entered,
    /// unchanged.
    pub fn refract(&self, value: S) -> (r: S)
        ensures
            r == value,
    {
        self.settle(self.project(self.focus(value)))
    }
}

// ---------------------------------------------------------------------------
// Cyclic<N>: the cyclic group Z/NZ.
// ---------------------------------------------------------------------------

/// The cyclic group `Z/NZ` of rotations modulo `N`. Identity is 0,
/// inverse of `k` is `N - k mod N`, composition is addition mod `N`.
#[derive(Clone, Copy, Debug, PartialEq, Eq)]
pub struct Cyclic<const N: u8>(pub u8);

/// Addition modulo `n`: the composition of `Z/nZ`.
pub open spec fn cyclic_add(n: int, a: int, b: int) -> int {
    (a + b) % n
}

/// Negation modulo `n`: the inverse in `Z/nZ`.
pub open spec fn cyclic_neg(n: int, a: int) -> int {
    (n - a) % n
}

impl<const N: u8> Cyclic<N> {
    /// Whether this value is a canonical representative in `0..N`.
    pub open spec fn is_canonical(&self) -> bool {
        N > 0 && self.0 < N
    }

    /// Construct an element of `Z/NZ`. Values are reduced modulo `N`.
    pub fn new(k: u8) -> (r: Self)
        requires
            N > 0,
        ensures
            r.0 == k % N,
            r.is_canonical(),
    {
        Cyclic(k % N)
    }

    /// Extract the representative.
    pub fn value(&self) -> (r: u8)
        ensures
            r == self.0,
    {
        self.0
    }
}

impl<const N: u8> GroupStructure for Cyclic<N> {
    open spec fn can_invert(&self) -> bool {
        N > 0 && self.0 <= N
    }

    open spec fn can_compose(&self, other: &Self) -> bool {
        N > 0
    }

    fn identity() -> (r: Self)
        ensures
            r.0 == 0,
    {
        Cyclic(0)
    }

    fn inverse(&self) -> (r: Self)
        ensures
            r.0 == cyclic_neg(N as int, self.0 as int),
    {
        Cyclic((N - self.0) % N)
    }

    fn compose(&self, other: &Self) -> (r: Self)
        ensures
            r.0 == cyclic_add(N as int, self.0 as int, other.0 as int),
    {
        let s: u16 = self.0 as u16 + other.0 as u16;
        let m: u16 = s % (N as u16);
        assert(m < N);
        Cyclic(m as u8)
    }
}

/// The group laws of `Z/nZ` on canonical representatives: closure,
/// identity, inverse, associativity, commutativity.
pub proof fn lemma_cyclic_group_laws(n: int, a: int, b: int, c: int)
    requires
        n > 0,
        0 <= a < n,
        0 <= b < n,
        0 <= c < n,
    ensures
        0 <= cyclic_add(n, a, b) < n,
        0 <= cyclic_neg(n, a) < n,
        cyclic_add(n, 0, a) == a,
        cyclic_add(n, a, 0) == a,
        cyclic_add(n, a, cyclic_neg(n, a)) == 0,
        cyclic_add(n, cyclic_neg(n, a), a) == 0,
        cyclic_add(n, cyclic_add(n, a, b), c) == cyclic_add(n, a, cyclic_add(n, b, c)),
        cyclic_add(n, a, b) == cyclic_add(n, b, a),
{
    vstd::arithmetic::div_mod::lemma_mod_bound(a + b, n);
    vstd::arithmetic::div_mod::lemma_small_mod(a as nat, n as nat);
    if a == 0 {
        vstd::arithmetic::div_mod::lemma_mod_self_0(n);
    } else {
        vstd::arithmetic::div_mod::lemma_small_mod((n - a) as nat, n as nat);
    }
    vstd::arithmetic::div_mod::lemma_mod_self_0(n);
    vstd::arithmetic::div_mod::lemma_add_mod_noop(a + b, c, n);
    vstd::arithmetic::div_mod::lemma_add_mod_noop(a, b + c, n);
    vstd::arithmetic::div_mod::lemma_small_mod(c as nat, n as nat);
    vstd::arithmetic::div_mod::lemma_small_mod(a as nat, n as nat);
}

// ---------------------------------------------------------------------------
// StableFiber: a concrete fixed-point witness.
// ---------------------------------------------------------------------------

/// A witness that a fiber-state is fixed under a tick-map: the state itself
/// is carried, and `in_kernel()` reports whether the witness was certified
/// zero-residual at construction.
#[derive(Clone, Debug, PartialEq)]
pub struct StableFiber<S> {
    /// The fixed state.
    pub state: S,
    /// Whether the witness was certified zero-residual at construction.
    pub kernel: bool,
}

impl<S> LawvereFixedPoint for StableFiber<S> {
    fn in_kernel(&self) -> (r: bool)
        ensures
            r == self.kernel,
    {
        self.kernel
    }
}

} // verus!
