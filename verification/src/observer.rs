//! Observer<N>: an observer parametrized on the dimensionality of its
//! observation. A tape is `Observer<1>`; `Observer<3>` is the peer-stable
//! observer; `Observer<5>` matches the five-axis void basis.
use vstd::prelude::*;

verus! {

/// An observer whose observation dimensionality is the type parameter `N`.
#[derive(Clone, Copy, Debug)]
pub struct Observer<const N: usize> {}

impl<const N: usize> Observer<N> {
    /// Construct an N-dimensional observer.
    pub fn new() -> (r: Self) {
        Observer {}
    }

    /// The dimensionality this observer carries.
    pub fn dimensionality() -> (r: usize)
        ensures
            r == N,
    {
        N
    }
}

impl<const N: usize> Default for Observer<N> {
    fn default() -> (r: Self) {
        Observer {}
    }
}

/// The tape observer (one dimension).
pub type TuringObserver = Observer<1>;

/// The peer-stable observer (three dimensions).
pub type PeerObserver = Observer<3>;

/// The void-basis observer (five dimensions).
pub type VoidObserver = Observer<5>;

} // verus!
