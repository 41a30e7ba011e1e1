//! Decomposition strategies. Cartographer selects one per tick.
use vstd::prelude::*;

use crate::bundle::GroupStructure;

verus! {

/// Decomposition strategies. The variants carry the cyclic group `Z/5`
/// structure in declaration order.
#[derive(Clone, Copy, Debug, PartialEq, Eq, Structural)]
pub enum Strategy {
    /// Eigenvalue-based graph partitioning (Fiedler bisection).
    SpectralPartition,
    /// Modularity-based community detection.
    CommunityDetection,
    /// Level-set traversal.
    BreadthFirst,
    /// Recursive subgraph descent.
    DepthFirst,
    /// Random partition (baseline).
    Random,
}

/// Zero-based ordinal in the cyclic-group structure, fixed by declaration
/// order.
pub open spec fn strategy_ordinal(s: Strategy) -> int {
    match s {
        Strategy::SpectralPartition => 0,
        Strategy::CommunityDetection => 1,
        Strategy::BreadthFirst => 2,
        Strategy::DepthFirst => 3,
        Strategy::Random => 4,
    }
}

/// The strategy at ordinal `i mod 5`.
pub open spec fn strategy_of_ordinal(i: int) -> Strategy {
    let k = i % 5;
    if k == 0 {
        Strategy::SpectralPartition
    } else if k == 1 {
        Strategy::CommunityDetection
    } else if k == 2 {
        Strategy::BreadthFirst
    } else if k == 3 {
        Strategy::DepthFirst
    } else {
        Strategy::Random
    }
}

impl Default for Strategy {
    fn default() -> (r: Strategy)
        ensures
            r == Strategy::SpectralPartition,
    {
        Strategy::SpectralPartition
    }
}

impl Strategy {
    fn ordinal(&self) -> (r: u8)
        ensures
            r == strategy_ordinal(*self),
    {
        match self {
            Strategy::SpectralPartition => 0,
            Strategy::CommunityDetection => 1,
            Strategy::BreadthFirst => 2,
            Strategy::DepthFirst => 3,
            Strategy::Random => 4,
        }
    }

    fn from_ordinal(i: u8) -> (r: Strategy)
        ensures
            r == strategy_of_ordinal(i as int),
    {
        match i % 5 {
            0 => Strategy::SpectralPartition,
            1 => Strategy::CommunityDetection,
            2 => Strategy::BreadthFirst,
            3 => Strategy::DepthFirst,
            _ => Strategy::Random,
        }
    }
}

impl GroupStructure for Strategy {
    open spec fn can_invert(&self) -> bool {
        true
    }

    open spec fn can_compose(&self, other: &Self) -> bool {
        true
    }

    fn identity() -> (r: Self)
        ensures
            r == Strategy::SpectralPartition,
    {
        Strategy::SpectralPartition
    }

    fn inverse(&self) -> (r: Self)
        ensures
            r == strategy_of_ordinal(5 - strategy_ordinal(*self)),
    {
        Strategy::from_ordinal((5 - self.ordinal()) % 5)
    }

    fn compose(&self, other: &Self) -> (r: Self)
        ensures
            r == strategy_of_ordinal(strategy_ordinal(*self) + strategy_ordinal(*other)),
    {
        Strategy::from_ordinal(self.ordinal() + other.ordinal())
    }
}

/// `Strategy` under `compose` is the cyclic group `Z/5`: identity,
/// inverse, associativity and commutativity hold for all strategies.
pub proof fn lemma_strategy_group_laws(a: Strategy, b: Strategy, c: Strategy)
    ensures
        strategy_of_ordinal(strategy_ordinal(Strategy::SpectralPartition) + strategy_ordinal(a))
            == a,
        strategy_of_ordinal(strategy_ordinal(a) + strategy_ordinal(Strategy::SpectralPartition))
            == a,
        strategy_of_ordinal(
            strategy_ordinal(a) + strategy_ordinal(strategy_of_ordinal(5 - strategy_ordinal(a))),
        ) == Strategy::SpectralPartition,
        strategy_of_ordinal(
            strategy_ordinal(strategy_of_ordinal(5 - strategy_ordinal(a))) + strategy_ordinal(a),
        ) == Strategy::SpectralPartition,
        strategy_of_ordinal(
            strategy_ordinal(strategy_of_ordinal(strategy_ordinal(a) + strategy_ordinal(b)))
                + strategy_ordinal(c),
        ) == strategy_of_ordinal(
            strategy_ordinal(a) + strategy_ordinal(
                strategy_of_ordinal(strategy_ordinal(b) + strategy_ordinal(c)),
            ),
        ),
        strategy_of_ordinal(strategy_ordinal(a) + strategy_ordinal(b)) == strategy_of_ordinal(
            strategy_ordinal(b) + strategy_ordinal(a),
        ),
{
}

} // verus!
