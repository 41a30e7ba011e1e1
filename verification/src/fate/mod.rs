//! Fate: the five models and the machinery that selects among them.
//!
//! Abyss:        Focus. Observe the spectral state.
//! Introject:    Project. Selective internalization.
//! Cartographer: Strategy selector: how to split.
//! Explorer:     Subgraph comprehension: compressed meaning.
//! Fate:         Refract. Crystallize. Select what runs next.
use vstd::prelude::*;

pub mod feature;
pub mod runtime;
pub mod strategy;
pub mod weights;

pub use strategy::Strategy;

use crate::bundle::LawvereFixedPoint;

verus! {

/// Which model should run next.
#[derive(Clone, Copy, Debug, PartialEq, Eq, Structural)]
pub enum Model {
    /// Focus. Observe the spectral state.
    Abyss,
    /// Project. Selective internalization: what survives the precision cut.
    Introject,
    /// Split. Map the territory. Walk every node.
    Cartographer,
    /// Zoom. Recover meaning at the boundary. The residual signal.
    Explorer,
    /// Refract. Crystallize. Select what runs next.
    Fate,
}

/// A resolved model is Fate's fixed point: it always lies in the kernel.
impl LawvereFixedPoint for Model {
    fn in_kernel(&self) -> (r: bool)
        ensures
            r,
    {
        true
    }
}

/// The spectral features that Fate operates on: 16 dimensions, the shared
/// vocabulary between all five models.
pub const FEATURE_DIM: usize = 16;

/// All five models, in index order.
pub const MODELS: [Model; 5] = [
    Model::Abyss,
    Model::Introject,
    Model::Cartographer,
    Model::Explorer,
    Model::Fate,
];

/// The index of a model in the cycle `Abyss -> Introject -> Cartographer
/// -> Explorer -> Fate`.
pub open spec fn model_index(m: Model) -> int {
    match m {
        Model::Abyss => 0,
        Model::Introject => 1,
        Model::Cartographer => 2,
        Model::Explorer => 3,
        Model::Fate => 4,
    }
}

/// The model at an output index; anything out of range falls back to
/// `Abyss`.
pub open spec fn model_of_index(i: int) -> Model {
    if i == 1 {
        Model::Introject
    } else if i == 2 {
        Model::Cartographer
    } else if i == 3 {
        Model::Explorer
    } else if i == 4 {
        Model::Fate
    } else {
        Model::Abyss
    }
}

} // verus!
