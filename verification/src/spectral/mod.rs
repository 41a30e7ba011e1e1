//! Spectral: cellular-sheaf primitives over shard graphs.
pub mod kleinos;

pub use kleinos::{
    compose_candidate, compute_emergent_third_id, sheaf_of_complete_graph_of_order,
    sheaf_of_shard_graph_from_edges, EdgeKey, Property, SheafOfShardGraph, VertexId, WhichSide,
};
