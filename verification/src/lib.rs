//! prismqueer: a typed transformation library with a principal-bundle
//! tower, optic-kind lattice, shard-graph composition and the Fate
//! weight/runtime machinery, each piece carrying a verified contract.

pub mod bundle;
pub mod choice;
pub mod fate;
pub mod flux;
pub mod hypothesis;
pub mod observer;
pub mod liquid;
pub mod optic_kind;
pub mod pq;
pub mod question;
pub mod spectral;
pub mod substrate_ref;
pub mod trace;
pub mod verdict;
