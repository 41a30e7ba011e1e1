//! `pq`: the typed vocabulary of the prism-query wire alphabet.
//!
//! The project stage narrows with a walk direction, an ordering or a
//! where-clause operator; these are the plain values such shapes carry.
//! Their JSON forms belong to the wire layer around the library.
pub mod filter;

pub use filter::{Direction, OrderSpec, WalkDirection, WhereOp};
