//! The project DSL's plain values: walk direction, sort direction, the
//! where-clause operators, and an ordering spec.
use vstd::prelude::*;

verus! {

/// DAG walk direction (history traversal).
#[derive(Debug, Clone, Copy, PartialEq, Eq, Structural)]
pub enum WalkDirection {
    /// Walk toward the past (parents).
    Back,
    /// Walk toward the future (children).
    Forward,
}

/// Sort direction for an [`OrderSpec`].
#[derive(Debug, Clone, Copy, PartialEq, Eq, Structural)]
pub enum Direction {
    /// Ascending order.
    Asc,
    /// Descending order.
    Desc,
}

/// Comparison operator of a where-clause.
#[derive(Debug, Clone, Copy, PartialEq, Eq, Structural)]
pub enum WhereOp {
    /// `==`
    Eq,
    /// `!=`
    Neq,
    /// `>`
    Gt,
    /// `<`
    Lt,
    /// `>=`
    Gte,
    /// `<=`
    Lte,
    /// Substring / element containment.
    Contains,
    /// Pattern match (regex/glob; the consumer decides the dialect).
    Matches,
}

/// A single ordering spec: the field to order by and the direction.
#[derive(Debug, Clone, PartialEq)]
pub struct OrderSpec {
    /// The field name to order by.
    pub field: String,
    /// The sort direction.
    pub direction: Direction,
}

} // verus!
